//! Selectors, rules, and the token-stream rule parser.
//!
//! The parser consumes the lexer's tokens: comma-separated selector text
//! up to a `{`, then `property: value;` pairs up to the matching `}`, one
//! rule per block. Property values are taken as the raw source slice
//! between the colon and the terminating `;` or `}`, trimmed, so that
//! multi-token values (`4px 8px black`, `rgb(255, 0, 0)`) survive intact.
//! A post-pass substitutes custom-property references (`var(--name)`)
//! with previously defined values.

use vstd::prelude::*;

use crate::chars::{ends_with_seq, starts_with_seq, str_ends_with, str_eq, str_starts_with,
    substr_trimmed, trim_seq};
use crate::lexer::{Token, TokenKind, TokenV};

verus! {

/// CSS state modifiers recognised as selector suffixes.
#[derive(Debug, Clone, Copy, PartialEq, Eq, Structural)]
pub enum PseudoClass {
    Hover,
    Active,
    ActiveHover,
    Disabled,
    DisabledHover,
    Focus,
    FocusHover,
    Placeholder,
    Selection,
}

impl DeepView for PseudoClass {
    type V = PseudoClass;

    open spec fn deep_view(&self) -> PseudoClass {
        *self
    }
}

/// A selector: its raw text as written (pseudo-class suffix included) and
/// the pseudo-class extracted from that suffix, if any.
#[derive(Debug, PartialEq)]
pub struct Selector {
    pub selector: String,
    pub pseudo_class: Option<PseudoClass>,
}

/// The mathematical shadow of `Selector`.
pub ghost struct SelectorV {
    pub selector: Seq<char>,
    pub pseudo_class: Option<PseudoClass>,
}

impl View for Selector {
    type V = SelectorV;

    open spec fn view(&self) -> SelectorV {
        SelectorV { selector: self.selector@, pseudo_class: self.pseudo_class }
    }
}

impl DeepView for Selector {
    type V = SelectorV;

    open spec fn deep_view(&self) -> SelectorV {
        self.view()
    }
}

impl Clone for Selector {
    fn clone(&self) -> (r: Self)
        ensures
            r == *self,
    {
        Selector { selector: self.selector.clone(), pseudo_class: self.pseudo_class }
    }
}

/// The pseudo-class named by the suffix of the selector text, longest
/// suffix first, so `:active:hover` wins over `:hover`.
pub open spec fn spec_pseudo_of(text: Seq<char>) -> Option<PseudoClass> {
    if ends_with_seq(text, "::placeholder"@) {
        Some(PseudoClass::Placeholder)
    } else if ends_with_seq(text, "::selection"@) {
        Some(PseudoClass::Selection)
    } else if ends_with_seq(text, ":active:hover"@) {
        Some(PseudoClass::ActiveHover)
    } else if ends_with_seq(text, ":disabled:hover"@) {
        Some(PseudoClass::DisabledHover)
    } else if ends_with_seq(text, ":focus:hover"@) {
        Some(PseudoClass::FocusHover)
    } else if ends_with_seq(text, ":placeholder"@) {
        Some(PseudoClass::Placeholder)
    } else if ends_with_seq(text, ":selection"@) {
        Some(PseudoClass::Selection)
    } else if ends_with_seq(text, ":active"@) {
        Some(PseudoClass::Active)
    } else if ends_with_seq(text, ":disabled"@) {
        Some(PseudoClass::Disabled)
    } else if ends_with_seq(text, ":hover"@) {
        Some(PseudoClass::Hover)
    } else if ends_with_seq(text, ":focus"@) {
        Some(PseudoClass::Focus)
    } else {
        None
    }
}

pub open spec fn spec_selector_from(text: Seq<char>) -> SelectorV {
    SelectorV { selector: text, pseudo_class: spec_pseudo_of(text) }
}

/// Builds a selector from its raw text, extracting the pseudo-class
/// suffix; proved against `spec_selector_from`.
pub fn selector_from(text: &str) -> (r: Selector)
    ensures
        r@ == spec_selector_from(text@),
{
    let pseudo_class: Option<PseudoClass> = if str_ends_with(text, "::placeholder") {
        Some(PseudoClass::Placeholder)
    } else if str_ends_with(text, "::selection") {
        Some(PseudoClass::Selection)
    } else if str_ends_with(text, ":active:hover") {
        Some(PseudoClass::ActiveHover)
    } else if str_ends_with(text, ":disabled:hover") {
        Some(PseudoClass::DisabledHover)
    } else if str_ends_with(text, ":focus:hover") {
        Some(PseudoClass::FocusHover)
    } else if str_ends_with(text, ":placeholder") {
        Some(PseudoClass::Placeholder)
    } else if str_ends_with(text, ":selection") {
        Some(PseudoClass::Selection)
    } else if str_ends_with(text, ":active") {
        Some(PseudoClass::Active)
    } else if str_ends_with(text, ":disabled") {
        Some(PseudoClass::Disabled)
    } else if str_ends_with(text, ":hover") {
        Some(PseudoClass::Hover)
    } else if str_ends_with(text, ":focus") {
        Some(PseudoClass::Focus)
    } else {
        None
    };
    Selector { selector: String::from_str(text), pseudo_class }
}

/// The class tokens of a query, each given a leading `.` unless it
/// already has one, joined without separators.
pub open spec fn spec_query_classes(toks: Seq<Seq<char>>) -> Seq<char>
    decreases toks.len(),
{
    if toks.len() == 0 {
        Seq::empty()
    } else {
        (if starts_with_seq(toks[0], "."@) {
            toks[0]
        } else {
            seq!['.'] + toks[0]
        }) + spec_query_classes(toks.drop_first())
    }
}

/// The query text an element identity resolves to: `#id`, a space when
/// both parts are present, then the `.`-prefixed class tokens; an element
/// with neither id nor class falls back to `* <name>`.
pub open spec fn spec_css_query(
    id: Option<Seq<char>>,
    class: Option<Seq<char>>,
    name: Seq<char>,
) -> Seq<char> {
    let idp: Seq<char> = match id {
        Some(i) => seq!['#'] + i,
        None => Seq::empty(),
    };
    let full: Seq<char> = idp + (match class {
        Some(c) => (if idp.len() > 0 {
            seq![' ']
        } else {
            Seq::<char>::empty()
        }) + spec_query_classes(crate::chars::split_ws(c)),
        None => Seq::<char>::empty(),
    });
    if full.len() == 0 {
        "* "@ + name
    } else {
        full
    }
}

/// Builds the query text for an element identity, proved against
/// `spec_css_query`.
pub fn css_query_of(id: Option<&str>, class: Option<&str>, name: &str) -> (r: String)
    ensures
        r@ == spec_css_query(
            match id {
                Some(i) => Some(i@),
                None => None,
            },
            match class {
                Some(c) => Some(c@),
                None => None,
            },
            name@,
        ),
{
    let mut result = String::new();
    let ghost idv: Seq<char> = match id {
        Some(i) => seq!['#'] + i@,
        None => Seq::empty(),
    };
    match id {
        Some(i) => {
            result.append("#");
            result.append(i);
            proof {
                reveal_strlit("#");
                assert(result@ =~= idv);
            }
        },
        None => {
            proof {
                assert(result@ =~= idv);
            }
        },
    }
    match class {
        Some(c) => {
            if result.as_str().unicode_len() > 0 {
                result.append(" ");
                proof {
                    reveal_strlit(" ");
                    assert(result@ =~= idv + seq![' ']);
                }
            }
            let ghost head = result@;
            let toks = crate::chars::split_whitespace_chars(c);
            let ghost tv = toks.deep_view();
            let mut t: usize = 0;
            proof {
                assert(tv.skip(0) =~= tv);
            }
            while t < toks.len()
                invariant
                    0 <= t <= toks.len(),
                    tv == toks.deep_view(),
                    result@ + spec_query_classes(tv.skip(t as int)) == head
                        + spec_query_classes(tv),
                decreases toks.len() - t,
            {
                proof {
                    assert(tv.skip(t as int)[0] == tv[t as int]);
                    assert(tv.skip(t as int).drop_first() =~= tv.skip(t + 1));
                    assert(tv[t as int] == toks@[t as int]@);
                }
                if !str_starts_with(toks[t], ".") {
                    result.append(".");
                    proof {
                        reveal_strlit(".");
                    }
                }
                result.append(toks[t]);
                proof {
                    let rest = spec_query_classes(tv.skip(t + 1));
                    let piece: Seq<char> = if starts_with_seq(tv[t as int], "."@) {
                        tv[t as int]
                    } else {
                        seq!['.'] + tv[t as int]
                    };
                    assert(spec_query_classes(tv.skip(t as int)) == piece + rest);
                    assert(result@ + rest =~= head + spec_query_classes(tv));
                }
                t += 1;
            }
            proof {
                assert(tv.skip(t as int).len() == 0);
                assert(spec_query_classes(tv.skip(t as int)) == Seq::<char>::empty());
                assert(result@ =~= head + spec_query_classes(tv));
            }
        },
        None => {
        },
    }
    if result.as_str().unicode_len() == 0 {
        let mut fallback = String::new();
        fallback.append("* ");
        fallback.append(name);
        proof {
            assert(fallback@ =~= "* "@ + name@);
        }
        return fallback;
    }
    proof {
        assert(result@ =~= spec_css_query(
            match id {
                Some(i) => Some(i@),
                None => None,
            },
            match class {
                Some(c) => Some(c@),
                None => None,
            },
            name@,
        ));
    }
    result
}

/// A rule as written in source: its selector list and its raw
/// `(property, value)` pairs, in order.
#[derive(Debug, PartialEq)]
pub struct Rule {
    pub selectors: Vec<Selector>,
    pub props: Vec<(String, String)>,
}

/// The mathematical shadow of `Rule`.
pub ghost struct RuleV {
    pub selectors: Seq<SelectorV>,
    pub props: Seq<(Seq<char>, Seq<char>)>,
}

impl View for Rule {
    type V = RuleV;

    open spec fn view(&self) -> RuleV {
        RuleV { selectors: self.selectors.deep_view(), props: self.props.deep_view() }
    }
}

impl DeepView for Rule {
    type V = RuleV;

    open spec fn deep_view(&self) -> RuleV {
        self.view()
    }
}

/// Tokens index real positions of `s`: non-empty spans, in increasing
/// order, never overlapping.
pub open spec fn tokens_wf(ts: Seq<TokenV>, s: Seq<char>) -> bool {
    (forall|k: int|
        0 <= k < ts.len() ==> 0 <= (#[trigger] ts[k]).start < ts[k].end <= s.len()) && (forall|
        a: int,
        b: int,
    |
        #![trigger ts[a], ts[b]]
        0 <= a < b < ts.len() ==> ts[a].end <= ts[b].start)
}

/// First token of `kind` at or after `k`, or the length of `ts`.
pub open spec fn find_kind(ts: Seq<TokenV>, k: int, kind: TokenKind) -> int
    decreases ts.len() - k,
{
    if k < 0 || k >= ts.len() {
        ts.len() as int
    } else if ts[k].kind == kind {
        k
    } else {
        find_kind(ts, k + 1, kind)
    }
}

pub proof fn lemma_find_kind_bounds(ts: Seq<TokenV>, k: int, kind: TokenKind)
    requires
        0 <= k <= ts.len(),
    ensures
        k <= find_kind(ts, k, kind) <= ts.len(),
        find_kind(ts, k, kind) < ts.len() ==> ts[find_kind(ts, k, kind)].kind == kind,
    decreases ts.len() - k,
{
    if k < ts.len() && ts[k].kind != kind {
        lemma_find_kind_bounds(ts, k + 1, kind);
    }
}

fn find_kind_exec(ts: &Vec<Token>, k: usize, kind: TokenKind) -> (r: usize)
    requires
        k <= ts@.len(),
    ensures
        r == find_kind(ts.deep_view(), k as int, kind),
        k <= r <= ts@.len(),
        r < ts@.len() ==> ts.deep_view()[r as int].kind == kind,
{
    let ghost tv = ts.deep_view();
    proof {
        assert(tv.len() == ts@.len());
    }
    let n = ts.len();
    let mut j = k;
    while j < n && !(ts[j].kind == kind)
        invariant
            k <= j <= n,
            find_kind(tv, k as int, kind) == find_kind(tv, j as int, kind),
        decreases n - j,
    {
        proof {
            assert(tv[j as int] == ts@[j as int]@);
        }
        j += 1;
    }
    proof {
        if j < n {
            assert(tv[j as int] == ts@[j as int]@);
        }
    }
    j
}

/// First declaration terminator (`;` or `}`) at or after `k`, or the
/// length of `ts`.
pub open spec fn find_term(ts: Seq<TokenV>, k: int) -> int
    decreases ts.len() - k,
{
    if k < 0 || k >= ts.len() {
        ts.len() as int
    } else if ts[k].kind == TokenKind::Semicolon || ts[k].kind == TokenKind::RBrace {
        k
    } else {
        find_term(ts, k + 1)
    }
}

pub proof fn lemma_find_term_bounds(ts: Seq<TokenV>, k: int)
    requires
        0 <= k <= ts.len(),
    ensures
        k <= find_term(ts, k) <= ts.len(),
        find_term(ts, k) < ts.len() ==> (ts[find_term(ts, k)].kind == TokenKind::Semicolon
            || ts[find_term(ts, k)].kind == TokenKind::RBrace),
    decreases ts.len() - k,
{
    if k < ts.len() && !(ts[k].kind == TokenKind::Semicolon || ts[k].kind == TokenKind::RBrace) {
        lemma_find_term_bounds(ts, k + 1);
    }
}

pub fn find_term_exec(ts: &Vec<Token>, k: usize) -> (r: usize)
    requires
        k <= ts@.len(),
    ensures
        r == find_term(ts.deep_view(), k as int),
        k <= r <= ts@.len(),
{
    let ghost tv = ts.deep_view();
    let n = ts.len();
    let mut j = k;
    while j < n && !(ts[j].kind == TokenKind::Semicolon || ts[j].kind == TokenKind::RBrace)
        invariant
            k <= j <= n,
            find_term(tv, k as int) == find_term(tv, j as int),
        decreases n - j,
    {
        proof {
            assert(tv[j as int] == ts@[j as int]@);
        }
        j += 1;
    }
    proof {
        if j < n {
            assert(tv[j as int] == ts@[j as int]@);
        }
    }
    j
}

/// First comma strictly inside `[k, b)`, or `b`.
pub open spec fn find_comma(ts: Seq<TokenV>, k: int, b: int) -> int
    decreases b - k,
{
    if k < 0 || k >= b {
        b
    } else if k < ts.len() && ts[k].kind == TokenKind::Comma {
        k
    } else {
        find_comma(ts, k + 1, b)
    }
}

pub proof fn lemma_find_comma_bounds(ts: Seq<TokenV>, k: int, b: int)
    requires
        0 <= k <= b,
    ensures
        k <= find_comma(ts, k, b) <= b,
    decreases b - k,
{
    if k < b && !(k < ts.len() && ts[k].kind == TokenKind::Comma) {
        lemma_find_comma_bounds(ts, k + 1, b);
    }
}

fn find_comma_exec(ts: &Vec<Token>, k: usize, b: usize) -> (r: usize)
    requires
        k <= b <= ts@.len(),
    ensures
        r == find_comma(ts.deep_view(), k as int, b as int),
        k <= r <= b,
{
    let ghost tv = ts.deep_view();
    let mut j = k;
    while j < b && !(ts[j].kind == TokenKind::Comma)
        invariant
            k <= j <= b,
            find_comma(tv, k as int, b as int) == find_comma(tv, j as int, b as int),
        decreases b - j,
    {
        proof {
            assert(tv[j as int] == ts@[j as int]@);
        }
        j += 1;
    }
    proof {
        if j < b {
            assert(tv[j as int] == ts@[j as int]@);
        }
    }
    j
}

/// The selectors written between token `k` and the `{` at token `b`:
/// comma-separated groups, each group's raw source span trimmed; empty
/// groups are skipped.
pub open spec fn spec_selectors(ts: Seq<TokenV>, s: Seq<char>, k: int, b: int) -> Seq<SelectorV>
    decreases b + 1 - k,
    via spec_selectors_decreases
{
    if k < 0 || k >= b {
        Seq::empty()
    } else {
        let c = find_comma(ts, k, b);
        if c == k {
            spec_selectors(ts, s, k + 1, b)
        } else {
            let text = trim_seq(s.subrange(ts[k].start, ts[c - 1].end));
            seq![spec_selector_from(text)] + spec_selectors(ts, s, c + 1, b)
        }
    }
}

#[via_fn]
proof fn spec_selectors_decreases(ts: Seq<TokenV>, s: Seq<char>, k: int, b: int) {
    if 0 <= k < b {
        lemma_find_comma_bounds(ts, k, b);
    }
}

/// Exec selector parsing, proved against `spec_selectors`.
fn parse_selectors(ts: &Vec<Token>, s: &str, k: usize, b: usize) -> (r: Vec<Selector>)
    requires
        tokens_wf(ts.deep_view(), s@),
        k <= b <= ts@.len(),
    ensures
        r.deep_view() == spec_selectors(ts.deep_view(), s@, k as int, b as int),
    decreases b - k,
{
    let ghost tv = ts.deep_view();
    if k >= b {
        let r: Vec<Selector> = Vec::new();
        proof {
            assert(r.deep_view() =~= spec_selectors(tv, s@, k as int, b as int));
        }
        return r;
    }
    let c = find_comma_exec(ts, k, b);
    if c == k {
        return parse_selectors(ts, s, k + 1, b);
    }
    proof {
        assert(c >= k);
    }
    proof {
        assert(tv[k as int] == ts@[k as int]@);
        assert(tv[c - 1] == ts@[c - 1]@);
        assert(0 <= tv[k as int].start < tv[k as int].end <= s@.len());
        assert(0 <= tv[c - 1].start < tv[c - 1].end <= s@.len());
        if k < c - 1 {
            assert(tv[k as int].end <= tv[c - 1].start);
        }
    }
    let text = substr_trimmed(s, ts[k].start, ts[c - 1].end);
    let sel = selector_from(text);
    let mut rest = if c < b {
        parse_selectors(ts, s, c + 1, b)
    } else {
        let empty: Vec<Selector> = Vec::new();
        proof {
            assert(empty.deep_view() =~= spec_selectors(ts.deep_view(), s@, c + 1, b as int));
        }
        empty
    };
    rest.insert(0, sel);
    proof {
        assert(rest.deep_view() =~= seq![sel@] + spec_selectors(tv, s@, c + 1, b as int));
    }
    rest
}

/// The `(property, value)` pairs of a declaration block starting at token
/// `k`, and the token index one past the block.
pub open spec fn spec_props(ts: Seq<TokenV>, s: Seq<char>, k: int) -> (Seq<(Seq<char>, Seq<char>)>, int)
    decreases ts.len() - k,
    via spec_props_decreases
{
    if k < 0 || k >= ts.len() {
        (Seq::empty(), ts.len() as int)
    } else if ts[k].kind == TokenKind::RBrace {
        (Seq::empty(), k + 1)
    } else if ts[k].kind == TokenKind::Ident && k + 1 < ts.len() && ts[k + 1].kind
        == TokenKind::Colon {
        let e = find_term(ts, k + 2);
        let vstart = ts[k + 1].end;
        let vend = if e < ts.len() {
            ts[e].start
        } else {
            s.len() as int
        };
        let key = s.subrange(ts[k].start, ts[k].end);
        let value = trim_seq(s.subrange(vstart, vend));
        if e >= ts.len() {
            (seq![(key, value)], ts.len() as int)
        } else if ts[e].kind == TokenKind::Semicolon {
            let (rest, k2) = spec_props(ts, s, e + 1);
            (seq![(key, value)] + rest, k2)
        } else {
            (seq![(key, value)], e + 1)
        }
    } else {
        spec_props(ts, s, k + 1)
    }
}

#[via_fn]
proof fn spec_props_decreases(ts: Seq<TokenV>, s: Seq<char>, k: int) {
    if 0 <= k < ts.len() && ts[k].kind == TokenKind::Ident && k + 1 < ts.len() && ts[k + 1].kind
        == TokenKind::Colon {
        lemma_find_term_bounds(ts, k + 2);
    }
}

/// The block end index returned by `spec_props` always advances past `k`.
pub proof fn lemma_props_advance(ts: Seq<TokenV>, s: Seq<char>, k: int)
    requires
        0 <= k <= ts.len(),
    ensures
        spec_props(ts, s, k).1 >= k,
        spec_props(ts, s, k).1 <= ts.len(),
    decreases ts.len() - k,
{
    if k >= ts.len() {
    } else if ts[k].kind == TokenKind::RBrace {
    } else if ts[k].kind == TokenKind::Ident && k + 1 < ts.len() && ts[k + 1].kind
        == TokenKind::Colon {
        lemma_find_term_bounds(ts, k + 2);
        let e = find_term(ts, k + 2);
        if e < ts.len() && ts[e].kind == TokenKind::Semicolon {
            lemma_props_advance(ts, s, e + 1);
        }
    } else {
        lemma_props_advance(ts, s, k + 1);
    }
}

/// Exec property parsing, proved against `spec_props`.
fn parse_props(ts: &Vec<Token>, s: &str, k: usize) -> (r: (Vec<(String, String)>, usize))
    requires
        tokens_wf(ts.deep_view(), s@),
        k <= ts@.len(),
    ensures
        r.0.deep_view() == spec_props(ts.deep_view(), s@, k as int).0,
        r.1 == spec_props(ts.deep_view(), s@, k as int).1,
    decreases ts@.len() - k,
{
    let ghost tv = ts.deep_view();
    let n = ts.len();
    if k >= n {
        let r: Vec<(String, String)> = Vec::new();
        proof {
            assert(r.deep_view() =~= spec_props(tv, s@, k as int).0);
        }
        return (r, n);
    }
    proof {
        assert(tv[k as int] == ts@[k as int]@);
    }
    let tk = ts[k].kind;
    if tk == TokenKind::RBrace {
        let r: Vec<(String, String)> = Vec::new();
        proof {
            assert(r.deep_view() =~= spec_props(tv, s@, k as int).0);
        }
        return (r, k + 1);
    }
    let colon_next = k + 1 < n && ts[k + 1].kind == TokenKind::Colon;
    proof {
        if k + 1 < n {
            assert(tv[k + 1] == ts@[k + 1]@);
        }
    }
    if tk == TokenKind::Ident && colon_next {
        let e = find_term_exec(ts, k + 2);
        let vstart = ts[k + 1].end;
        let vend = if e < n {
            proof {
                assert(tv[e as int] == ts@[e as int]@);
                assert(tv[k + 1].end <= tv[e as int].start);
            }
            ts[e].start
        } else {
            s.unicode_len()
        };
        proof {
            assert(0 <= tv[k as int].start < tv[k as int].end <= s@.len());
            assert(0 <= tv[k + 1].start < tv[k + 1].end <= s@.len());
        }
        let key_str = s.substring_char(ts[k].start, ts[k].end);
        let key = String::from_str(key_str);
        let value_str = substr_trimmed(s, vstart, vend);
        let value = String::from_str(value_str);
        if e >= n {
            let mut r: Vec<(String, String)> = Vec::new();
            r.push((key, value));
            proof {
                assert(r.deep_view() =~= spec_props(tv, s@, k as int).0);
            }
            return (r, n);
        }
        proof {
            assert(tv[e as int] == ts@[e as int]@);
        }
        if ts[e].kind == TokenKind::Semicolon {
            let (mut rest, k2) = parse_props(ts, s, e + 1);
            rest.insert(0, (key, value));
            proof {
                assert(rest.deep_view() =~= spec_props(tv, s@, k as int).0);
            }
            return (rest, k2);
        }
        let mut r: Vec<(String, String)> = Vec::new();
        r.push((key, value));
        proof {
            assert(r.deep_view() =~= spec_props(tv, s@, k as int).0);
        }
        return (r, e + 1);
    }
    parse_props(ts, s, k + 1)
}

/// The rules of the token stream: one per `{ ... }` block.
pub open spec fn spec_rules_from(ts: Seq<TokenV>, s: Seq<char>, k: int) -> Seq<RuleV>
    decreases ts.len() - k,
    via spec_rules_from_decreases
{
    if k < 0 || k >= ts.len() {
        Seq::empty()
    } else {
        let b = find_kind(ts, k, TokenKind::LBrace);
        if b >= ts.len() {
            Seq::empty()
        } else {
            let sels = spec_selectors(ts, s, k, b);
            let pr = spec_props(ts, s, b + 1);
            seq![RuleV { selectors: sels, props: pr.0 }] + spec_rules_from(ts, s, pr.1)
        }
    }
}

#[via_fn]
proof fn spec_rules_from_decreases(ts: Seq<TokenV>, s: Seq<char>, k: int) {
    if 0 <= k < ts.len() {
        lemma_find_kind_bounds(ts, k, TokenKind::LBrace);
        let b = find_kind(ts, k, TokenKind::LBrace);
        if b < ts.len() {
            lemma_props_advance(ts, s, b + 1);
        }
    }
}

pub open spec fn spec_parse_rules(ts: Seq<TokenV>, s: Seq<char>) -> Seq<RuleV> {
    spec_rules_from(ts, s, 0)
}

fn parse_rules_from(ts: &Vec<Token>, s: &str, k: usize) -> (r: Vec<Rule>)
    requires
        tokens_wf(ts.deep_view(), s@),
        k <= ts@.len(),
    ensures
        r.deep_view() == spec_rules_from(ts.deep_view(), s@, k as int),
    decreases ts@.len() - k,
{
    let ghost tv = ts.deep_view();
    let n = ts.len();
    if k >= n {
        let r: Vec<Rule> = Vec::new();
        proof {
            assert(r.deep_view() =~= spec_rules_from(tv, s@, k as int));
        }
        return r;
    }
    let b = find_kind_exec(ts, k, TokenKind::LBrace);
    if b >= n {
        let r: Vec<Rule> = Vec::new();
        proof {
            assert(r.deep_view() =~= spec_rules_from(tv, s@, k as int));
        }
        return r;
    }
    let selectors = parse_selectors(ts, s, k, b);
    let (props, k2) = parse_props(ts, s, b + 1);
    proof {
        lemma_props_advance(tv, s@, b + 1);
    }
    let rule = Rule { selectors, props };
    let mut rest = parse_rules_from(ts, s, k2);
    rest.insert(0, rule);
    proof {
        assert(rest.deep_view() =~= spec_rules_from(tv, s@, k as int));
    }
    rest
}

/// Parses tokens into rules, proved against `spec_parse_rules`.
pub fn parse_rules(ts: &Vec<Token>, s: &str) -> (r: Vec<Rule>)
    requires
        tokens_wf(ts.deep_view(), s@),
    ensures
        r.deep_view() == spec_parse_rules(ts.deep_view(), s@),
{
    parse_rules_from(ts, s, 0)
}

/// Whether `key` declares a custom property (`--name`).
pub open spec fn is_var_def(key: Seq<char>) -> bool {
    starts_with_seq(key, "--"@)
}

/// Whether `value` is a custom-property reference, `var( ... )`.
pub open spec fn is_var_ref(value: Seq<char>) -> bool {
    value.len() >= 5 && starts_with_seq(value, "var("@) && ends_with_seq(value, ")"@)
}

/// The referenced custom-property name inside `var( ... )`, trimmed.
pub open spec fn var_ref_name(value: Seq<char>) -> Seq<char> {
    trim_seq(value.subrange(4, value.len() - 1))
}

/// Definition lookup: the latest definition wins.
pub open spec fn defs_lookup(defs: Seq<(Seq<char>, Seq<char>)>, key: Seq<char>) -> Option<
    Seq<char>,
>
    decreases defs.len(),
{
    if defs.len() == 0 {
        None
    } else if defs.last().0 == key {
        Some(defs.last().1)
    } else {
        defs_lookup(defs.drop_last(), key)
    }
}

/// One rule's properties after substitution, together with the definition
/// list extended by the definitions this rule makes.
pub open spec fn spec_subst_props(
    props: Seq<(Seq<char>, Seq<char>)>,
    defs: Seq<(Seq<char>, Seq<char>)>,
) -> (Seq<(Seq<char>, Seq<char>)>, Seq<(Seq<char>, Seq<char>)>)
    decreases props.len(),
{
    if props.len() == 0 {
        (Seq::empty(), defs)
    } else {
        let p = props[0];
        if is_var_def(p.0) {
            let r = spec_subst_props(props.drop_first(), defs.push(p));
            (seq![p] + r.0, r.1)
        } else {
            let v2 = if is_var_ref(p.1) {
                match defs_lookup(defs, var_ref_name(p.1)) {
                    Some(v) => v,
                    None => p.1,
                }
            } else {
                p.1
            };
            let r = spec_subst_props(props.drop_first(), defs);
            (seq![(p.0, v2)] + r.0, r.1)
        }
    }
}

/// All rules after variable substitution, threading definitions from one
/// rule to the next in source order.
pub open spec fn spec_replace_vars_from(
    rules: Seq<RuleV>,
    defs: Seq<(Seq<char>, Seq<char>)>,
) -> Seq<RuleV>
    decreases rules.len(),
{
    if rules.len() == 0 {
        Seq::empty()
    } else {
        let r = spec_subst_props(rules[0].props, defs);
        seq![RuleV { selectors: rules[0].selectors, props: r.0 }] + spec_replace_vars_from(
            rules.drop_first(),
            r.1,
        )
    }
}

pub open spec fn spec_replace_vars(rules: Seq<RuleV>) -> Seq<RuleV> {
    spec_replace_vars_from(rules, Seq::empty())
}

/// Latest-wins definition lookup, proved against `defs_lookup`.
fn defs_get(defs: &Vec<(String, String)>, key: &str) -> (r: Option<String>)
    ensures
        match r {
            Some(v) => defs_lookup(defs.deep_view(), key@) == Some(v@),
            None => defs_lookup(defs.deep_view(), key@) is None,
        },
{
    let ghost m = defs.deep_view();
    let mut j = defs.len();
    proof {
        assert(m.take(j as int) =~= m);
    }
    while j > 0
        invariant
            0 <= j <= defs.len(),
            defs_lookup(m, key@) == defs_lookup(m.take(j as int), key@),
        decreases j,
    {
        j -= 1;
        proof {
            assert(m.take(j + 1).last() == m[j as int]);
            assert(m.take(j + 1).drop_last() =~= m.take(j as int));
            assert(m[j as int] == (defs@[j as int].0@, defs@[j as int].1@));
        }
        if str_eq(defs[j].0.as_str(), key) {
            return Some(defs[j].1.clone());
        }
    }
    proof {
        assert(m.take(0).len() == 0);
    }
    None
}

/// One rule's substitution pass, proved against `spec_subst_props`. Takes
/// the rule's properties and the running definition list; returns the
/// substituted properties and extends the definitions in place.
fn subst_props(props: &Vec<(String, String)>, defs: &mut Vec<(String, String)>) -> (r: Vec<
    (String, String),
>)
    ensures
        r.deep_view() == spec_subst_props(props.deep_view(), old(defs).deep_view()).0,
        final(defs).deep_view() == spec_subst_props(props.deep_view(), old(defs).deep_view()).1,
{
    let ghost pv = props.deep_view();
    let mut out: Vec<(String, String)> = Vec::new();
    let mut i: usize = 0;
    proof {
        assert(pv.skip(0) =~= pv);
        assert(out.deep_view() + spec_subst_props(pv, defs.deep_view()).0 =~= spec_subst_props(
            pv,
            defs.deep_view(),
        ).0);
    }
    while i < props.len()
        invariant
            0 <= i <= props.len(),
            pv == props.deep_view(),
            spec_subst_props(pv, old(defs).deep_view()).0 == out.deep_view() + spec_subst_props(
                pv.skip(i as int),
                defs.deep_view(),
            ).0,
            spec_subst_props(pv, old(defs).deep_view()).1 == spec_subst_props(
                pv.skip(i as int),
                defs.deep_view(),
            ).1,
        decreases props.len() - i,
    {
        let ghost dv = defs.deep_view();
        let ghost out0 = out.deep_view();
        proof {
            assert(pv.skip(i as int)[0] == pv[i as int]);
            assert(pv.skip(i as int).drop_first() =~= pv.skip(i + 1));
            assert(pv[i as int] == (props@[i as int].0@, props@[i as int].1@));
        }
        let key = props[i].0.clone();
        let value = props[i].1.clone();
        if str_starts_with(key.as_str(), "--") {
            defs.push((key.clone(), value.clone()));
            out.push((key, value));
            proof {
                assert(defs.deep_view() =~= dv.push(pv[i as int]));
                assert(out.deep_view() =~= out0 + seq![pv[i as int]]);
                let rest = spec_subst_props(pv.skip(i + 1), dv.push(pv[i as int])).0;
                assert(out0 + (seq![pv[i as int]] + rest) =~= (out0 + seq![pv[i as int]]) + rest);
            }
        } else {
            let vn = value.as_str().unicode_len();
            let is_ref = str_starts_with(value.as_str(), "var(") && str_ends_with(
                value.as_str(),
                ")",
            ) && vn >= 5;
            proof {
                assert(is_ref == is_var_ref(pv[i as int].1));
            }
            let v2: String = if is_ref {
                let name = substr_trimmed(value.as_str(), 4, vn - 1);
                proof {
                    assert(name@ == var_ref_name(pv[i as int].1));
                }
                match defs_get(defs, name) {
                    Some(v) => v,
                    None => value,
                }
            } else {
                value
            };
            let ghost head = (pv[i as int].0, v2@);
            out.push((key, v2));
            proof {
                assert(out.deep_view() =~= out0 + seq![head]);
                assert(spec_subst_props(pv.skip(i as int), dv).0 == seq![head] + spec_subst_props(
                    pv.skip(i + 1),
                    dv,
                ).0);
                let rest = spec_subst_props(pv.skip(i + 1), dv).0;
                assert(out0 + (seq![head] + rest) =~= (out0 + seq![head]) + rest);
            }
        }
        i += 1;
    }
    proof {
        assert(pv.skip(i as int).len() == 0);
        assert(out.deep_view() + Seq::<(Seq<char>, Seq<char>)>::empty() =~= out.deep_view());
    }
    out
}

/// The substitution post-pass over whole rules, proved against
/// `spec_replace_vars`.
pub fn replace_vars(rules: Vec<Rule>) -> (r: Vec<Rule>)
    ensures
        r.deep_view() == spec_replace_vars(rules.deep_view()),
{
    let ghost rv = rules.deep_view();
    let mut out: Vec<Rule> = Vec::new();
    let mut defs: Vec<(String, String)> = Vec::new();
    let mut i: usize = 0;
    proof {
        assert(defs.deep_view() =~= Seq::<(Seq<char>, Seq<char>)>::empty());
        assert(rv.skip(0) =~= rv);
        assert(out.deep_view() + spec_replace_vars_from(rv, defs.deep_view())
            =~= spec_replace_vars_from(rv, defs.deep_view()));
    }
    while i < rules.len()
        invariant
            0 <= i <= rules.len(),
            rv == rules.deep_view(),
            spec_replace_vars(rv) == out.deep_view() + spec_replace_vars_from(
                rv.skip(i as int),
                defs.deep_view(),
            ),
        decreases rules.len() - i,
    {
        let ghost dv0 = defs.deep_view();
        let ghost out0 = out.deep_view();
        proof {
            assert(rv.skip(i as int)[0] == rv[i as int]);
            assert(rv.skip(i as int).drop_first() =~= rv.skip(i + 1));
            assert(rv[i as int] == rules@[i as int]@);
        }
        let props2 = subst_props(&rules[i].props, &mut defs);
        let mut sels: Vec<Selector> = Vec::new();
        let nsel = rules[i].selectors.len();
        let mut j: usize = 0;
        proof {
            assert(sels.deep_view() =~= rv[i as int].selectors.take(0));
        }
        while j < nsel
            invariant
                0 <= j <= nsel,
                i < rules.len(),
                nsel == rules@[i as int].selectors@.len(),
                sels.deep_view() == rv[i as int].selectors.take(j as int),
            decreases nsel - j,
        {
            sels.push(rules[i].selectors[j].clone());
            proof {
                assert(rv[i as int].selectors[j as int] == rules@[i as int].selectors@[j as int]@);
                assert(sels.deep_view() =~= rv[i as int].selectors.take(j + 1));
            }
            j += 1;
        }
        proof {
            assert(rv[i as int].selectors.take(j as int) =~= rv[i as int].selectors);
        }
        let rule2 = Rule { selectors: sels, props: props2 };
        let ghost head = RuleV {
            selectors: rv[i as int].selectors,
            props: spec_subst_props(rv[i as int].props, dv0).0,
        };
        out.push(rule2);
        proof {
            assert(rule2@ == head);
            assert(out.deep_view() =~= out0 + seq![head]);
            assert(spec_replace_vars_from(rv.skip(i as int), dv0) == seq![head]
                + spec_replace_vars_from(rv.skip(i + 1), defs.deep_view()));
            let rest = spec_replace_vars_from(rv.skip(i + 1), defs.deep_view());
            assert(out0 + (seq![head] + rest) =~= (out0 + seq![head]) + rest);
        }
        i += 1;
    }
    proof {
        assert(rv.skip(i as int).len() == 0);
        assert(out.deep_view() + Seq::<RuleV>::empty() =~= out.deep_view());
    }
    out
}

} // verus!
