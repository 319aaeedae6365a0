//! The tokenizer.
//!
//! CSS text becomes a sequence of positioned tokens: braces, colons,
//! semicolons and commas as punctuation; maximal runs of identifier
//! characters (which cover selectors, property names, keywords, and
//! numbers with their unit suffixes) as identifiers; any other character
//! as a one-character token. Whitespace and `/* ... */` comments are
//! boundaries and produce no token. Tokens carry character positions into
//! the source, so later stages can recover exact slices.

use vstd::prelude::*;

use crate::chars::{ident_char, is_ident_char, is_ws, ws};

verus! {

#[derive(Debug, Clone, Copy, PartialEq, Eq, Structural)]
pub enum TokenKind {
    LBrace,
    RBrace,
    Colon,
    Semicolon,
    Comma,
    Ident,
    Other,
}

/// A token: its kind and the character span `[start, end)` it occupies in
/// the source text.
#[derive(Debug, Clone, Copy, PartialEq, Eq, Structural)]
pub struct Token {
    pub kind: TokenKind,
    pub start: usize,
    pub end: usize,
}

/// The mathematical shadow of `Token`, with unbounded positions.
pub ghost struct TokenV {
    pub kind: TokenKind,
    pub start: int,
    pub end: int,
}

impl View for Token {
    type V = TokenV;

    open spec fn view(&self) -> TokenV {
        TokenV { kind: self.kind, start: self.start as int, end: self.end as int }
    }
}

impl DeepView for Token {
    type V = TokenV;

    open spec fn deep_view(&self) -> TokenV {
        self.view()
    }
}

/// First index at or after `i` whose character is not an identifier
/// character, or the length of `s`.
pub open spec fn ident_end(s: Seq<char>, i: int) -> int
    decreases s.len() - i,
{
    if i < 0 || i >= s.len() {
        s.len() as int
    } else if !is_ident_char(s[i]) {
        i
    } else {
        ident_end(s, i + 1)
    }
}

pub proof fn lemma_ident_end_bounds(s: Seq<char>, i: int)
    requires
        0 <= i <= s.len(),
    ensures
        i <= ident_end(s, i) <= s.len(),
    decreases s.len() - i,
{
    if i < s.len() && is_ident_char(s[i]) {
        lemma_ident_end_bounds(s, i + 1);
    }
}

/// One past the first `*/` whose `/` sits at or after `j`, or the length
/// of `s` when the comment never closes.
pub open spec fn comment_close(s: Seq<char>, j: int) -> int
    decreases s.len() - j,
{
    if j < 1 || j >= s.len() {
        s.len() as int
    } else if s[j - 1] == '*' && s[j] == '/' {
        j + 1
    } else {
        comment_close(s, j + 1)
    }
}

pub proof fn lemma_comment_close_bounds(s: Seq<char>, j: int)
    requires
        1 <= j,
    ensures
        comment_close(s, j) <= s.len(),
        j <= s.len() ==> j <= comment_close(s, j),
        j > s.len() ==> comment_close(s, j) == s.len(),
    decreases s.len() - j,
{
    if 1 <= j < s.len() && !(s[j - 1] == '*' && s[j] == '/') {
        lemma_comment_close_bounds(s, j + 1);
    }
}

pub open spec fn is_punct(c: char) -> bool {
    c == '{' || c == '}' || c == ':' || c == ';' || c == ','
}

pub open spec fn punct_token_kind(c: char) -> TokenKind {
    if c == '{' {
        TokenKind::LBrace
    } else if c == '}' {
        TokenKind::RBrace
    } else if c == ':' {
        TokenKind::Colon
    } else if c == ';' {
        TokenKind::Semicolon
    } else {
        TokenKind::Comma
    }
}

/// The token sequence of `s[i..]`.
pub open spec fn spec_tokenize_from(s: Seq<char>, i: int) -> Seq<TokenV>
    decreases s.len() - i,
    via spec_tokenize_from_decreases
{
    if i < 0 || i >= s.len() {
        Seq::empty()
    } else if is_ws(s[i]) {
        spec_tokenize_from(s, i + 1)
    } else if s[i] == '/' && i + 1 < s.len() && s[i + 1] == '*' {
        spec_tokenize_from(s, comment_close(s, i + 3))
    } else if is_punct(s[i]) {
        seq![TokenV { kind: punct_token_kind(s[i]), start: i, end: i + 1 }] + spec_tokenize_from(
            s,
            i + 1,
        )
    } else if is_ident_char(s[i]) {
        let j = ident_end(s, i + 1);
        seq![TokenV { kind: TokenKind::Ident, start: i, end: j }] + spec_tokenize_from(s, j)
    } else {
        seq![TokenV { kind: TokenKind::Other, start: i, end: i + 1 }] + spec_tokenize_from(
            s,
            i + 1,
        )
    }
}

#[via_fn]
proof fn spec_tokenize_from_decreases(s: Seq<char>, i: int) {
    if 0 <= i < s.len() {
        if s[i] == '/' && i + 1 < s.len() && s[i + 1] == '*' {
            lemma_comment_close_bounds(s, i + 3);
        }
        if is_ident_char(s[i]) {
            lemma_ident_end_bounds(s, i + 1);
        }
    }
}

pub open spec fn spec_tokenize(s: Seq<char>) -> Seq<TokenV> {
    spec_tokenize_from(s, 0)
}

/// Every token spans a non-empty range inside `[i, s.len())`, and tokens
/// never overlap and never move backwards.
pub proof fn lemma_tokenize_wf(s: Seq<char>, i: int)
    requires
        0 <= i <= s.len(),
    ensures
        forall|k: int|
            0 <= k < spec_tokenize_from(s, i).len() ==> i <= (#[trigger] spec_tokenize_from(
                s,
                i,
            )[k]).start < spec_tokenize_from(s, i)[k].end <= s.len(),
        forall|a: int, b: int|
            #![trigger spec_tokenize_from(s, i)[a], spec_tokenize_from(s, i)[b]]
            0 <= a < b < spec_tokenize_from(s, i).len() ==> spec_tokenize_from(s, i)[a].end
                <= spec_tokenize_from(s, i)[b].start,
    decreases s.len() - i,
{
    let ts = spec_tokenize_from(s, i);
    if i >= s.len() {
    } else if is_ws(s[i]) {
        lemma_tokenize_wf(s, i + 1);
    } else if s[i] == '/' && i + 1 < s.len() && s[i + 1] == '*' {
        lemma_comment_close_bounds(s, i + 3);
        lemma_tokenize_wf(s, comment_close(s, i + 3));
    } else {
        let (tok, j): (TokenV, int) = if is_punct(s[i]) {
            (TokenV { kind: punct_token_kind(s[i]), start: i, end: i + 1 }, i + 1)
        } else if is_ident_char(s[i]) {
            (TokenV { kind: TokenKind::Ident, start: i, end: ident_end(s, i + 1) }, ident_end(
                s,
                i + 1,
            ))
        } else {
            (TokenV { kind: TokenKind::Other, start: i, end: i + 1 }, i + 1)
        };
        if is_ident_char(s[i]) && !is_punct(s[i]) {
            lemma_ident_end_bounds(s, i + 1);
        }
        lemma_tokenize_wf(s, j);
        let rest = spec_tokenize_from(s, j);
        assert(ts =~= seq![tok] + rest);
        assert forall|k: int| 0 <= k < ts.len() implies i <= (#[trigger] ts[k]).start < ts[k].end
            <= s.len() by {
            if k > 0 {
                assert(ts[k] == rest[k - 1]);
            }
        }
        assert forall|a: int, b: int| 0 <= a < b < ts.len() implies (#[trigger] ts[a]).end
            <= (#[trigger] ts[b]).start by {
            assert(ts[b] == rest[b - 1]);
            if a > 0 {
                assert(ts[a] == rest[a - 1]);
            }
        }
    }
}

fn ident_end_exec(s: &str, i: usize) -> (j: usize)
    requires
        i <= s@.len(),
    ensures
        j == ident_end(s@, i as int),
        i <= j <= s@.len(),
{
    let n = s.unicode_len();
    let mut j = i;
    while j < n && ident_char(s.get_char(j))
        invariant
            i <= j <= n,
            ident_end(s@, i as int) == ident_end(s@, j as int),
        decreases n - j,
    {
        j += 1;
    }
    j
}

/// The close of a comment whose `/*` opener starts at `i`.
fn comment_close_exec(s: &str, i: usize) -> (r: usize)
    requires
        i < s@.len(),
    ensures
        r == comment_close(s@, i + 3),
        r <= s@.len(),
{
    let n = s.unicode_len();
    if n - i <= 3 {
        return n;
    }
    let j = i + 3;
    let ghost j0 = j as int;
    let mut j = j;
    while j < n && !(s.get_char(j - 1) == '*' && s.get_char(j) == '/')
        invariant
            1 <= j <= n,
            comment_close(s@, j0) == comment_close(s@, j as int),
        decreases n - j,
    {
        j += 1;
    }
    if j < n {
        j + 1
    } else {
        n
    }
}

/// Tokenizes `s`, proved against `spec_tokenize`.
pub fn tokenize(s: &str) -> (r: Vec<Token>)
    ensures
        r.deep_view() == spec_tokenize(s@),
{
    let n = s.unicode_len();
    let mut r: Vec<Token> = Vec::new();
    let mut i: usize = 0;
    while i < n
        invariant
            0 <= i <= n,
            n == s@.len(),
            spec_tokenize(s@) == r.deep_view() + spec_tokenize_from(s@, i as int),
        decreases n - i,
    {
        let c = s.get_char(i);
        if ws(c) {
            i += 1;
        } else if c == '/' && i + 1 < n && s.get_char(i + 1) == '*' {
            let close = comment_close_exec(s, i);
            proof {
                lemma_comment_close_bounds(s@, i + 3);
                assert(close > i);
            }
            i = close;
        } else {
            let (kind, end): (TokenKind, usize) = if c == '{' {
                (TokenKind::LBrace, i + 1)
            } else if c == '}' {
                (TokenKind::RBrace, i + 1)
            } else if c == ':' {
                (TokenKind::Colon, i + 1)
            } else if c == ';' {
                (TokenKind::Semicolon, i + 1)
            } else if c == ',' {
                (TokenKind::Comma, i + 1)
            } else if ident_char(c) {
                (TokenKind::Ident, ident_end_exec(s, i + 1))
            } else {
                (TokenKind::Other, i + 1)
            };
            let tok = Token { kind, start: i, end };
            let ghost prev = r.deep_view();
            r.push(tok);
            proof {
                assert(r.deep_view() =~= prev + seq![tok@]);
                assert(spec_tokenize_from(s@, i as int) == seq![tok@] + spec_tokenize_from(
                    s@,
                    end as int,
                ));
                assert(prev + (seq![tok@] + spec_tokenize_from(s@, end as int)) =~= (prev
                    + seq![tok@]) + spec_tokenize_from(s@, end as int));
            }
            i = end;
        }
    }
    proof {
        assert(spec_tokenize_from(s@, i as int) =~= Seq::<TokenV>::empty());
        assert(spec_tokenize(s@) =~= r.deep_view());
    }
    r
}

} // verus!
