//! The stylesheet and its query engine.
//!
//! A stylesheet is the ordered table of `(selector, declarations)` pairs
//! built from CSS text, plus the palette it was given. Querying matches
//! the stored selectors against the query text, folds the matches into
//! pseudo-class groups, and — when nothing matches — synthesizes
//! declarations from utility class names against the palette, memoizing
//! them as a new permanent entry so a repeated query takes the stored
//! path.

use vstd::prelude::*;

use crate::chars::{contains_seq, lower_seq, lower_string, split_whitespace_chars, split_ws,
    str_contains, str_starts_with};
use crate::color::{is_base_name, lookup_tone, base_name_contains, tone_get, Palette, PaletteV,
    Rgba};
use crate::declaration::{spec_from_pair, DeclV, Declaration};
use crate::lexer::{lemma_tokenize_wf, spec_tokenize, tokenize};
use crate::numbers::{find_char, find_char_exec, spec_parse_u64, parse_u64_str};
use crate::rules::{parse_rules, replace_vars, selector_from, spec_parse_rules, spec_pseudo_of,
    spec_replace_vars, spec_selector_from, tokens_wf, PseudoClass, Selector, SelectorV};
use crate::syntax::{analyze_tokens, spec_analyze};

verus! {

/// The declarations a property list produces, in order; pairs that fail
/// to type are silently dropped.
pub open spec fn spec_decls_of_props(props: Seq<(Seq<char>, Seq<char>)>, pal: PaletteV) -> Seq<
    DeclV,
>
    decreases props.len(),
{
    if props.len() == 0 {
        Seq::empty()
    } else {
        match spec_from_pair(props[0].0, props[0].1, pal) {
            Some(d) => seq![d] + spec_decls_of_props(props.drop_first(), pal),
            None => spec_decls_of_props(props.drop_first(), pal),
        }
    }
}

/// One rule flattened: each of its selectors paired with the same
/// declaration list.
pub open spec fn spec_flatten_rule(sels: Seq<SelectorV>, ds: Seq<DeclV>) -> Seq<
    (SelectorV, Seq<DeclV>),
>
    decreases sels.len(),
{
    if sels.len() == 0 {
        Seq::empty()
    } else {
        seq![(sels[0], ds)] + spec_flatten_rule(sels.drop_first(), ds)
    }
}

/// The whole sheet table: the selector × declarations cross product of
/// every rule, in source order.
pub open spec fn spec_flatten(rules: Seq<crate::rules::RuleV>, pal: PaletteV) -> Seq<
    (SelectorV, Seq<DeclV>),
>
    decreases rules.len(),
{
    if rules.len() == 0 {
        Seq::empty()
    } else {
        spec_flatten_rule(rules[0].selectors, spec_decls_of_props(rules[0].props, pal))
            + spec_flatten(rules.drop_first(), pal)
    }
}

/// The table a CSS text builds: empty when the analyzer finds structural
/// errors, else the flattened, variable-substituted rules.
pub open spec fn spec_sheet_of(input: Seq<char>, pal: PaletteV) -> Seq<(SelectorV, Seq<DeclV>)> {
    let ts = spec_tokenize(input);
    if spec_analyze(ts, input).len() > 0 {
        Seq::empty()
    } else {
        spec_flatten(spec_replace_vars(spec_parse_rules(ts, input)), pal)
    }
}

/// The containment match: a stored selector matches the query when some
/// whitespace-separated token of the query occurs inside the stored
/// selector text.
pub open spec fn spec_matches(sel: Seq<char>, q: Seq<char>) -> bool {
    exists|t: int|
        0 <= t < split_ws(q).len() && contains_seq(sel, #[trigger] split_ws(q)[t])
}

/// First group with this pseudo-class, or -1.
pub open spec fn find_group(
    groups: Seq<(Option<PseudoClass>, Seq<DeclV>)>,
    p: Option<PseudoClass>,
) -> int
    decreases groups.len(),
{
    if groups.len() == 0 {
        -1
    } else if groups[0].0 == p {
        0
    } else {
        let r = find_group(groups.drop_first(), p);
        if r == -1 {
            -1
        } else {
            r + 1
        }
    }
}

pub proof fn lemma_find_group(groups: Seq<(Option<PseudoClass>, Seq<DeclV>)>, p: Option<
    PseudoClass,
>)
    ensures
        find_group(groups, p) == -1 ==> forall|j: int|
            0 <= j < groups.len() ==> (#[trigger] groups[j]).0 != p,
        find_group(groups, p) != -1 ==> 0 <= find_group(groups, p) < groups.len() && groups[
            find_group(groups, p)
        ].0 == p && forall|j: int| 0 <= j < find_group(groups, p) ==> (#[trigger] groups[j]).0 != p,
    decreases groups.len(),
{
    if groups.len() == 0 {
    } else if groups[0].0 == p {
    } else {
        lemma_find_group(groups.drop_first(), p);
        let r = find_group(groups.drop_first(), p);
        if r == -1 {
            assert forall|j: int| 0 <= j < groups.len() implies (#[trigger] groups[j]).0 != p by {
                if j >= 1 {
                    assert(groups[j] == groups.drop_first()[j - 1]);
                }
            }
        } else {
            assert(groups[r + 1] == groups.drop_first()[r]);
            assert forall|j: int| 0 <= j < r + 1 implies (#[trigger] groups[j]).0 != p by {
                if j >= 1 {
                    assert(groups[j] == groups.drop_first()[j - 1]);
                }
            }
        }
    }
}

/// Merges one matching rule into the groups: extend the group with the
/// same pseudo-class, or open a new one at the end.
pub open spec fn groups_insert(
    acc: Seq<(Option<PseudoClass>, Seq<DeclV>)>,
    p: Option<PseudoClass>,
    ds: Seq<DeclV>,
) -> Seq<(Option<PseudoClass>, Seq<DeclV>)> {
    let i = find_group(acc, p);
    if i == -1 {
        acc.push((p, ds))
    } else {
        acc.update(i, (p, acc[i].1 + ds))
    }
}

/// The fold of the matching rules into pseudo-class groups, in table
/// order, starting from `acc`.
pub open spec fn spec_groups_acc(
    rules: Seq<(SelectorV, Seq<DeclV>)>,
    q: Seq<char>,
    acc: Seq<(Option<PseudoClass>, Seq<DeclV>)>,
) -> Seq<(Option<PseudoClass>, Seq<DeclV>)>
    decreases rules.len(),
{
    if rules.len() == 0 {
        acc
    } else {
        spec_groups_acc(
            rules.drop_first(),
            q,
            if spec_matches(rules[0].0.selector, q) {
                groups_insert(acc, rules[0].0.pseudo_class, rules[0].1)
            } else {
                acc
            },
        )
    }
}

/// The grouped declarations the stored table yields for a query.
pub open spec fn spec_query_groups(rules: Seq<(SelectorV, Seq<DeclV>)>, q: Seq<char>) -> Seq<
    (Option<PseudoClass>, Seq<DeclV>),
> {
    spec_groups_acc(rules, q, Seq::empty())
}

/// The color a dashed-prefix utility class resolves to: the class must
/// read `<prefix><name>-<tone>` with the rest lowercased, a known base
/// name, and a tone stored in the palette.
pub open spec fn spec_synth_prefix(class: Seq<char>, pfx: Seq<char>, pal: PaletteV) -> Option<
    Rgba,
> {
    if crate::chars::starts_with_seq(class, pfx) {
        let rest = lower_seq(class.subrange(pfx.len() as int, class.len() as int));
        let d = find_char(rest, '-', 0);
        if d < rest.len() {
            let name = rest.subrange(0, d);
            let tone_str = rest.subrange(d + 1, rest.len() as int);
            if is_base_name(pal.base_names, name) {
                match spec_parse_u64(tone_str) {
                    Some(t) => lookup_tone(pal.entries, name, t),
                    None => None,
                }
            } else {
                None
            }
        } else {
            None
        }
    } else {
        None
    }
}

/// The declarations one query token synthesizes: a `.`-class is tried
/// against each color-property prefix in turn.
pub open spec fn spec_synth_token(tok: Seq<char>, pal: PaletteV) -> Seq<DeclV> {
    if tok.len() == 0 || tok[0] != '.' {
        Seq::empty()
    } else {
        let class = tok.subrange(1, tok.len() as int);
        (match spec_synth_prefix(class, "bg-"@, pal) {
            Some(c) => seq![DeclV::BackgroundColor(c)],
            None => Seq::empty(),
        }) + (match spec_synth_prefix(class, "text-"@, pal) {
            Some(c) => seq![DeclV::Color(c)],
            None => Seq::empty(),
        }) + (match spec_synth_prefix(class, "border-"@, pal) {
            Some(c) => seq![DeclV::BorderColor(c)],
            None => Seq::empty(),
        }) + (match spec_synth_prefix(class, "outline-"@, pal) {
            Some(c) => seq![DeclV::OutlineColor(c)],
            None => Seq::empty(),
        })
    }
}

pub open spec fn spec_synth_tokens(toks: Seq<Seq<char>>, pal: PaletteV) -> Seq<DeclV>
    decreases toks.len(),
{
    if toks.len() == 0 {
        Seq::empty()
    } else {
        spec_synth_token(toks[0], pal) + spec_synth_tokens(toks.drop_first(), pal)
    }
}

/// Everything a whole query synthesizes from the palette.
pub open spec fn spec_synth(q: Seq<char>, pal: PaletteV) -> Seq<DeclV> {
    spec_synth_tokens(split_ws(q), pal)
}

/// What one query does to a sheet: the new table and the returned
/// groups. A non-empty match leaves the table alone; an empty match with
/// a non-empty synthesis appends one memoized entry under the query's own
/// selector and returns just that group.
pub open spec fn spec_get_styles(
    rules: Seq<(SelectorV, Seq<DeclV>)>,
    pal: PaletteV,
    q: Seq<char>,
) -> (Seq<(SelectorV, Seq<DeclV>)>, Seq<(Option<PseudoClass>, Seq<DeclV>)>) {
    let base = spec_query_groups(rules, q);
    if base.len() > 0 {
        (rules, base)
    } else {
        let g = spec_synth(q, pal);
        if g.len() == 0 {
            (rules, base)
        } else {
            (rules.push((spec_selector_from(q), g)), seq![(spec_pseudo_of(q), g)])
        }
    }
}

/// A CSS stylesheet: parsed rules flattened into an insertion-ordered
/// table, and the palette used for color parsing and synthesis.
#[derive(Debug)]
pub struct StyleSheet {
    pub rules: Vec<(Selector, Vec<Declaration>)>,
    pub palette: Palette,
}

impl StyleSheet {
    /// The stored table, as its mathematical shadow.
    pub open spec fn rules_view(&self) -> Seq<(SelectorV, Seq<DeclV>)> {
        self.rules.deep_view()
    }

    /// An empty sheet with an empty palette.
    pub fn new_const() -> (r: Self)
        ensures
            r.rules_view() == Seq::<(SelectorV, Seq<DeclV>)>::empty(),
            r.palette@.named.len() == 0,
            r.palette@.entries.len() == 0,
            r.palette@.base_names.len() == 0,
    {
        let r = StyleSheet { rules: Vec::new(), palette: Palette::empty() };
        proof {
            assert(r.rules_view() =~= Seq::<(SelectorV, Seq<DeclV>)>::empty());
        }
        r
    }

    /// Builds a sheet from CSS text with an empty palette.
    pub fn from_css(input: &str) -> (r: Self)
        ensures
            r.rules_view() == spec_sheet_of(input@, r.palette@),
            r.palette@.named.len() == 0,
            r.palette@.entries.len() == 0,
            r.palette@.base_names.len() == 0,
    {
        Self::from_css_with_palette(input, Palette::empty())
    }

    /// Builds a sheet from CSS text and the palette the embedding
    /// application supplies: the full lexer → analyzer → parser →
    /// substitution → typing pipeline, flattened into the table. A text
    /// with structural errors yields an empty table.
    pub fn from_css_with_palette(input: &str, palette: Palette) -> (r: Self)
        ensures
            r.rules_view() == spec_sheet_of(input@, palette@),
            r.palette == palette,
    {
        let ts = tokenize(input);
        proof {
            lemma_tokenize_wf(input@, 0);
            assert(tokens_wf(ts.deep_view(), input@));
        }
        let errors = analyze_tokens(&ts, input);
        if errors.len() > 0 {
            let r = StyleSheet { rules: Vec::new(), palette };
            proof {
                assert(r.rules_view() =~= spec_sheet_of(input@, palette@));
            }
            return r;
        }
        let parsed = replace_vars(parse_rules(&ts, input));
        let tbl = flatten_rules(&parsed, &palette);
        StyleSheet { rules: tbl, palette }
    }

    /// How many entries the table holds.
    pub fn rules_len(&self) -> (n: usize)
        ensures
            n == self.rules_view().len(),
    {
        self.rules.len()
    }

    /// Resolves a query: every stored selector containing a token of the
    /// query contributes its declarations, folded into one group per
    /// pseudo-class in match order. When nothing matches, utility-class
    /// synthesis runs against the palette and a non-empty result is
    /// memoized as a new stored entry keyed by the query itself.
    pub fn get_styles(&mut self, query: &str) -> (r: Vec<(Option<PseudoClass>, Vec<Declaration>)>)
        ensures
            final(self).rules_view() == spec_get_styles(
                old(self).rules_view(),
                old(self).palette@,
                query@,
            ).0,
            r.deep_view() == spec_get_styles(old(self).rules_view(), old(self).palette@, query@).1,
            final(self).palette == old(self).palette,
    {
        let ghost rv = old(self).rules_view();
        let ghost palv = old(self).palette@;
        let toks = split_whitespace_chars(query);
        let mut found: Vec<(Option<PseudoClass>, Vec<Declaration>)> = Vec::new();
        let nr = self.rules.len();
        let mut i: usize = 0;
        proof {
            assert(rv.skip(0) =~= rv);
            assert(found.deep_view() =~= Seq::<(Option<PseudoClass>, Seq<DeclV>)>::empty());
        }
        while i < nr
            invariant
                0 <= i <= nr,
                nr == self.rules.len(),
                *self == *old(self),
                rv == self.rules_view(),
                toks.deep_view() == split_ws(query@),
                spec_query_groups(rv, query@) == spec_groups_acc(
                    rv.skip(i as int),
                    query@,
                    found.deep_view(),
                ),
            decreases nr - i,
        {
            proof {
                assert(rv.skip(i as int)[0] == rv[i as int]);
                assert(rv.skip(i as int).drop_first() =~= rv.skip(i + 1));
                assert(rv[i as int] == (self.rules@[i as int].0@, self.rules@[
                    i as int
                ].1.deep_view()));
            }
            if matches_query(self.rules[i].0.selector.as_str(), &toks) {
                let p = self.rules[i].0.pseudo_class;
                let ghost accv = found.deep_view();
                proof {
                    lemma_find_group(accv, p);
                }
                // find the group with this pseudo-class, if any
                let nf = found.len();
                let mut f: usize = 0;
                let mut hit = nf;
                while f < nf
                    invariant
                        0 <= f <= nf,
                        nf == found.len(),
                        hit == nf,
                        accv == found.deep_view(),
                        forall|j: int| 0 <= j < f ==> (#[trigger] accv[j]).0 != p,
                    decreases nf - f,
                {
                    proof {
                        assert(accv[f as int] == (found@[f as int].0.deep_view(), found@[
                            f as int
                        ].1.deep_view()));
                        assert(accv[f as int].0 == found@[f as int].0);
                    }
                    if pseudo_eq(&found[f].0, &p) {
                        hit = f;
                        break ;
                    }
                    f += 1;
                }
                if hit == nf {
                    // no group yet: open a new one
                    proof {
                        assert(find_group(accv, p) == -1);
                    }
                    let ds = clone_decls(&self.rules[i].1);
                    found.push((p, ds));
                    proof {
                        assert(found.deep_view() =~= accv.push((p, rv[i as int].1)));
                    }
                } else {
                    proof {
                        assert(accv[hit as int].0 == p);
                        assert(find_group(accv, p) == hit);
                    }
                    let (p0, mut ds) = found.remove(hit);
                    let ghost ds0 = ds.deep_view();
                    let mut src = clone_decls(&self.rules[i].1);
                    ds.append(&mut src);
                    proof {
                        assert(ds.deep_view() =~= ds0 + rv[i as int].1);
                    }
                    found.insert(hit, (p0, ds));
                    proof {
                        assert(found.deep_view() =~= accv.update(
                            hit as int,
                            (p, accv[hit as int].1 + rv[i as int].1),
                        ));
                    }
                }
            }
            i += 1;
        }
        proof {
            assert(rv.skip(i as int).len() == 0);
        }
        if found.len() > 0 {
            return found;
        }
        proof {
            assert(spec_query_groups(rv, query@).len() == 0);
        }
        // nothing stored matched: try utility-class synthesis
        let mut gen: Vec<Declaration> = Vec::new();
        let ghost tv = toks.deep_view();
        let nt = toks.len();
        let mut t: usize = 0;
        proof {
            assert(tv.skip(0) =~= tv);
            assert(gen.deep_view() + spec_synth(query@, palv) =~= spec_synth(query@, palv));
        }
        while t < nt
            invariant
                0 <= t <= nt,
                nt == toks.len(),
                *self == *old(self),
                tv == toks.deep_view(),
                tv == split_ws(query@),
                spec_synth(query@, palv) == gen.deep_view() + spec_synth_tokens(
                    tv.skip(t as int),
                    palv,
                ),
            decreases nt - t,
        {
            proof {
                assert(tv.skip(t as int)[0] == tv[t as int]);
                assert(tv.skip(t as int).drop_first() =~= tv.skip(t + 1));
                assert(tv[t as int] == toks@[t as int]@);
            }
            let ghost gen0 = gen.deep_view();
            synth_token(toks[t], &self.palette, &mut gen);
            proof {
                let rest = spec_synth_tokens(tv.skip(t + 1), palv);
                assert(gen0 + (spec_synth_token(tv[t as int], palv) + rest) =~= (gen0
                    + spec_synth_token(tv[t as int], palv)) + rest);
            }
            t += 1;
        }
        proof {
            assert(tv.skip(t as int).len() == 0);
            assert(gen.deep_view() + Seq::<DeclV>::empty() =~= gen.deep_view());
            assert(gen.deep_view() == spec_synth(query@, palv));
        }
        if gen.len() > 0 {
            let sel = selector_from(query);
            let ghost selv = sel@;
            let p = sel.pseudo_class;
            let stored = clone_decls(&gen);
            self.rules.push((sel, stored));
            found.push((p, gen));
            proof {
                assert(self.rules_view() =~= rv.push((selv, spec_synth(query@, palv))));
                assert(found.deep_view() =~= seq![
                    (spec_pseudo_of(query@), spec_synth(query@, palv)),
                ]);
            }
        }
        found
    }
}

/// Types one rule's properties in order, proved against
/// `spec_decls_of_props`.
fn decls_of_props(props: &Vec<(String, String)>, palette: &Palette) -> (r: Vec<Declaration>)
    ensures
        r.deep_view() == spec_decls_of_props(props.deep_view(), palette@),
{
    let ghost pv = props.deep_view();
    let mut decls: Vec<Declaration> = Vec::new();
    let mut j: usize = 0;
    proof {
        assert(pv.skip(0) =~= pv);
        assert(decls.deep_view() + spec_decls_of_props(pv, palette@) =~= spec_decls_of_props(
            pv,
            palette@,
        ));
    }
    while j < props.len()
        invariant
            0 <= j <= props.len(),
            pv == props.deep_view(),
            spec_decls_of_props(pv, palette@) == decls.deep_view() + spec_decls_of_props(
                pv.skip(j as int),
                palette@,
            ),
        decreases props.len() - j,
    {
        proof {
            assert(pv.skip(j as int)[0] == pv[j as int]);
            assert(pv.skip(j as int).drop_first() =~= pv.skip(j + 1));
            assert(pv[j as int] == (props@[j as int].0@, props@[j as int].1@));
        }
        match Declaration::from_pair(props[j].0.as_str(), props[j].1.as_str(), palette) {
            Some(d) => {
                let ghost d0 = d@;
                decls.push(d);
                proof {
                    assert(decls.deep_view() =~= decls.deep_view().drop_last().push(d0));
                    let rest = spec_decls_of_props(pv.skip(j + 1), palette@);
                    assert(decls.deep_view().drop_last() + (seq![d0] + rest) =~= decls.deep_view()
                        + rest);
                }
            },
            None => {
            },
        }
        j += 1;
    }
    proof {
        assert(pv.skip(j as int).len() == 0);
        assert(decls.deep_view() + Seq::<DeclV>::empty() =~= decls.deep_view());
    }
    decls
}

/// Flattens parsed rules into the sheet table, proved against
/// `spec_flatten`.
fn flatten_rules(parsed: &Vec<crate::rules::Rule>, palette: &Palette) -> (r: Vec<
    (Selector, Vec<Declaration>),
>)
    ensures
        r.deep_view() == spec_flatten(parsed.deep_view(), palette@),
{
    let ghost rv = parsed.deep_view();
    let mut tbl: Vec<(Selector, Vec<Declaration>)> = Vec::new();
    let mut i: usize = 0;
    proof {
        assert(rv.skip(0) =~= rv);
        assert(tbl.deep_view() + spec_flatten(rv, palette@) =~= spec_flatten(rv, palette@));
    }
    while i < parsed.len()
        invariant
            0 <= i <= parsed.len(),
            rv == parsed.deep_view(),
            spec_flatten(rv, palette@) == tbl.deep_view() + spec_flatten(
                rv.skip(i as int),
                palette@,
            ),
        decreases parsed.len() - i,
    {
        proof {
            assert(rv.skip(i as int)[0] == rv[i as int]);
            assert(rv.skip(i as int).drop_first() =~= rv.skip(i + 1));
            assert(rv[i as int] == parsed@[i as int]@);
        }
        let ghost dspec = spec_decls_of_props(rv[i as int].props, palette@);
        let decls = decls_of_props(&parsed[i].props, palette);
        let nsels = parsed[i].selectors.len();
        let mut k: usize = 0;
        let ghost sv = rv[i as int].selectors;
        let ghost tbl0 = tbl.deep_view();
        proof {
            assert(sv.take(0) =~= Seq::<SelectorV>::empty());
            assert(spec_flatten_rule(sv.take(0), dspec) == Seq::<(SelectorV, Seq<DeclV>)>::empty());
            assert(tbl.deep_view() =~= tbl0 + spec_flatten_rule(sv.take(0), dspec));
        }
        while k < nsels
            invariant
                0 <= k <= nsels,
                i < parsed.len(),
                nsels == parsed@[i as int].selectors@.len(),
                sv == rv[i as int].selectors,
                rv == parsed.deep_view(),
                decls.deep_view() == dspec,
                tbl.deep_view() == tbl0 + spec_flatten_rule(sv.take(k as int), dspec),
            decreases nsels - k,
        {
            let sel = parsed[i].selectors[k].clone();
            let ds = clone_decls(&decls);
            let ghost elt = (sv[k as int], dspec);
            tbl.push((sel, ds));
            proof {
                assert(sv[k as int] == parsed@[i as int].selectors@[k as int]@);
                assert(tbl.deep_view() =~= (tbl0 + spec_flatten_rule(sv.take(k as int), dspec))
                    .push(elt));
                lemma_flatten_rule_push(sv, dspec, k as int);
            }
            k += 1;
        }
        proof {
            assert(sv.take(k as int) =~= sv);
            let rest = spec_flatten(rv.skip(i + 1), palette@);
            assert(spec_flatten(rv.skip(i as int), palette@) == spec_flatten_rule(sv, dspec)
                + rest);
            assert(tbl0 + (spec_flatten_rule(sv, dspec) + rest) =~= (tbl0 + spec_flatten_rule(
                sv,
                dspec,
            )) + rest);
        }
        i += 1;
    }
    proof {
        assert(rv.skip(i as int).len() == 0);
        assert(tbl.deep_view() + Seq::<(SelectorV, Seq<DeclV>)>::empty() =~= tbl.deep_view());
    }
    tbl
}

/// `spec_flatten_rule` over a longer prefix is the shorter prefix plus
/// one more pair.
proof fn lemma_flatten_rule_push(sels: Seq<SelectorV>, ds: Seq<DeclV>, k: int)
    requires
        0 <= k < sels.len(),
    ensures
        spec_flatten_rule(sels.take(k + 1), ds) == spec_flatten_rule(sels.take(k), ds).push(
            (sels[k], ds),
        ),
    decreases k,
{
    let a = sels.take(k + 1);
    let b = sels.take(k);
    if k == 0 {
        assert(a[0] == sels[0]);
        assert(a.drop_first() =~= Seq::<SelectorV>::empty());
        assert(spec_flatten_rule(Seq::<SelectorV>::empty(), ds) == Seq::<(
            SelectorV,
            Seq<DeclV>,
        )>::empty());
        assert(spec_flatten_rule(b, ds) == Seq::<(SelectorV, Seq<DeclV>)>::empty());
        assert(spec_flatten_rule(a, ds) =~= spec_flatten_rule(b, ds).push((sels[0], ds)));
    } else {
        lemma_flatten_rule_push(sels.drop_first(), ds, k - 1);
        assert(a.drop_first() =~= sels.drop_first().take(k));
        assert(b.drop_first() =~= sels.drop_first().take(k - 1));
        assert(a[0] == sels[0]);
        assert(sels.drop_first()[k - 1] == sels[k]);
        assert(spec_flatten_rule(a, ds) == seq![(sels[0], ds)] + spec_flatten_rule(
            sels.drop_first().take(k),
            ds,
        ));
        assert(spec_flatten_rule(b, ds).push((sels[k], ds)) =~= seq![(sels[0], ds)]
            + spec_flatten_rule(sels.drop_first().take(k - 1), ds).push((sels[k], ds)));
    }
}

/// An exact copy of a declaration list.
fn clone_decls(v: &Vec<Declaration>) -> (r: Vec<Declaration>)
    ensures
        r@ == v@,
        r.deep_view() == v.deep_view(),
{
    let mut r: Vec<Declaration> = Vec::new();
    let mut i: usize = 0;
    while i < v.len()
        invariant
            0 <= i <= v.len(),
            r@ =~= v@.take(i as int),
        decreases v.len() - i,
    {
        r.push(v[i].clone());
        proof {
            assert(r@ =~= v@.take(i + 1));
        }
        i += 1;
    }
    proof {
        assert(r@ =~= v@);
    }
    r
}

/// Equality of optional pseudo-classes.
fn pseudo_eq(a: &Option<PseudoClass>, b: &Option<PseudoClass>) -> (r: bool)
    ensures
        r == (*a == *b),
{
    match (a, b) {
        (None, None) => true,
        (Some(x), Some(y)) => *x == *y,
        _ => false,
    }
}

/// Whether any token of the query occurs inside the selector text.
fn matches_query(sel: &str, toks: &Vec<&str>) -> (r: bool)
    ensures
        r == exists|t: int|
            0 <= t < toks.deep_view().len() && contains_seq(
                sel@,
                #[trigger] toks.deep_view()[t],
            ),
{
    let ghost tv = toks.deep_view();
    let mut t: usize = 0;
    while t < toks.len()
        invariant
            0 <= t <= toks.len(),
            tv == toks.deep_view(),
            forall|j: int| 0 <= j < t ==> !contains_seq(sel@, #[trigger] tv[j]),
        decreases toks.len() - t,
    {
        proof {
            assert(tv[t as int] == toks@[t as int]@);
        }
        if str_contains(sel, toks[t]) {
            return true;
        }
        t += 1;
    }
    false
}

/// One prefix of one class token, resolved against the palette.
fn synth_prefix(class: &str, pfx: &str, palette: &Palette) -> (r: Option<Rgba>)
    ensures
        r == spec_synth_prefix(class@, pfx@, palette@),
{
    if !str_starts_with(class, pfx) {
        return None;
    }
    let pn = pfx.unicode_len();
    let cn = class.unicode_len();
    let rest_raw = class.substring_char(pn, cn);
    let rest = lower_string(rest_raw);
    let ghost restv = lower_seq(class@.subrange(pfx@.len() as int, class@.len() as int));
    let rn = rest.as_str().unicode_len();
    let d = find_char_exec(rest.as_str(), '-', 0);
    if d >= rn {
        return None;
    }
    let name = rest.as_str().substring_char(0, d);
    let tone_str = rest.as_str().substring_char(d + 1, rn);
    if !base_name_contains(palette, name) {
        return None;
    }
    match parse_u64_str(tone_str) {
        Some(t) => tone_get(palette, name, t),
        None => None,
    }
}

/// The declarations one query token synthesizes, appended to `gen`.
fn synth_token(tok: &str, palette: &Palette, gen: &mut Vec<Declaration>)
    ensures
        final(gen).deep_view() == old(gen).deep_view() + spec_synth_token(tok@, palette@),
{
    let ghost g0 = old(gen).deep_view();
    let n = tok.unicode_len();
    if n == 0 || tok.get_char(0) != '.' {
        proof {
            assert(g0 + spec_synth_token(tok@, palette@) =~= g0);
        }
        return ;
    }
    let class = tok.substring_char(1, n);
    match synth_prefix(class, "bg-", palette) {
        Some(c) => {
            gen.push(Declaration::BackgroundColor(c));
        },
        None => {
        },
    }
    match synth_prefix(class, "text-", palette) {
        Some(c) => {
            gen.push(Declaration::Color(c));
        },
        None => {
        },
    }
    match synth_prefix(class, "border-", palette) {
        Some(c) => {
            gen.push(Declaration::BorderColor(c));
        },
        None => {
        },
    }
    match synth_prefix(class, "outline-", palette) {
        Some(c) => {
            gen.push(Declaration::OutlineColor(c));
        },
        None => {
        },
    }
    proof {
        assert(gen.deep_view() =~= g0 + spec_synth_token(tok@, palette@));
    }
}

} // verus!
