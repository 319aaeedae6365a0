//! Engine-wide laws, stated and proved over the same spec functions the
//! public contracts use.

use vstd::prelude::*;

use crate::chars::{contains_seq, lemma_split_tokens_contained, split_ws};
use crate::color::PaletteV;
use crate::declaration::{spec_from_pair, DeclV};
use crate::rules::{spec_pseudo_of, spec_selector_from, PseudoClass, SelectorV};
use crate::style::{find_group, groups_insert, lemma_find_group, spec_decls_of_props,
    spec_flatten_rule, spec_get_styles, spec_groups_acc, spec_matches, spec_query_groups,
    spec_sheet_of, spec_synth, StyleSheet};

verus! {

/// Re-parsing the same CSS text yields stylesheets that answer every
/// query alike: the whole pipeline is a function of the text and the
/// palette, so two sheets built from them agree on the stored table, on
/// what any query returns, and on how any query changes the table.
pub proof fn lemma_reparse_idempotent(s1: StyleSheet, s2: StyleSheet, input: Seq<char>, pal: PaletteV)
    requires
        s1.rules_view() == spec_sheet_of(input, pal),
        s2.rules_view() == spec_sheet_of(input, pal),
        s1.palette@ == pal,
        s2.palette@ == pal,
    ensures
        s1.rules_view() == s2.rules_view(),
        forall|q: Seq<char>|
            spec_get_styles(s1.rules_view(), s1.palette@, q) == #[trigger] spec_get_styles(
                s2.rules_view(),
                s2.palette@,
                q,
            ),
{
}

/// Tolerance: a pair that fails to type contributes nothing, wherever it
/// stands among its siblings — the declarations of a property list with
/// the failing pair inserted are exactly the declarations without it.
pub proof fn lemma_bad_pair_ignored(
    before: Seq<(Seq<char>, Seq<char>)>,
    bad: (Seq<char>, Seq<char>),
    after: Seq<(Seq<char>, Seq<char>)>,
    pal: PaletteV,
)
    requires
        spec_from_pair(bad.0, bad.1, pal) is None,
    ensures
        spec_decls_of_props(before + seq![bad] + after, pal) == spec_decls_of_props(
            before + after,
            pal,
        ),
    decreases before.len(),
{
    if before.len() == 0 {
        assert((before + seq![bad] + after)[0] == bad);
        assert((before + seq![bad] + after).drop_first() =~= after);
        assert(before + after =~= after);
    } else {
        lemma_bad_pair_ignored(before.drop_first(), bad, after, pal);
        let whole = before + seq![bad] + after;
        let slim = before + after;
        assert(whole[0] == before[0]);
        assert(slim[0] == before[0]);
        assert(whole.drop_first() =~= before.drop_first() + seq![bad] + after);
        assert(slim.drop_first() =~= before.drop_first() + after);
    }
}

/// The same, lifted to a whole rule: the rule's flattened table entries
/// carry exactly the declarations of the pairs that type, whether or not
/// a failing pair sits among them.
pub proof fn lemma_bad_pair_in_rule(
    selectors: Seq<SelectorV>,
    before: Seq<(Seq<char>, Seq<char>)>,
    bad: (Seq<char>, Seq<char>),
    after: Seq<(Seq<char>, Seq<char>)>,
    pal: PaletteV,
)
    requires
        spec_from_pair(bad.0, bad.1, pal) is None,
    ensures
        spec_flatten_rule(selectors, spec_decls_of_props(before + seq![bad] + after, pal))
            == spec_flatten_rule(selectors, spec_decls_of_props(before + after, pal)),
{
    lemma_bad_pair_ignored(before, bad, after, pal);
}

/// No two groups share a pseudo-class.
pub open spec fn distinct_groups(gs: Seq<(Option<PseudoClass>, Seq<DeclV>)>) -> bool {
    forall|i: int, j: int|
        #![trigger gs[i], gs[j]]
        0 <= i < j < gs.len() ==> gs[i].0 != gs[j].0
}

proof fn lemma_insert_distinct(
    acc: Seq<(Option<PseudoClass>, Seq<DeclV>)>,
    p: Option<PseudoClass>,
    ds: Seq<DeclV>,
)
    requires
        distinct_groups(acc),
    ensures
        distinct_groups(groups_insert(acc, p, ds)),
{
    lemma_find_group(acc, p);
    let i = find_group(acc, p);
    if i == -1 {
        let out = acc.push((p, ds));
        assert forall|a: int, b: int| 0 <= a < b < out.len() implies (#[trigger] out[a]).0
            != (#[trigger] out[b]).0 by {
            if b < out.len() - 1 {
                assert(out[a] == acc[a] && out[b] == acc[b]);
            } else {
                assert(out[a] == acc[a]);
                assert(acc[a].0 != p);
            }
        }
    } else {
        let out = acc.update(i, (p, acc[i].1 + ds));
        assert forall|a: int, b: int| 0 <= a < b < out.len() implies (#[trigger] out[a]).0
            != (#[trigger] out[b]).0 by {
            assert(out[a].0 == acc[a].0);
            assert(out[b].0 == acc[b].0);
        }
    }
}

proof fn lemma_groups_acc_distinct(
    rules: Seq<(SelectorV, Seq<DeclV>)>,
    q: Seq<char>,
    acc: Seq<(Option<PseudoClass>, Seq<DeclV>)>,
)
    requires
        distinct_groups(acc),
    ensures
        distinct_groups(spec_groups_acc(rules, q, acc)),
    decreases rules.len(),
{
    if rules.len() > 0 {
        if spec_matches(rules[0].0.selector, q) {
            lemma_insert_distinct(acc, rules[0].0.pseudo_class, rules[0].1);
            lemma_groups_acc_distinct(
                rules.drop_first(),
                q,
                groups_insert(acc, rules[0].0.pseudo_class, rules[0].1),
            );
        } else {
            lemma_groups_acc_distinct(rules.drop_first(), q, acc);
        }
    }
}

/// Pseudo-class grouping: the groups a query returns carry pairwise
/// distinct pseudo-classes — rules sharing one are merged, rules with
/// different ones stay separate, the base group included.
pub proof fn lemma_query_groups_distinct(rules: Seq<(SelectorV, Seq<DeclV>)>, q: Seq<char>)
    ensures
        distinct_groups(spec_query_groups(rules, q)),
{
    lemma_groups_acc_distinct(rules, q, Seq::empty());
}

/// The declarations the matching rules with pseudo-class `p` contribute,
/// in table order.
pub open spec fn matched_decls(
    rules: Seq<(SelectorV, Seq<DeclV>)>,
    q: Seq<char>,
    p: Option<PseudoClass>,
) -> Seq<DeclV>
    decreases rules.len(),
{
    if rules.len() == 0 {
        Seq::empty()
    } else {
        (if spec_matches(rules[0].0.selector, q) && rules[0].0.pseudo_class == p {
            rules[0].1
        } else {
            Seq::<DeclV>::empty()
        }) + matched_decls(rules.drop_first(), q, p)
    }
}

/// The declarations the group for `p` holds, empty when there is none.
pub open spec fn content_of(
    gs: Seq<(Option<PseudoClass>, Seq<DeclV>)>,
    p: Option<PseudoClass>,
) -> Seq<DeclV> {
    let i = find_group(gs, p);
    if i == -1 {
        Seq::empty()
    } else {
        gs[i].1
    }
}

/// Appending a group for another pseudo-class moves no existing group and
/// adds none for `p`; appending one for `p` itself lands where `p` was
/// missing.
proof fn lemma_find_group_push(
    acc: Seq<(Option<PseudoClass>, Seq<DeclV>)>,
    x: (Option<PseudoClass>, Seq<DeclV>),
    p: Option<PseudoClass>,
)
    ensures
        x.0 == p && find_group(acc, p) == -1 ==> find_group(acc.push(x), p) == acc.len(),
        x.0 == p && find_group(acc, p) != -1 ==> find_group(acc.push(x), p) == find_group(acc, p),
        x.0 != p ==> find_group(acc.push(x), p) == find_group(acc, p),
    decreases acc.len(),
{
    if acc.len() == 0 {
        assert(acc.push(x)[0] == x);
        assert(acc.push(x).drop_first() =~= Seq::<(Option<PseudoClass>, Seq<DeclV>)>::empty());
        assert(find_group(Seq::<(Option<PseudoClass>, Seq<DeclV>)>::empty(), p) == -1);
    } else {
        assert(acc.push(x)[0] == acc[0]);
        assert(acc.push(x).drop_first() =~= acc.drop_first().push(x));
        lemma_find_group_push(acc.drop_first(), x, p);
        if x.0 == p && find_group(acc, p) == -1 {
            assert(acc[0].0 != p);
            lemma_find_group(acc.drop_first(), p);
            assert(find_group(acc.drop_first(), p) == -1);
            assert(find_group(acc.drop_first().push(x), p) == acc.drop_first().len());
            assert(find_group(acc.push(x), p) == acc.len());
        }
    }
}

/// Updating a group in place, keeping its pseudo-class, moves nothing.
proof fn lemma_find_group_update(
    acc: Seq<(Option<PseudoClass>, Seq<DeclV>)>,
    i: int,
    y: (Option<PseudoClass>, Seq<DeclV>),
    p: Option<PseudoClass>,
)
    requires
        0 <= i < acc.len(),
        y.0 == acc[i].0,
    ensures
        find_group(acc.update(i, y), p) == find_group(acc, p),
    decreases acc.len(),
{
    let u = acc.update(i, y);
    if i == 0 {
        assert(u[0].0 == acc[0].0);
        assert(u.drop_first() =~= acc.drop_first());
    } else {
        assert(u[0] == acc[0]);
        assert(u.drop_first() =~= acc.drop_first().update(i - 1, y));
        lemma_find_group_update(acc.drop_first(), i - 1, y, p);
    }
}

/// Inserting one matching rule adds its declarations to the content of
/// its own pseudo-class and leaves every other content alone.
proof fn lemma_insert_content(
    acc: Seq<(Option<PseudoClass>, Seq<DeclV>)>,
    p0: Option<PseudoClass>,
    ds: Seq<DeclV>,
    p: Option<PseudoClass>,
)
    ensures
        p == p0 ==> content_of(groups_insert(acc, p0, ds), p) == content_of(acc, p) + ds,
        p != p0 ==> content_of(groups_insert(acc, p0, ds), p) == content_of(acc, p),
{
    lemma_find_group(acc, p0);
    let i = find_group(acc, p0);
    if i == -1 {
        let out = acc.push((p0, ds));
        lemma_find_group_push(acc, (p0, ds), p);
        if p == p0 {
            assert(out[acc.len() as int].1 == ds);
            assert(content_of(acc, p) + ds =~= ds);
        } else {
            lemma_find_group(acc, p);
            if find_group(acc, p) != -1 {
                assert(out[find_group(acc, p)] == acc[find_group(acc, p)]);
            }
        }
    } else {
        let y = (p0, acc[i].1 + ds);
        let out = acc.update(i, y);
        lemma_find_group_update(acc, i, y, p);
        if p != p0 {
            lemma_find_group(acc, p);
            if find_group(acc, p) != -1 {
                assert(out[find_group(acc, p)] == acc[find_group(acc, p)]);
            }
        }
    }
}

/// The fold accumulates, per pseudo-class, exactly the declarations the
/// matching rules contribute.
proof fn lemma_groups_acc_content(
    rules: Seq<(SelectorV, Seq<DeclV>)>,
    q: Seq<char>,
    acc: Seq<(Option<PseudoClass>, Seq<DeclV>)>,
    p: Option<PseudoClass>,
)
    ensures
        content_of(spec_groups_acc(rules, q, acc), p) == content_of(acc, p) + matched_decls(
            rules,
            q,
            p,
        ),
    decreases rules.len(),
{
    if rules.len() == 0 {
        assert(content_of(acc, p) + matched_decls(rules, q, p) =~= content_of(acc, p));
    } else {
        let p0 = rules[0].0.pseudo_class;
        let ds = rules[0].1;
        if spec_matches(rules[0].0.selector, q) {
            let acc2 = groups_insert(acc, p0, ds);
            lemma_insert_content(acc, p0, ds, p);
            lemma_groups_acc_content(rules.drop_first(), q, acc2, p);
            if p == p0 {
                assert((content_of(acc, p) + ds) + matched_decls(rules.drop_first(), q, p)
                    =~= content_of(acc, p) + (ds + matched_decls(rules.drop_first(), q, p)));
            } else {
                assert(content_of(acc, p) + matched_decls(rules.drop_first(), q, p) =~= content_of(
                    acc,
                    p,
                ) + (Seq::<DeclV>::empty() + matched_decls(rules.drop_first(), q, p)));
            }
        } else {
            lemma_groups_acc_content(rules.drop_first(), q, acc, p);
            assert(matched_decls(rules, q, p) =~= Seq::<DeclV>::empty() + matched_decls(
                rules.drop_first(),
                q,
                p,
            ));
        }
    }
}

/// Pseudo-class grouping, the content half: every group a query returns
/// holds exactly the declarations of the matching rules with its own
/// pseudo-class, concatenated in table order — nothing more, nothing of
/// anyone else's.
pub proof fn lemma_query_groups_content(rules: Seq<(SelectorV, Seq<DeclV>)>, q: Seq<char>)
    ensures
        forall|k: int|
            0 <= k < spec_query_groups(rules, q).len() ==> (#[trigger] spec_query_groups(
                rules,
                q,
            )[k]).1 == matched_decls(rules, q, spec_query_groups(rules, q)[k].0),
{
    let groups = spec_query_groups(rules, q);
    lemma_query_groups_distinct(rules, q);
    assert forall|k: int| 0 <= k < groups.len() implies (#[trigger] groups[k]).1 == matched_decls(
        rules,
        q,
        groups[k].0,
    ) by {
        let p = groups[k].0;
        lemma_groups_acc_content(rules, q, Seq::empty(), p);
        lemma_find_group(groups, p);
        let i = find_group(groups, p);
        assert(i != -1);
        if i < k {
            assert(groups[i].0 != groups[k].0);
            assert(false);
        }
        if i > k {
            assert(groups[k].0 != groups[i].0);
            assert(false);
        }
        assert(content_of(groups, p) == groups[k].1);
        assert(content_of(Seq::empty(), p) + matched_decls(rules, q, p) =~= matched_decls(
            rules,
            q,
            p,
        ));
    }
}

/// The fold never shrinks the group list.
proof fn lemma_groups_acc_len(
    rules: Seq<(SelectorV, Seq<DeclV>)>,
    q: Seq<char>,
    acc: Seq<(Option<PseudoClass>, Seq<DeclV>)>,
)
    ensures
        spec_groups_acc(rules, q, acc).len() >= acc.len(),
    decreases rules.len(),
{
    if rules.len() > 0 {
        if spec_matches(rules[0].0.selector, q) {
            let acc2 = groups_insert(acc, rules[0].0.pseudo_class, rules[0].1);
            lemma_find_group(acc, rules[0].0.pseudo_class);
            lemma_groups_acc_len(rules.drop_first(), q, acc2);
        } else {
            lemma_groups_acc_len(rules.drop_first(), q, acc);
        }
    }
}

/// When nothing matched, the fold leaves the accumulator alone — and an
/// empty result means nothing matched.
proof fn lemma_base_empty_no_match(rules: Seq<(SelectorV, Seq<DeclV>)>, q: Seq<char>)
    requires
        spec_query_groups(rules, q).len() == 0,
    ensures
        forall|k: int|
            0 <= k < rules.len() ==> !spec_matches((#[trigger] rules[k]).0.selector, q),
    decreases rules.len(),
{
    lemma_base_empty_no_match_acc(rules, q, Seq::empty());
}

proof fn lemma_base_empty_no_match_acc(
    rules: Seq<(SelectorV, Seq<DeclV>)>,
    q: Seq<char>,
    acc: Seq<(Option<PseudoClass>, Seq<DeclV>)>,
)
    requires
        spec_groups_acc(rules, q, acc).len() == 0,
    ensures
        forall|k: int|
            0 <= k < rules.len() ==> !spec_matches((#[trigger] rules[k]).0.selector, q),
        acc.len() == 0,
    decreases rules.len(),
{
    lemma_groups_acc_len(rules, q, acc);
    if rules.len() > 0 {
        if spec_matches(rules[0].0.selector, q) {
            let acc2 = groups_insert(acc, rules[0].0.pseudo_class, rules[0].1);
            lemma_find_group(acc, rules[0].0.pseudo_class);
            lemma_groups_acc_len(rules.drop_first(), q, acc2);
            assert(false);
        } else {
            lemma_base_empty_no_match_acc(rules.drop_first(), q, acc);
            assert forall|k: int| 0 <= k < rules.len() implies !spec_matches(
                (#[trigger] rules[k]).0.selector,
                q,
            ) by {
                if k >= 1 {
                    assert(rules[k] == rules.drop_first()[k - 1]);
                }
            }
        }
    }
}

/// An unmatched table folds to the accumulator unchanged.
proof fn lemma_no_match_acc(
    rules: Seq<(SelectorV, Seq<DeclV>)>,
    q: Seq<char>,
    acc: Seq<(Option<PseudoClass>, Seq<DeclV>)>,
)
    requires
        forall|k: int|
            0 <= k < rules.len() ==> !spec_matches((#[trigger] rules[k]).0.selector, q),
    ensures
        spec_groups_acc(rules, q, acc) == acc,
    decreases rules.len(),
{
    if rules.len() > 0 {
        assert(!spec_matches(rules[0].0.selector, q));
        assert forall|k: int| 0 <= k < rules.drop_first().len() implies !spec_matches(
            (#[trigger] rules.drop_first()[k]).0.selector,
            q,
        ) by {
            assert(rules.drop_first()[k] == rules[k + 1]);
        }
        lemma_no_match_acc(rules.drop_first(), q, acc);
    }
}

/// Folding over a table with one entry appended is folding over the
/// table, then over that entry.
proof fn lemma_groups_acc_push(
    rules: Seq<(SelectorV, Seq<DeclV>)>,
    x: (SelectorV, Seq<DeclV>),
    q: Seq<char>,
    acc: Seq<(Option<PseudoClass>, Seq<DeclV>)>,
)
    ensures
        spec_groups_acc(rules.push(x), q, acc) == spec_groups_acc(
            seq![x],
            q,
            spec_groups_acc(rules, q, acc),
        ),
    decreases rules.len(),
{
    if rules.len() == 0 {
        assert(rules.push(x) =~= seq![x]);
    } else {
        assert(rules.push(x)[0] == rules[0]);
        assert(rules.push(x).drop_first() =~= rules.drop_first().push(x));
        if spec_matches(rules[0].0.selector, q) {
            lemma_groups_acc_push(
                rules.drop_first(),
                x,
                q,
                groups_insert(acc, rules[0].0.pseudo_class, rules[0].1),
            );
        } else {
            lemma_groups_acc_push(rules.drop_first(), x, q, acc);
        }
    }
}

/// Synthesis memoization: when a query matches nothing but synthesizes
/// something, the sheet grows by exactly one entry, and the same query
/// against the grown sheet takes the stored path — it returns the same
/// groups and leaves the sheet unchanged.
pub proof fn lemma_synthesis_memoized(rules: Seq<(SelectorV, Seq<DeclV>)>, pal: PaletteV, q: Seq<
    char,
>)
    requires
        spec_query_groups(rules, q).len() == 0,
        spec_synth(q, pal).len() > 0,
    ensures
        spec_get_styles(rules, pal, q).0.len() == rules.len() + 1,
        spec_get_styles(spec_get_styles(rules, pal, q).0, pal, q).0 == spec_get_styles(
            rules,
            pal,
            q,
        ).0,
        spec_get_styles(spec_get_styles(rules, pal, q).0, pal, q).1 == spec_get_styles(
            rules,
            pal,
            q,
        ).1,
{
    let g = spec_synth(q, pal);
    let newsel = spec_selector_from(q);
    let r1 = rules.push((newsel, g));
    let g1 = seq![(spec_pseudo_of(q), g)];
    assert(spec_get_styles(rules, pal, q).0 == r1);
    assert(spec_get_styles(rules, pal, q).1 == g1);

    // the query matches its own memoized entry
    assert(split_ws(q).len() > 0);
    lemma_split_tokens_contained(q, 0);
    assert(contains_seq(q, split_ws(q)[0]));
    assert(spec_matches(newsel.selector, q));

    // the old entries still match nothing
    lemma_base_empty_no_match(rules, q);
    lemma_groups_acc_push(rules, (newsel, g), q, Seq::empty());
    lemma_no_match_acc(rules, q, Seq::empty());
    let base2 = spec_query_groups(r1, q);
    assert(base2 == spec_groups_acc(seq![(newsel, g)], q, Seq::empty()));
    assert(seq![(newsel, g)].drop_first() =~= Seq::<(SelectorV, Seq<DeclV>)>::empty());
    assert(seq![(newsel, g)][0] == (newsel, g));
    let acc2 = groups_insert(Seq::empty(), newsel.pseudo_class, g);
    assert(spec_groups_acc(Seq::<(SelectorV, Seq<DeclV>)>::empty(), q, acc2) == acc2);
    assert(base2 =~= acc2);
    assert(find_group(Seq::empty(), newsel.pseudo_class) == -1);
    assert(base2 =~= g1);
    assert(base2.len() > 0);
    assert(spec_get_styles(r1, pal, q).0 == r1);
    assert(spec_get_styles(r1, pal, q).1 == base2);
}

} // verus!
