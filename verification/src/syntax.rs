//! The syntax analyzer.
//!
//! Scans the token stream for structural well-formedness — balanced
//! braces, a selector before every `{`, and `property: value` pairs
//! terminated by `;` or the closing `}` — and collects positioned errors
//! without halting. It does not judge property names or values: those
//! failures are tolerated silently by the declaration typer, the way
//! browsers tolerate unknown CSS.

use vstd::prelude::*;

use crate::error::{SyntaxError, SyntaxErrorV};
use crate::lexer::{Token, TokenKind, TokenV};
use crate::rules::{find_term, lemma_find_term_bounds, tokens_wf};

verus! {

/// The source text a token covers.
pub open spec fn tok_text(s: Seq<char>, t: TokenV) -> Seq<char> {
    s.subrange(t.start, t.end)
}

/// The error reported when the text ends inside a block.
pub open spec fn unclosed_err(s: Seq<char>) -> SyntaxErrorV {
    SyntaxErrorV { message: "unclosed block"@, slice: Seq::empty(), position: s.len() as int }
}

/// First `{` or `}` at or after `k`, or the length of `ts`.
pub open spec fn find_brace(ts: Seq<TokenV>, k: int) -> int
    decreases ts.len() - k,
{
    if k < 0 || k >= ts.len() {
        ts.len() as int
    } else if ts[k].kind == TokenKind::LBrace || ts[k].kind == TokenKind::RBrace {
        k
    } else {
        find_brace(ts, k + 1)
    }
}

pub proof fn lemma_find_brace_bounds(ts: Seq<TokenV>, k: int)
    requires
        0 <= k <= ts.len(),
    ensures
        k <= find_brace(ts, k) <= ts.len(),
        find_brace(ts, k) < ts.len() ==> (ts[find_brace(ts, k)].kind == TokenKind::LBrace
            || ts[find_brace(ts, k)].kind == TokenKind::RBrace),
    decreases ts.len() - k,
{
    if k < ts.len() && !(ts[k].kind == TokenKind::LBrace || ts[k].kind == TokenKind::RBrace) {
        lemma_find_brace_bounds(ts, k + 1);
    }
}

/// The structural errors of one declaration block starting at token `k`,
/// and the token index one past the block.
pub open spec fn spec_analyze_block(ts: Seq<TokenV>, s: Seq<char>, k: int) -> (Seq<SyntaxErrorV>, int)
    decreases ts.len() - k,
    via spec_analyze_block_decreases
{
    if k < 0 || k >= ts.len() {
        (seq![unclosed_err(s)], ts.len() as int)
    } else if ts[k].kind == TokenKind::RBrace {
        (Seq::empty(), k + 1)
    } else if ts[k].kind == TokenKind::Semicolon {
        spec_analyze_block(ts, s, k + 1)
    } else if ts[k].kind == TokenKind::Ident && k + 1 < ts.len() && ts[k + 1].kind
        == TokenKind::Colon {
        let e = find_term(ts, k + 2);
        let head: Seq<SyntaxErrorV> = if e == k + 2 {
            seq![
                SyntaxErrorV {
                    message: "declaration is missing a value"@,
                    slice: tok_text(s, ts[k]),
                    position: ts[k].start,
                },
            ]
        } else {
            Seq::empty()
        };
        if e >= ts.len() {
            (head + seq![unclosed_err(s)], ts.len() as int)
        } else if ts[e].kind == TokenKind::Semicolon {
            let r = spec_analyze_block(ts, s, e + 1);
            (head + r.0, r.1)
        } else {
            (head, e + 1)
        }
    } else if ts[k].kind == TokenKind::Ident {
        let r = spec_analyze_block(ts, s, k + 1);
        (seq![
            SyntaxErrorV {
                message: "expected ':' after property name"@,
                slice: tok_text(s, ts[k]),
                position: ts[k].start,
            },
        ] + r.0, r.1)
    } else {
        let r = spec_analyze_block(ts, s, k + 1);
        (seq![
            SyntaxErrorV {
                message: "unexpected token in declaration block"@,
                slice: tok_text(s, ts[k]),
                position: ts[k].start,
            },
        ] + r.0, r.1)
    }
}

#[via_fn]
proof fn spec_analyze_block_decreases(ts: Seq<TokenV>, s: Seq<char>, k: int) {
    if 0 <= k < ts.len() && ts[k].kind == TokenKind::Ident && k + 1 < ts.len() && ts[k + 1].kind
        == TokenKind::Colon {
        lemma_find_term_bounds(ts, k + 2);
    }
}

pub proof fn lemma_analyze_block_advance(ts: Seq<TokenV>, s: Seq<char>, k: int)
    requires
        0 <= k <= ts.len(),
    ensures
        k <= spec_analyze_block(ts, s, k).1 <= ts.len(),
    decreases ts.len() - k,
{
    if k >= ts.len() {
    } else if ts[k].kind == TokenKind::RBrace {
    } else if ts[k].kind == TokenKind::Semicolon {
        lemma_analyze_block_advance(ts, s, k + 1);
    } else if ts[k].kind == TokenKind::Ident && k + 1 < ts.len() && ts[k + 1].kind
        == TokenKind::Colon {
        lemma_find_term_bounds(ts, k + 2);
        let e = find_term(ts, k + 2);
        if e < ts.len() && ts[e].kind == TokenKind::Semicolon {
            lemma_analyze_block_advance(ts, s, e + 1);
        }
    } else {
        lemma_analyze_block_advance(ts, s, k + 1);
    }
}

/// All structural errors of the token stream from token `k` on.
pub open spec fn spec_analyze_from(ts: Seq<TokenV>, s: Seq<char>, k: int) -> Seq<SyntaxErrorV>
    decreases ts.len() - k,
    via spec_analyze_from_decreases
{
    if k < 0 || k >= ts.len() {
        Seq::empty()
    } else {
        let b = find_brace(ts, k);
        if b >= ts.len() {
            Seq::empty()
        } else if ts[b].kind == TokenKind::RBrace {
            seq![
                SyntaxErrorV {
                    message: "unexpected closing brace"@,
                    slice: tok_text(s, ts[b]),
                    position: ts[b].start,
                },
            ] + spec_analyze_from(ts, s, b + 1)
        } else {
            let sel_errs: Seq<SyntaxErrorV> = if b == k {
                seq![
                    SyntaxErrorV {
                        message: "selector is empty"@,
                        slice: tok_text(s, ts[b]),
                        position: ts[b].start,
                    },
                ]
            } else {
                Seq::empty()
            };
            let r = spec_analyze_block(ts, s, b + 1);
            sel_errs + r.0 + spec_analyze_from(ts, s, r.1)
        }
    }
}

#[via_fn]
proof fn spec_analyze_from_decreases(ts: Seq<TokenV>, s: Seq<char>, k: int) {
    if 0 <= k < ts.len() {
        lemma_find_brace_bounds(ts, k);
        let b = find_brace(ts, k);
        if b < ts.len() && ts[b].kind != TokenKind::RBrace {
            lemma_analyze_block_advance(ts, s, b + 1);
        }
    }
}

/// The structural errors of the whole token stream: unbalanced braces,
/// missing selectors, and malformed declarations, in source order. Empty
/// means structurally clean.
pub open spec fn spec_analyze(ts: Seq<TokenV>, s: Seq<char>) -> Seq<SyntaxErrorV> {
    spec_analyze_from(ts, s, 0)
}

fn mk_err(message: &str, slice: String, position: usize) -> (r: SyntaxError)
    ensures
        r@ == (SyntaxErrorV { message: message@, slice: slice@, position: position as int }),
{
    SyntaxError { message: String::from_str(message), slice, position }
}

fn tok_slice(ts: &Vec<Token>, s: &str, k: usize) -> (r: String)
    requires
        tokens_wf(ts.deep_view(), s@),
        k < ts@.len(),
    ensures
        r@ == tok_text(s@, ts.deep_view()[k as int]),
{
    proof {
        assert(ts.deep_view()[k as int] == ts@[k as int]@);
    }
    let sub = s.substring_char(ts[k].start, ts[k].end);
    String::from_str(sub)
}

/// Exec block analysis, proved against `spec_analyze_block`.
fn analyze_block(ts: &Vec<Token>, s: &str, k: usize) -> (r: (Vec<SyntaxError>, usize))
    requires
        tokens_wf(ts.deep_view(), s@),
        k <= ts@.len(),
    ensures
        r.0.deep_view() == spec_analyze_block(ts.deep_view(), s@, k as int).0,
        r.1 == spec_analyze_block(ts.deep_view(), s@, k as int).1,
    decreases ts@.len() - k,
{
    let ghost tv = ts.deep_view();
    let n = ts.len();
    if k >= n {
        let mut r: Vec<SyntaxError> = Vec::new();
        r.push(mk_err("unclosed block", String::new(), s.unicode_len()));
        proof {
            assert(r.deep_view() =~= spec_analyze_block(tv, s@, k as int).0);
        }
        return (r, n);
    }
    proof {
        assert(tv[k as int] == ts@[k as int]@);
        if k + 1 < n {
            assert(tv[k + 1] == ts@[k + 1]@);
        }
    }
    let tk = ts[k].kind;
    if tk == TokenKind::RBrace {
        let r: Vec<SyntaxError> = Vec::new();
        proof {
            assert(r.deep_view() =~= spec_analyze_block(tv, s@, k as int).0);
        }
        return (r, k + 1);
    }
    if tk == TokenKind::Semicolon {
        return analyze_block(ts, s, k + 1);
    }
    if tk == TokenKind::Ident && k + 1 < n && ts[k + 1].kind == TokenKind::Colon {
        let e = crate::rules::find_term_exec(ts, k + 2);
        let mut head: Vec<SyntaxError> = Vec::new();
        if e == k + 2 {
            head.push(mk_err("declaration is missing a value", tok_slice(ts, s, k), ts[k].start));
        }
        if e >= n {
            head.push(mk_err("unclosed block", String::new(), s.unicode_len()));
            proof {
                assert(head.deep_view() =~= spec_analyze_block(tv, s@, k as int).0);
            }
            return (head, n);
        }
        proof {
            assert(tv[e as int] == ts@[e as int]@);
        }
        if ts[e].kind == TokenKind::Semicolon {
            let (mut rest, k2) = analyze_block(ts, s, e + 1);
            let ghost hv = head.deep_view();
            head.append(&mut rest);
            proof {
                assert(head.deep_view() =~= spec_analyze_block(tv, s@, k as int).0);
            }
            return (head, k2);
        }
        proof {
            assert(head.deep_view() =~= spec_analyze_block(tv, s@, k as int).0);
        }
        return (head, e + 1);
    }
    if tk == TokenKind::Ident {
        let err = mk_err("expected ':' after property name", tok_slice(ts, s, k), ts[k].start);
        let (mut rest, k2) = analyze_block(ts, s, k + 1);
        rest.insert(0, err);
        proof {
            assert(rest.deep_view() =~= spec_analyze_block(tv, s@, k as int).0);
        }
        return (rest, k2);
    }
    let err = mk_err("unexpected token in declaration block", tok_slice(ts, s, k), ts[k].start);
    let (mut rest, k2) = analyze_block(ts, s, k + 1);
    rest.insert(0, err);
    proof {
        assert(rest.deep_view() =~= spec_analyze_block(tv, s@, k as int).0);
    }
    (rest, k2)
}

fn find_brace_exec(ts: &Vec<Token>, k: usize) -> (r: usize)
    requires
        k <= ts@.len(),
    ensures
        r == find_brace(ts.deep_view(), k as int),
        k <= r <= ts@.len(),
{
    let ghost tv = ts.deep_view();
    let n = ts.len();
    let mut j = k;
    while j < n && !(ts[j].kind == TokenKind::LBrace || ts[j].kind == TokenKind::RBrace)
        invariant
            k <= j <= n,
            find_brace(tv, k as int) == find_brace(tv, j as int),
        decreases n - j,
    {
        proof {
            assert(tv[j as int] == ts@[j as int]@);
        }
        j += 1;
    }
    proof {
        if j < n {
            assert(tv[j as int] == ts@[j as int]@);
        }
    }
    j
}

fn analyze_from(ts: &Vec<Token>, s: &str, k: usize) -> (r: Vec<SyntaxError>)
    requires
        tokens_wf(ts.deep_view(), s@),
        k <= ts@.len(),
    ensures
        r.deep_view() == spec_analyze_from(ts.deep_view(), s@, k as int),
    decreases ts@.len() - k,
{
    let ghost tv = ts.deep_view();
    let n = ts.len();
    if k >= n {
        let r: Vec<SyntaxError> = Vec::new();
        proof {
            assert(r.deep_view() =~= spec_analyze_from(tv, s@, k as int));
        }
        return r;
    }
    let b = find_brace_exec(ts, k);
    if b >= n {
        let r: Vec<SyntaxError> = Vec::new();
        proof {
            assert(r.deep_view() =~= spec_analyze_from(tv, s@, k as int));
        }
        return r;
    }
    proof {
        assert(tv[b as int] == ts@[b as int]@);
    }
    if ts[b].kind == TokenKind::RBrace {
        let err = mk_err("unexpected closing brace", tok_slice(ts, s, b), ts[b].start);
        let mut rest = analyze_from(ts, s, b + 1);
        rest.insert(0, err);
        proof {
            assert(rest.deep_view() =~= spec_analyze_from(tv, s@, k as int));
        }
        return rest;
    }
    let mut out: Vec<SyntaxError> = Vec::new();
    if b == k {
        out.push(mk_err("selector is empty", tok_slice(ts, s, b), ts[b].start));
    }
    let (mut berrs, k2) = analyze_block(ts, s, b + 1);
    proof {
        lemma_analyze_block_advance(tv, s@, b + 1);
    }
    out.append(&mut berrs);
    let mut rest = analyze_from(ts, s, k2);
    out.append(&mut rest);
    proof {
        assert(out.deep_view() =~= spec_analyze_from(tv, s@, k as int));
    }
    out
}

/// Collects the structural errors of a token stream against its source
/// text, proved against `spec_analyze`. Empty means structurally clean.
pub fn analyze_tokens(ts: &Vec<Token>, s: &str) -> (r: Vec<SyntaxError>)
    requires
        tokens_wf(ts.deep_view(), s@),
    ensures
        r.deep_view() == spec_analyze(ts.deep_view(), s@),
{
    analyze_from(ts, s, 0)
}

} // verus!
