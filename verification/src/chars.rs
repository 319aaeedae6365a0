//! Character classes and small string utilities used by the whole engine.
//!
//! All executable functions here are proved equal to spec-level definitions
//! over `Seq<char>`, so the rest of the crate can reason about text purely
//! mathematically.

use vstd::prelude::*;

verus! {

/// ASCII whitespace, the boundary characters the lexer and the value
/// splitters recognise.
pub open spec fn is_ws(c: char) -> bool {
    c == ' ' || c == '\t' || c == '\n' || c == '\r' || c == '\u{b}' || c == '\u{c}'
}

pub open spec fn is_digit(c: char) -> bool {
    48 <= (c as u32) && (c as u32) <= 57
}

pub open spec fn digit_val(c: char) -> int {
    (c as u32) - 48
}

pub open spec fn is_alpha(c: char) -> bool {
    (65 <= (c as u32) && (c as u32) <= 90) || (97 <= (c as u32) && (c as u32) <= 122)
}

/// Characters that may appear in an identifier token: letters, digits,
/// `-`, `_`, `.`, `#`, `%`, `*`, and anything outside ASCII.
pub open spec fn is_ident_char(c: char) -> bool {
    is_alpha(c) || is_digit(c) || c == '-' || c == '_' || c == '.' || c == '#' || c == '%'
        || c == '*' || (c as u32) >= 128
}

pub fn ws(c: char) -> (b: bool)
    ensures
        b == is_ws(c),
{
    c == ' ' || c == '\t' || c == '\n' || c == '\r' || c == '\u{b}' || c == '\u{c}'
}

pub fn digit(c: char) -> (b: bool)
    ensures
        b == is_digit(c),
{
    let u = c as u32;
    48 <= u && u <= 57
}

pub fn alpha(c: char) -> (b: bool)
    ensures
        b == is_alpha(c),
{
    let u = c as u32;
    (65 <= u && u <= 90) || (97 <= u && u <= 122)
}

pub fn ident_char(c: char) -> (b: bool)
    ensures
        b == is_ident_char(c),
{
    let u = c as u32;
    alpha(c) || digit(c) || c == '-' || c == '_' || c == '.' || c == '#' || c == '%' || c == '*'
        || u >= 128
}

/// Lower-cases an ASCII letter; leaves every other character unchanged.
pub open spec fn lower_char(c: char) -> char {
    if 65 <= (c as u32) && (c as u32) <= 90 {
        (((c as u32) + 32) as char)
    } else {
        c
    }
}

pub open spec fn lower_seq(s: Seq<char>) -> Seq<char> {
    s.map_values(|c: char| lower_char(c))
}

pub fn lower(c: char) -> (r: char)
    ensures
        r == lower_char(c),
{
    match c {
        'A' => 'a',
        'B' => 'b',
        'C' => 'c',
        'D' => 'd',
        'E' => 'e',
        'F' => 'f',
        'G' => 'g',
        'H' => 'h',
        'I' => 'i',
        'J' => 'j',
        'K' => 'k',
        'L' => 'l',
        'M' => 'm',
        'N' => 'n',
        'O' => 'o',
        'P' => 'p',
        'Q' => 'q',
        'R' => 'r',
        'S' => 's',
        'T' => 't',
        'U' => 'u',
        'V' => 'v',
        'W' => 'w',
        'X' => 'x',
        'Y' => 'y',
        'Z' => 'z',
        _ => c,
    }
}

/// `needle` occurs as a contiguous run somewhere inside `hay`.
pub open spec fn contains_seq(hay: Seq<char>, needle: Seq<char>) -> bool {
    exists|k: int|
        0 <= k && k + needle.len() <= hay.len() && #[trigger] hay.subrange(k, k + needle.len())
            == needle
}

/// Character-wise string equality, stated over the views.
pub fn str_eq(a: &str, b: &str) -> (r: bool)
    ensures
        r == (a@ == b@),
{
    let an = a.unicode_len();
    let bn = b.unicode_len();
    if an != bn {
        assert(a@.len() != b@.len());
        return false;
    }
    let mut i: usize = 0;
    while i < an
        invariant
            an == a@.len(),
            an == b@.len(),
            0 <= i <= an,
            forall|j: int| 0 <= j < i ==> a@[j] == b@[j],
        decreases an - i,
    {
        if a.get_char(i) != b.get_char(i) {
            return false;
        }
        i += 1;
    }
    proof {
        assert(a@ =~= b@);
    }
    true
}

/// Whether `hay[k .. k + needle.len()]` equals `needle`.
fn matches_at(hay: &str, k: usize, needle: &str) -> (r: bool)
    requires
        k + needle@.len() <= hay@.len(),
    ensures
        r == (hay@.subrange(k as int, k + needle@.len()) == needle@),
{
    let hn = hay.unicode_len();
    let n = needle.unicode_len();
    let mut i: usize = 0;
    while i < n
        invariant
            0 <= i <= n,
            forall|j: int| 0 <= j < i ==> hay@[k + j] == needle@[j],
        decreases n - i,
    {
        if hay.get_char(k + i) != needle.get_char(i) {
            assert(hay@.subrange(k as int, k + needle@.len())[i as int] != needle@[i as int]);
            return false;
        }
        i += 1;
    }
    proof {
        assert(hay@.subrange(k as int, k + needle@.len()) =~= needle@);
    }
    true
}

/// Substring search, stated over the views.
pub fn str_contains(hay: &str, needle: &str) -> (r: bool)
    ensures
        r == contains_seq(hay@, needle@),
{
    let hn = hay.unicode_len();
    let nn = needle.unicode_len();
    if nn > hn {
        return false;
    }
    if nn == 0 {
        proof {
            assert(hay@.subrange(0, 0 + needle@.len() as int) =~= needle@);
        }
        return true;
    }
    let mut k: usize = 0;
    while k <= hn - nn
        invariant
            0 < nn <= hn,
            0 <= k <= hn - nn + 1,
            forall|j: int|
                0 <= j < k ==> #[trigger] hay@.subrange(j, j + needle@.len()) != needle@,
        decreases hn - k,
    {
        if matches_at(hay, k, needle) {
            return true;
        }
        k += 1;
    }
    false
}

/// `suffix` ends `s`.
pub open spec fn ends_with_seq(s: Seq<char>, suffix: Seq<char>) -> bool {
    s.len() >= suffix.len() && s.subrange(s.len() - suffix.len(), s.len() as int) == suffix
}

pub fn str_ends_with(s: &str, suffix: &str) -> (r: bool)
    ensures
        r == ends_with_seq(s@, suffix@),
{
    let sn = s.unicode_len();
    let fn_: usize = suffix.unicode_len();
    if fn_ > sn {
        return false;
    }
    matches_at(s, sn - fn_, suffix)
}

/// `prefix` starts `s`.
pub open spec fn starts_with_seq(s: Seq<char>, prefix: Seq<char>) -> bool {
    s.len() >= prefix.len() && s.subrange(0, prefix.len() as int) == prefix
}

pub fn str_starts_with(s: &str, prefix: &str) -> (r: bool)
    ensures
        r == starts_with_seq(s@, prefix@),
{
    let sn = s.unicode_len();
    let pn = prefix.unicode_len();
    if pn > sn {
        return false;
    }
    matches_at(s, 0, prefix)
}

/// Index of the first character of `s` at or after `i` that fails `is_ws`,
/// or the length of `s` when only whitespace remains.
pub open spec fn skip_ws(s: Seq<char>, i: int) -> int
    decreases s.len() - i,
{
    if i < 0 {
        0
    } else if i >= s.len() {
        s.len() as int
    } else if is_ws(s[i]) {
        skip_ws(s, i + 1)
    } else {
        i
    }
}

pub proof fn lemma_skip_ws_bounds(s: Seq<char>, i: int)
    requires
        0 <= i <= s.len(),
    ensures
        i <= skip_ws(s, i) <= s.len(),
    decreases s.len() - i,
{
    if i < s.len() && is_ws(s[i]) {
        lemma_skip_ws_bounds(s, i + 1);
    }
}

/// Index one past the last character of `s[..j]` that fails `is_ws`, scanning
/// backwards from `j`.
pub open spec fn skip_ws_rev(s: Seq<char>, j: int) -> int
    decreases j,
{
    if j <= 0 {
        0
    } else if j > s.len() {
        s.len() as int
    } else if is_ws(s[j - 1]) {
        skip_ws_rev(s, j - 1)
    } else {
        j
    }
}

pub proof fn lemma_skip_ws_rev_bounds(s: Seq<char>, j: int)
    requires
        0 <= j <= s.len(),
    ensures
        0 <= skip_ws_rev(s, j) <= j,
    decreases j,
{
    if 0 < j && is_ws(s[j - 1]) {
        lemma_skip_ws_rev_bounds(s, j - 1);
    }
}

/// `s` with leading and trailing whitespace removed.
pub open spec fn trim_seq(s: Seq<char>) -> Seq<char> {
    let lo = skip_ws(s, 0);
    let hi = skip_ws_rev(s, s.len() as int);
    if lo <= hi {
        s.subrange(lo, hi)
    } else {
        Seq::empty()
    }
}

/// The trimmed view of `s[from .. to]`, as a borrowed substring.
pub fn substr_trimmed<'a>(s: &'a str, from: usize, to: usize) -> (r: &'a str)
    requires
        from <= to <= s@.len(),
    ensures
        r@ == trim_seq(s@.subrange(from as int, to as int)),
{
    let ghost sub = s@.subrange(from as int, to as int);
    let mut lo: usize = from;
    while lo < to && ws(s.get_char(lo))
        invariant
            from <= lo <= to <= s@.len(),
            skip_ws(sub, 0) == skip_ws(sub, lo - from),
        decreases to - lo,
    {
        proof {
            assert(sub.len() == to - from);
            assert(0 <= lo - from < sub.len());
            assert(sub[lo - from] == s@[from + (lo - from)]);
        }
        lo += 1;
    }
    proof {
        lemma_skip_ws_bounds(sub, lo - from);
        if lo < to {
            assert(!is_ws(sub[lo - from]));
        }
        assert(skip_ws(sub, lo - from) == lo - from);
    }
    let mut hi: usize = to;
    while hi > lo && ws(s.get_char(hi - 1))
        invariant
            from <= lo <= hi <= to <= s@.len(),
            skip_ws(sub, 0) == lo - from,
            skip_ws_rev(sub, sub.len() as int) == skip_ws_rev(sub, hi - from),
        decreases hi,
    {
        proof {
            assert(sub[hi - 1 - from] == s@[hi - 1]);
        }
        hi -= 1;
    }
    proof {
        lemma_skip_ws_rev_bounds(sub, hi - from);
        if hi > lo {
            assert(!is_ws(sub[hi - 1 - from]));
            assert(skip_ws_rev(sub, hi - from) == hi - from);
        } else {
            assert(skip_ws_rev(sub, hi - from) <= lo - from);
        }
    }
    let r = s.substring_char(lo, hi);
    proof {
        if hi > lo {
            assert(r@ =~= trim_seq(sub));
        } else {
            assert(skip_ws(sub, 0) >= skip_ws_rev(sub, sub.len() as int));
            assert(r@ =~= trim_seq(sub));
        }
    }
    r
}

/// `s` with trailing whitespace removed.
pub open spec fn trim_end_seq(s: Seq<char>) -> Seq<char> {
    s.subrange(0, skip_ws_rev(s, s.len() as int))
}

/// The trimmed-at-the-end view of `s[from .. to]`, as a borrowed
/// substring.
pub fn substr_trim_end<'a>(s: &'a str, from: usize, to: usize) -> (r: &'a str)
    requires
        from <= to <= s@.len(),
    ensures
        r@ == trim_end_seq(s@.subrange(from as int, to as int)),
{
    let ghost sub = s@.subrange(from as int, to as int);
    let mut hi: usize = to;
    while hi > from && ws(s.get_char(hi - 1))
        invariant
            from <= hi <= to <= s@.len(),
            skip_ws_rev(sub, sub.len() as int) == skip_ws_rev(sub, hi - from),
        decreases hi,
    {
        proof {
            assert(sub[hi - 1 - from] == s@[hi - 1]);
        }
        hi -= 1;
    }
    proof {
        lemma_skip_ws_rev_bounds(sub, hi - from);
        if hi > from {
            assert(!is_ws(sub[hi - 1 - from]));
            assert(skip_ws_rev(sub, hi - from) == hi - from);
        }
    }
    let r = s.substring_char(from, hi);
    proof {
        assert(r@ =~= trim_end_seq(sub));
    }
    r
}

/// The whitespace-separated tokens of `s`, in order.
/// First whitespace character at or after `i`, or the length of `s`.
pub open spec fn word_end(s: Seq<char>, i: int) -> int
    decreases s.len() - i,
{
    if i < 0 || i >= s.len() {
        s.len() as int
    } else if is_ws(s[i]) {
        i
    } else {
        word_end(s, i + 1)
    }
}

pub proof fn lemma_word_end_bounds(s: Seq<char>, i: int)
    requires
        0 <= i <= s.len(),
    ensures
        i <= word_end(s, i) <= s.len(),
    decreases s.len() - i,
{
    if i < s.len() && !is_ws(s[i]) {
        lemma_word_end_bounds(s, i + 1);
    }
}

pub open spec fn split_ws_from(s: Seq<char>, i: int) -> Seq<Seq<char>>
    decreases s.len() - i,
    via split_ws_from_decreases
{
    if i < 0 || i >= s.len() {
        Seq::empty()
    } else if is_ws(s[i]) {
        split_ws_from(s, i + 1)
    } else {
        let j = word_end(s, i);
        seq![s.subrange(i, j)] + split_ws_from(s, j)
    }
}

#[via_fn]
proof fn split_ws_from_decreases(s: Seq<char>, i: int) {
    if 0 <= i < s.len() && !is_ws(s[i]) {
        lemma_word_end_bounds(s, i + 1);
        assert(word_end(s, i) == word_end(s, i + 1));
    }
}

pub open spec fn split_ws(s: Seq<char>) -> Seq<Seq<char>> {
    split_ws_from(s, 0)
}

fn word_end_exec(s: &str, i: usize) -> (j: usize)
    requires
        i <= s@.len(),
    ensures
        j == word_end(s@, i as int),
        i <= j <= s@.len(),
{
    let n = s.unicode_len();
    let mut j = i;
    while j < n && !ws(s.get_char(j))
        invariant
            i <= j <= n,
            n == s@.len(),
            word_end(s@, i as int) == word_end(s@, j as int),
        decreases n - j,
    {
        j += 1;
    }
    j
}

/// Splits `s` on whitespace; each element borrows from `s`.
pub fn split_whitespace_chars<'a>(s: &'a str) -> (r: Vec<&'a str>)
    ensures
        r.deep_view() == split_ws(s@),
{
    let n = s.unicode_len();
    let mut r: Vec<&'a str> = Vec::new();
    let mut i: usize = 0;
    while i < n
        invariant
            0 <= i <= n,
            n == s@.len(),
            split_ws(s@) == r.deep_view() + split_ws_from(s@, i as int),
        decreases n - i,
    {
        if ws(s.get_char(i)) {
            i += 1;
        } else {
            let j = word_end_exec(s, i);
            let w = s.substring_char(i, j);
            r.push(w);
            proof {
                assert(r.deep_view() =~= r.deep_view().subrange(0, r.deep_view().len() - 1)
                    + seq![w@]);
            }
            i = j;
        }
    }
    proof {
        assert(split_ws(s@) =~= r.deep_view());
    }
    r
}

/// Relies on String::from_iter: collects exactly the given characters
/// into an owned string.
#[verifier::external_body]
fn string_from_chars(v: &Vec<char>) -> (r: String)
    ensures
        r@ == v@,
{
    v.iter().collect()
}

/// The ASCII-lowercased copy of `s`.
pub fn lower_string(s: &str) -> (r: String)
    ensures
        r@ == lower_seq(s@),
{
    let n = s.unicode_len();
    let mut v: Vec<char> = Vec::new();
    let mut i: usize = 0;
    while i < n
        invariant
            0 <= i <= n,
            n == s@.len(),
            v@.len() == i,
            forall|j: int| 0 <= j < i ==> v@[j] == lower_char(s@[j]),
        decreases n - i,
    {
        v.push(lower(s.get_char(i)));
        i += 1;
    }
    let r = string_from_chars(&v);
    proof {
        assert(r@ =~= lower_seq(s@));
    }
    r
}

/// Every whitespace-separated token of `s` occurs inside `s` itself.
pub proof fn lemma_split_tokens_contained(s: Seq<char>, i: int)
    requires
        0 <= i <= s.len(),
    ensures
        forall|t: int|
            0 <= t < split_ws_from(s, i).len() ==> contains_seq(s, #[trigger] split_ws_from(
                s,
                i,
            )[t]),
    decreases s.len() - i,
{
    if i >= s.len() {
    } else if is_ws(s[i]) {
        lemma_split_tokens_contained(s, i + 1);
        assert forall|t: int| 0 <= t < split_ws_from(s, i).len() implies contains_seq(
            s,
            #[trigger] split_ws_from(s, i)[t],
        ) by {
            assert(split_ws_from(s, i)[t] == split_ws_from(s, i + 1)[t]);
        }
    } else {
        let j = word_end(s, i);
        assert(word_end(s, i) == word_end(s, i + 1));
        lemma_word_end_bounds(s, i + 1);
        lemma_split_tokens_contained(s, j);
        assert(s.subrange(i, j) == s.subrange(i, i + s.subrange(i, j).len()));
        assert(contains_seq(s, s.subrange(i, j)));
        assert forall|t: int| 0 <= t < split_ws_from(s, i).len() implies contains_seq(
            s,
            #[trigger] split_ws_from(s, i)[t],
        ) by {
            if t == 0 {
                assert(split_ws_from(s, i)[0] == s.subrange(i, j));
            } else {
                assert(split_ws_from(s, i)[t] == split_ws_from(s, j)[t - 1]);
            }
        }
    }
}

} // verus!
