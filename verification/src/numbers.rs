//! Verified parsers for the numeric shapes CSS values use: unsigned
//! integers, signed integers, and decimal fractions.
//!
//! Decimal fractions are represented in fixed point, as a count of
//! millionths (`MICROS` per whole unit), so that values such as `1.5`
//! or `0.1` have exact integer representations.

use vstd::prelude::*;

use crate::chars::{digit, digit_val, is_digit};

verus! {

/// Fixed-point scale: number of micro-units in one whole unit.
pub const MICROS: i64 = 1_000_000;

pub open spec fn all_digits(s: Seq<char>) -> bool {
    forall|i: int| 0 <= i < s.len() ==> is_digit(#[trigger] s[i])
}

/// The numeric value of a digit string, read left to right.
pub open spec fn digits_nat(s: Seq<char>) -> nat
    decreases s.len(),
{
    if s.len() == 0 {
        0
    } else {
        digits_nat(s.drop_last()) * 10 + if 0 <= digit_val(s.last()) {
            digit_val(s.last()) as nat
        } else {
            0
        }
    }
}

pub open spec fn pow10(n: nat) -> nat
    decreases n,
{
    if n == 0 {
        1
    } else {
        10 * pow10((n - 1) as nat)
    }
}

pub proof fn lemma_digits_nat_bound(s: Seq<char>)
    requires
        all_digits(s),
    ensures
        digits_nat(s) < pow10(s.len()),
    decreases s.len(),
{
    if s.len() > 0 {
        assert(all_digits(s.drop_last())) by {
            assert(forall|i: int| 0 <= i < s.len() - 1 ==> s.drop_last()[i] == s[i]);
        }
        lemma_digits_nat_bound(s.drop_last());
        assert(is_digit(s[s.len() - 1]));
        assert(digit_val(s.last()) <= 9);
    }
}

/// `u64::from_str` on `s`: an optional `+`, then one or more digits,
/// rejected when the value exceeds `u64::MAX`.
pub open spec fn spec_parse_u64(s: Seq<char>) -> Option<u64> {
    let rest = if s.len() > 0 && s[0] == '+' {
        s.subrange(1, s.len() as int)
    } else {
        s
    };
    if rest.len() > 0 && all_digits(rest) && digits_nat(rest) <= u64::MAX {
        Some(digits_nat(rest) as u64)
    } else {
        None
    }
}

/// Digit accumulation over `s[from..]`, tracking overflow past `u64::MAX`
/// exactly. Returns `None` when a non-digit occurs, `Some(None)` on
/// overflow, `Some(Some(v))` otherwise.
fn digits_u64(s: &str, from: usize) -> (r: Option<Option<u64>>)
    requires
        from <= s@.len(),
    ensures
        ({
            let d = s@.subrange(from as int, s@.len() as int);
            match r {
                None => !all_digits(d),
                Some(None) => all_digits(d) && digits_nat(d) > u64::MAX,
                Some(Some(v)) => all_digits(d) && digits_nat(d) <= u64::MAX && v == digits_nat(d),
            }
        }),
{
    let ghost d = s@.subrange(from as int, s@.len() as int);
    let n = s.unicode_len();
    let mut i = from;
    let mut acc: u64 = 0;
    let mut over = false;
    while i < n
        invariant
            from <= i <= n,
            n == s@.len(),
            d == s@.subrange(from as int, s@.len() as int),
            all_digits(s@.subrange(from as int, i as int)),
            over ==> digits_nat(s@.subrange(from as int, i as int)) > u64::MAX,
            !over ==> acc == digits_nat(s@.subrange(from as int, i as int)),
        decreases n - i,
    {
        let c = s.get_char(i);
        if !digit(c) {
            proof {
                assert(d[i - from] == s@[i as int]);
            }
            return None;
        }
        let dv = (c as u32) - 48;
        let ghost pre = s@.subrange(from as int, i as int);
        let ghost post = s@.subrange(from as int, i + 1);
        proof {
            assert(post.drop_last() =~= pre);
            assert(post.last() == s@[i as int]);
        }
        if !over {
            if acc > 1844674407370955161u64 || (acc == 1844674407370955161u64 && dv > 5) {
                over = true;
                proof {
                    assert(digits_nat(post) == digits_nat(pre) * 10 + digit_val(post.last()));
                    assert(digits_nat(pre) * 10 > u64::MAX - 9 || digits_nat(pre) * 10 + 6
                        > u64::MAX);
                }
            } else {
                acc = acc * 10 + (dv as u64);
            }
        } else {
            proof {
                assert(digits_nat(post) == digits_nat(pre) * 10 + digit_val(post.last()));
                assert(digits_nat(pre) * 10 >= digits_nat(pre));
            }
        }
        i += 1;
    }
    proof {
        assert(s@.subrange(from as int, i as int) =~= d);
    }
    if over {
        Some(None)
    } else {
        Some(Some(acc))
    }
}

/// `u64::from_str`, proved against `spec_parse_u64`.
pub fn parse_u64_str(s: &str) -> (r: Option<u64>)
    ensures
        r == spec_parse_u64(s@),
{
    let n = s.unicode_len();
    if n == 0 {
        return None;
    }
    let start: usize = if s.get_char(0) == '+' {
        1
    } else {
        0
    };
    if n == start {
        proof {
            assert(s@.subrange(1, s@.len() as int).len() == 0);
        }
        return None;
    }
    let ghost rest = if s@[0] == '+' {
        s@.subrange(1, s@.len() as int)
    } else {
        s@
    };
    proof {
        assert(s@.subrange(0, s@.len() as int) =~= s@);
        assert(rest =~= s@.subrange(start as int, s@.len() as int));
    }
    match digits_u64(s, start) {
        None => None,
        Some(None) => None,
        Some(Some(v)) => Some(v),
    }
}

/// `i32::from_str` on `s`: an optional sign, then one or more digits,
/// rejected outside the `i32` range.
pub open spec fn spec_parse_i32(s: Seq<char>) -> Option<i32> {
    let neg = s.len() > 0 && s[0] == '-';
    let rest = if s.len() > 0 && (s[0] == '+' || s[0] == '-') {
        s.subrange(1, s.len() as int)
    } else {
        s
    };
    if rest.len() > 0 && all_digits(rest) {
        let m = digits_nat(rest);
        if neg && m <= 2147483648 {
            Some((-(m as int)) as i32)
        } else if !neg && m <= 2147483647 {
            Some(m as i32)
        } else {
            None
        }
    } else {
        None
    }
}

/// `str::parse::<i32>`, proved against `spec_parse_i32`.
pub fn parse_i32(s: &str) -> (r: Option<i32>)
    ensures
        r == spec_parse_i32(s@),
{
    let n = s.unicode_len();
    if n == 0 {
        return None;
    }
    let c0 = s.get_char(0);
    let neg = c0 == '-';
    let start: usize = if c0 == '+' || c0 == '-' {
        1
    } else {
        0
    };
    if n == start {
        proof {
            assert(s@.subrange(1, s@.len() as int).len() == 0);
        }
        return None;
    }
    let ghost rest = if s@[0] == '+' || s@[0] == '-' {
        s@.subrange(1, s@.len() as int)
    } else {
        s@
    };
    proof {
        assert(s@.subrange(0, s@.len() as int) =~= s@);
        assert(rest =~= s@.subrange(start as int, s@.len() as int));
    }
    match digits_u64(s, start) {
        None => None,
        Some(None) => None,
        Some(Some(v)) => {
            if neg {
                if v <= 2147483648u64 {
                    Some((-(v as i64)) as i32)
                } else {
                    None
                }
            } else {
                if v <= 2147483647u64 {
                    Some(v as i32)
                } else {
                    None
                }
            }
        },
    }
}

/// Value in micro-units of the fraction digits `f` (at most the first six
/// digits carry; deeper digits are truncated away).
pub open spec fn frac_micros(f: Seq<char>) -> nat {
    if f.len() >= 6 {
        digits_nat(f.subrange(0, 6))
    } else {
        digits_nat(f) * pow10((6 - f.len()) as nat)
    }
}

/// First index of `c` in `s` at or after `i`, or the length of `s`.
pub open spec fn find_char(s: Seq<char>, c: char, i: int) -> int
    decreases s.len() - i,
{
    if i < 0 || i >= s.len() {
        s.len() as int
    } else if s[i] == c {
        i
    } else {
        find_char(s, c, i + 1)
    }
}

pub proof fn lemma_find_char_bounds(s: Seq<char>, c: char, i: int)
    requires
        0 <= i <= s.len(),
    ensures
        i <= find_char(s, c, i) <= s.len(),
        find_char(s, c, i) < s.len() ==> s[find_char(s, c, i)] == c,
        forall|j: int| i <= j < find_char(s, c, i) ==> s[j] != c,
    decreases s.len() - i,
{
    if i < s.len() && s[i] != c {
        lemma_find_char_bounds(s, c, i + 1);
    }
}

pub fn find_char_exec(s: &str, c: char, i: usize) -> (j: usize)
    requires
        i <= s@.len(),
    ensures
        j == find_char(s@, c, i as int),
        i <= j <= s@.len(),
        j < s@.len() ==> s@[j as int] == c,
{
    let n = s.unicode_len();
    let mut j = i;
    while j < n && s.get_char(j) != c
        invariant
            i <= j <= n,
            n == s@.len(),
            find_char(s@, c, i as int) == find_char(s@, c, j as int),
        decreases n - j,
    {
        j += 1;
    }
    j
}

/// A decimal number in micro-units: an optional sign, then digits with at
/// most one point, in the style `f32::from_str` accepts (`10`, `1.5`,
/// `.5`, `5.`). Fraction digits past the sixth are truncated; numbers with
/// more than twelve integer digits are rejected.
pub open spec fn spec_parse_micros(s: Seq<char>) -> Option<i64> {
    let neg = s.len() > 0 && s[0] == '-';
    let rest = if s.len() > 0 && (s[0] == '+' || s[0] == '-') {
        s.subrange(1, s.len() as int)
    } else {
        s
    };
    let dot = find_char(rest, '.', 0);
    let ip = rest.subrange(0, dot);
    let fp = if dot < rest.len() {
        rest.subrange(dot + 1, rest.len() as int)
    } else {
        Seq::empty()
    };
    if all_digits(ip) && all_digits(fp) && ip.len() + fp.len() >= 1 && ip.len() <= 12 {
        let m = digits_nat(ip) * 1_000_000 + frac_micros(fp);
        if neg {
            Some((-(m as int)) as i64)
        } else {
            Some(m as i64)
        }
    } else {
        None
    }
}

/// Digit run value over `s[from..to]` capped at twelve digits; `None` when a
/// non-digit occurs in the range.
fn digits_span(s: &str, from: usize, to: usize) -> (r: Option<Option<u64>>)
    requires
        from <= to <= s@.len(),
    ensures
        ({
            let d = s@.subrange(from as int, to as int);
            match r {
                None => !all_digits(d),
                Some(None) => all_digits(d) && d.len() > 12,
                Some(Some(v)) => all_digits(d) && d.len() <= 12 && v == digits_nat(d) && v
                    < 1_000_000_000_000,
            }
        }),
{
    let ghost d = s@.subrange(from as int, to as int);
    if to - from > 12 {
        let mut i = from;
        while i < to
            invariant
                from <= i <= to <= s@.len(),
                all_digits(s@.subrange(from as int, i as int)),
            decreases to - i,
        {
            let c = s.get_char(i);
            proof {
                assert(s@.subrange(from as int, i + 1).drop_last() =~= s@.subrange(
                    from as int,
                    i as int,
                ));
                assert(s@.subrange(from as int, i + 1).last() == s@[i as int]);
            }
            if !digit(c) {
                proof {
                    assert(d[i - from] == s@[i as int]);
                }
                return None;
            }
            i += 1;
        }
        proof {
            assert(s@.subrange(from as int, i as int) =~= d);
        }
        return Some(None);
    }
    let mut i = from;
    let mut acc: u64 = 0;
    while i < to
        invariant
            from <= i <= to <= s@.len(),
            to - from <= 12,
            all_digits(s@.subrange(from as int, i as int)),
            acc == digits_nat(s@.subrange(from as int, i as int)),
            acc < pow10((i - from) as nat),
        decreases to - i,
    {
        let c = s.get_char(i);
        if !digit(c) {
            proof {
                assert(d[i - from] == s@[i as int]);
            }
            return None;
        }
        let dv = (c as u32) - 48;
        proof {
            assert(s@.subrange(from as int, i + 1).drop_last() =~= s@.subrange(
                from as int,
                i as int,
            ));
            assert(s@.subrange(from as int, i + 1).last() == s@[i as int]);
            lemma_pow10_le_12((i + 1 - from) as nat);
        }
        acc = acc * 10 + (dv as u64);
        i += 1;
    }
    proof {
        assert(s@.subrange(from as int, i as int) =~= d);
        lemma_pow10_le_12((to - from) as nat);
    }
    Some(Some(acc))
}

/// Concrete values of `pow10` up to twelve digits.
proof fn lemma_pow10_le_12(n: nat)
    requires
        n <= 12,
    ensures
        pow10(n) <= 1_000_000_000_000,
        pow10(0) == 1,
        pow10(6) == 1_000_000,
    decreases n,
{
    assert(pow10(0) == 1);
    assert(pow10(1) == 10);
    assert(pow10(2) == 100);
    assert(pow10(3) == 1000);
    assert(pow10(4) == 10000);
    assert(pow10(5) == 100000);
    assert(pow10(6) == 1000000);
    assert(pow10(7) == 10000000);
    assert(pow10(8) == 100000000);
    assert(pow10(9) == 1000000000);
    assert(pow10(10) == 10000000000);
    assert(pow10(11) == 100000000000);
    assert(pow10(12) == 1000000000000);
}

/// Decimal parser in micro-units, proved against `spec_parse_micros`.
pub fn parse_micros(s: &str) -> (r: Option<i64>)
    ensures
        r == spec_parse_micros(s@),
{
    let n = s.unicode_len();
    let start: usize = if n > 0 && (s.get_char(0) == '+' || s.get_char(0) == '-') {
        1
    } else {
        0
    };
    let neg = n > 0 && s.get_char(0) == '-';
    let ghost rest = if s@.len() > 0 && (s@[0] == '+' || s@[0] == '-') {
        s@.subrange(1, s@.len() as int)
    } else {
        s@
    };
    proof {
        assert(s@.subrange(0, s@.len() as int) =~= s@);
    }
    let dot = find_char_exec(s, '.', start);
    proof {
        lemma_find_char_shift(s@, '.', start as int);
        assert(rest =~= s@.subrange(start as int, s@.len() as int));
    }
    let ghost dotr = find_char(rest, '.', 0);
    proof {
        assert(dotr == dot - start);
        assert(rest.subrange(0, dotr) =~= s@.subrange(start as int, dot as int));
        if dotr < rest.len() {
            assert(rest.subrange(dotr + 1, rest.len() as int) =~= s@.subrange(
                dot + 1,
                s@.len() as int,
            ));
        }
    }
    let ip = digits_span(s, start, dot);
    let fp: Option<Option<u64>> = if dot < n {
        match digits_frac(s, dot + 1) {
            None => None,
            Some(v) => Some(Some(v)),
        }
    } else {
        proof {
            assert(frac_micros(Seq::empty()) == 0) by {
                assert(digits_nat(Seq::<char>::empty()) == 0);
                lemma_pow10_le_12(6);
            }
        }
        Some(Some(0))
    };
    match (ip, fp) {
        (Some(Some(iv)), Some(Some(fv))) => {
            if dot == start && dot >= n {
                // no digits at all
                return None;
            }
            if dot == start && dot + 1 >= n {
                // a bare point, or a sign and a point
                proof {
                    if dotr < rest.len() {
                        assert(rest.subrange(dotr + 1, rest.len() as int).len() == 0);
                    }
                }
                return None;
            }
            proof {
                lemma_pow10_le_12(12);
                lemma_digits_nat_bound(s@.subrange(start as int, dot as int));
            }
            let m: i64 = (iv as i64) * MICROS + (fv as i64);
            if neg {
                Some(-m)
            } else {
                Some(m)
            }
        },
        _ => None,
    }
}

/// `find_char` over a suffix agrees with `find_char` over the whole string.
proof fn lemma_find_char_shift(s: Seq<char>, c: char, start: int)
    requires
        0 <= start <= s.len(),
    ensures
        find_char(s.subrange(start, s.len() as int), c, 0) == find_char(s, c, start) - start,
{
    lemma_find_char_shift_gen(s, c, start, start);
}

proof fn lemma_find_char_shift_gen(s: Seq<char>, c: char, start: int, i: int)
    requires
        0 <= start <= i <= s.len(),
    ensures
        find_char(s.subrange(start, s.len() as int), c, i - start) == find_char(s, c, i) - start,
    decreases s.len() - i,
{
    let sub = s.subrange(start, s.len() as int);
    if i < s.len() {
        assert(sub[i - start] == s[i]);
        if s[i] != c {
            lemma_find_char_shift_gen(s, c, start, i + 1);
        }
    }
}

/// Value in micro-units of the fraction digits `s[from..]`, truncated past
/// the sixth digit; `None` when a non-digit occurs.
fn digits_frac(s: &str, from: usize) -> (r: Option<u64>)
    requires
        from <= s@.len(),
    ensures
        ({
            let f = s@.subrange(from as int, s@.len() as int);
            match r {
                None => !all_digits(f),
                Some(v) => all_digits(f) && v == frac_micros(f) && v < 1_000_000,
            }
        }),
{
    let ghost f = s@.subrange(from as int, s@.len() as int);
    let n = s.unicode_len();
    // validate every fraction digit
    let mut i = from;
    while i < n
        invariant
            from <= i <= n,
            n == s@.len(),
            all_digits(s@.subrange(from as int, i as int)),
        decreases n - i,
    {
        let c = s.get_char(i);
        proof {
            assert(s@.subrange(from as int, i + 1).drop_last() =~= s@.subrange(
                from as int,
                i as int,
            ));
            assert(s@.subrange(from as int, i + 1).last() == s@[i as int]);
        }
        if !digit(c) {
            proof {
                assert(f[i - from] == s@[i as int]);
            }
            return None;
        }
        i += 1;
    }
    proof {
        assert(s@.subrange(from as int, i as int) =~= f);
    }
    // value of the first six digits, padded with zeroes on the right
    let take: usize = if n - from >= 6 {
        6
    } else {
        n - from
    };
    let ghost head = s@.subrange(from as int, from + take);
    proof {
        assert(all_digits(head)) by {
            assert(forall|j: int| 0 <= j < head.len() ==> head[j] == f[j]);
        }
        if f.len() >= 6 {
            assert(head =~= f.subrange(0, 6));
        } else {
            assert(head =~= f);
        }
    }
    match digits_span(s, from, from + take) {
        Some(Some(v)) => {
            let mut v = v;
            let mut pad = take;
            proof {
                lemma_digits_nat_bound(head);
                lemma_pow10_le_12(take as nat);
                assert(digits_nat(head) * 1 == digits_nat(head));
                assert(v == digits_nat(head) * pow10((pad - take) as nat));
            }
            while pad < 6
        invariant
            0 <= pad <= 6,
            v == digits_nat(head) * pow10((pad - take) as nat),
            take <= pad,
            v < pow10(pad as nat),
        decreases 6 - pad,
            {
                proof {
                    lemma_pow10_le_12((pad + 1) as nat);
                    lemma_pow10_le_12(pad as nat);
                    assert(pow10((pad + 1 - take) as nat) == 10 * pow10((pad - take) as nat));
                    assert(digits_nat(head) * (10 * pow10((pad - take) as nat)) == (digits_nat(
                        head,
                    ) * pow10((pad - take) as nat)) * 10) by (nonlinear_arith);
                }
                v = v * 10;
                pad += 1;
            }
            proof {
                lemma_pow10_le_12(6);
                if f.len() >= 6 {
                    assert(frac_micros(f) == digits_nat(head));
                    assert(pow10(0) == 1);
                } else {
                    assert(frac_micros(f) == digits_nat(head) * pow10((6 - take) as nat));
                }
            }
            Some(v)
        },
        _ => {
            proof {
                assert(all_digits(head));
                assert(head.len() <= 6);
                assert(false);
            }
            None
        },
    }
}

} // verus!
