//! Reading the decimal text in which the chain reports amounts and ratios.
use vstd::prelude::*;
use vstd::slice::slice_subrange;

verus! {

/// Number of fractional digits of a fixed-point ratio.
pub const FRACTION_DIGITS: u64 = 12;

/// One in fixed-point units.
pub const UNIT: u128 = 1_000_000_000_000;

pub open spec fn pow10(n: nat) -> nat
    decreases n,
{
    if n == 0 {
        1
    } else {
        10 * pow10((n - 1) as nat)
    }
}

pub open spec fn is_digit(c: char) -> bool {
    '0' <= c && c <= '9'
}

pub open spec fn digit_value(c: char) -> nat {
    (c as nat - '0' as nat) as nat
}

pub open spec fn all_digits(s: Seq<char>) -> bool {
    forall|i: int| 0 <= i < s.len() ==> #[trigger] is_digit(s[i])
}

/// The number that a string of decimal digits denotes.
pub open spec fn digits_value(s: Seq<char>) -> nat
    decreases s.len(),
{
    if s.len() == 0 {
        0
    } else {
        digits_value(s.drop_last()) * 10 + digit_value(s.last())
    }
}

/// A non-negative integer written in decimal digits, if `s` is one.
pub open spec fn integer_value(s: Seq<char>) -> Option<nat> {
    if s.len() > 0 && all_digits(s) {
        Some(digits_value(s))
    } else {
        None
    }
}

/// A non-negative decimal `d`, `d.f` with one to twelve fractional digits,
/// in fixed-point units of ten to the minus twelve.
pub open spec fn fixed_value(s: Seq<char>) -> Option<nat> {
    if integer_value(s).is_some() {
        Some(digits_value(s) * pow10(12))
    } else if exists|p: int| 0 < p < s.len() && s[p] == '.' && all_digits(s.take(p)) && all_digits(s.skip(p + 1))
        && 1 <= s.len() - p - 1 <= 12 {
        let p = choose|p: int| 0 < p < s.len() && s[p] == '.' && all_digits(s.take(p)) && all_digits(s.skip(p + 1))
            && 1 <= s.len() - p - 1 <= 12;
        Some(digits_value(s.take(p)) * pow10(12) + digits_value(s.skip(p + 1)) * pow10(
            (12 - (s.len() - p - 1)) as nat,
        ))
    } else {
        None
    }
}

proof fn lemma_digits_value_prefix(s: Seq<char>, i: int)
    requires
        0 <= i <= s.len(),
        all_digits(s),
    ensures
        digits_value(s.take(i)) <= digits_value(s),
    decreases s.len() - i,
{
    if i < s.len() {
        lemma_digits_value_prefix(s, i + 1);
        assert(s.take(i + 1).drop_last() =~= s.take(i));
    } else {
        assert(s.take(i) =~= s);
    }
}

/// The value of a decimal integer text that fits in a `u128`.
pub open spec fn u128_value(s: Seq<char>) -> Option<u128> {
    match integer_value(s) {
        Some(v) => if v <= u128::MAX {
            Some(v as u128)
        } else {
            None
        },
        None => None,
    }
}

/// The fixed-point value of a decimal text that fits in a `u128`.
pub open spec fn fixed_u128_value(s: Seq<char>) -> Option<u128> {
    match fixed_value(s) {
        Some(v) => if v <= u128::MAX {
            Some(v as u128)
        } else {
            None
        },
        None => None,
    }
}

/// Parses a non-negative decimal integer; `None` when the text is not one or
/// the value does not fit.
pub fn parse_integer(s: &str) -> (r: Option<u128>)
    ensures
        r == u128_value(s@),
{
    let n = s.unicode_len();
    if n == 0 {
        return None;
    }
    let mut acc: u128 = 0;
    let mut i: usize = 0;
    while i < n
        invariant
            n == s@.len(),
            i <= n,
            all_digits(s@.take(i as int)),
            acc == digits_value(s@.take(i as int)),
        decreases n - i,
    {
        let c = s.get_char(i);
        if !('0' <= c && c <= '9') {
            proof {
                assert(!is_digit(s@[i as int]));
                assert(!all_digits(s@));
            }
            return None;
        }
        let d = (c as u32 - '0' as u32) as u128;
        assert(s@.take(i + 1).drop_last() =~= s@.take(i as int));
        if acc > (u128::MAX - d) / 10 {
            proof {
                assert(digits_value(s@.take(i + 1)) > u128::MAX) by (nonlinear_arith)
                    requires
                        acc > (u128::MAX - d) / 10,
                        digits_value(s@.take(i + 1)) == acc * 10 + d,
                ;
                if all_digits(s@) {
                    lemma_digits_value_prefix(s@, i + 1);
                }
            }
            return None;
        }
        assert(acc * 10 + d <= u128::MAX) by (nonlinear_arith)
            requires
                acc <= (u128::MAX - d) / 10,
        ;
        acc = acc * 10 + d;
        i = i + 1;
    }
    assert(s@.take(n as int) =~= s@);
    Some(acc)
}

fn small_pow10(k: usize) -> (r: u128)
    requires
        k <= 12,
    ensures
        r == pow10(k as nat),
        1 <= r <= UNIT,
{
    let mut r: u128 = 1;
    let mut i: usize = 0;
    while i < k
        invariant
            i <= k <= 12,
            r == pow10(i as nat),
        decreases k - i,
    {
        proof {
            lemma_pow10_small(i as nat);
        }
        r = r * 10;
        i = i + 1;
    }
    proof {
        lemma_pow10_small(k as nat);
        lemma_pow10_mono(0, k as nat);
    }
    r
}

proof fn lemma_pow10_small(k: nat)
    requires
        k <= 12,
    ensures
        pow10(k) <= pow10(12),
        pow10(12) == UNIT,
{
    reveal_with_fuel(pow10, 13);
    assert(pow10(12) == 1_000_000_000_000);
    if k < 12 {
        lemma_pow10_mono(k, 12);
    }
}

proof fn lemma_pow10_mono(a: nat, b: nat)
    requires
        a <= b,
    ensures
        pow10(a) <= pow10(b),
    decreases b - a,
{
    if a < b {
        lemma_pow10_mono(a, (b - 1) as nat);
    }
}

/// Parses a non-negative decimal with at most twelve fractional digits into
/// fixed-point units; `None` when the text is not one or the value does not fit.
pub fn parse_fixed(s: &str) -> (r: Option<u128>)
    ensures
        r == fixed_u128_value(s@),
{
    let n = s.unicode_len();
    let mut p: usize = 0;
    while p < n && s.get_char(p) != '.'
        invariant
            n == s@.len(),
            p <= n,
            forall|j: int| 0 <= j < p ==> s@[j] != '.',
        decreases n - p,
    {
        p = p + 1;
    }
    let ghost sv = s@;
    if p == n {
        // no decimal point: a whole number
        proof {
            assert forall|q: int| 0 < q < sv.len() implies sv[q] != '.' by {}
        }
        let whole = parse_integer(s);
        match whole {
            Some(w) => {
                if w > u128::MAX / UNIT {
                    proof {
                        lemma_pow10_small(12);
                        assert(w * UNIT > u128::MAX) by (nonlinear_arith)
                            requires
                                w > u128::MAX / UNIT,
                                UNIT > 0,
                        ;
                    }
                    None
                } else {
                    proof {
                        lemma_pow10_small(12);
                        assert(w * UNIT <= u128::MAX) by (nonlinear_arith)
                            requires
                                w <= u128::MAX / UNIT,
                                UNIT > 0,
                        ;
                    }
                    Some(w * UNIT)
                }
            },
            None => {
                proof {
                    if integer_value(sv).is_some() {
                        lemma_pow10_small(12);
                        assert(digits_value(sv) * pow10(12) > u128::MAX) by (nonlinear_arith)
                            requires
                                digits_value(sv) > u128::MAX,
                                pow10(12) >= 1,
                        ;
                    }
                }
                None
            },
        }
    } else {
        proof {
            assert(sv[p as int] == '.');
            assert(!is_digit(sv[p as int]));
            assert(!all_digits(sv));
            // any decimal point with digits on both sides is this one
            assert forall|q: int|
                0 < q < sv.len() && sv[q] == '.' && all_digits(sv.take(q)) && all_digits(
                    sv.skip(q + 1),
                ) implies q == p by {
                if q < p {
                    assert(sv.skip(q + 1)[p - q - 1] == sv[p as int]);
                    assert(!is_digit(sv.skip(q + 1)[p - q - 1]));
                } else if q > p {
                    assert(sv.take(q)[p as int] == sv[p as int]);
                    assert(!is_digit(sv.take(q)[p as int]));
                }
            }
        }
        let flen = n - p - 1;
        if p == 0 || flen == 0 || flen > 12 {
            return None;
        }
        let whole = parse_integer(s.substring_char(0, p));
        let frac = parse_integer(s.substring_char(p + 1, n));
        proof {
            assert(sv.subrange(0, p as int) =~= sv.take(p as int));
            assert(sv.subrange(p + 1, n as int) =~= sv.skip(p + 1));
            lemma_pow10_small(12);
        }
        match (whole, frac) {
            (Some(w), Some(f)) => {
                let scale = small_pow10(12 - flen);
                proof {
                    assert(digits_value(sv.skip(p + 1)) < pow10(flen as nat)) by {
                        lemma_digits_bound(sv.skip(p + 1));
                    }
                    lemma_pow10_add(flen as nat, (12 - flen) as nat);
                    assert(f * scale < UNIT) by (nonlinear_arith)
                        requires
                            f < pow10(flen as nat),
                            scale > 0,
                            pow10(flen as nat) * scale == UNIT,
                    ;
                    assert(fixed_value(sv) == Some((w * pow10(12) + f * scale) as nat));
                }
                let fs = f * scale;
                if w > (u128::MAX - fs) / UNIT {
                    proof {
                        assert(w * UNIT + fs > u128::MAX) by (nonlinear_arith)
                            requires
                                w > (u128::MAX - fs) as int / UNIT as int,
                                UNIT == 1_000_000_000_000,
                                fs < UNIT,
                        ;
                    }
                    return None;
                }
                proof {
                    assert(w * UNIT + fs <= u128::MAX) by (nonlinear_arith)
                        requires
                            w <= (u128::MAX - fs) as int / UNIT as int,
                            UNIT == 1_000_000_000_000,
                            fs < UNIT,
                    ;
                }
                Some(w * UNIT + fs)
            },
            _ => {
                proof {
                    if fixed_value(sv).is_some() {
                        assert(integer_value(sv.take(p as int)).is_some());
                        assert(integer_value(sv.skip(p + 1)).is_some());
                        if whole.is_none() {
                            assert(digits_value(sv.take(p as int)) * pow10(12) > u128::MAX)
                                by (nonlinear_arith)
                                requires
                                    digits_value(sv.take(p as int)) > u128::MAX,
                                    pow10(12) >= 1,
                            ;
                        } else {
                            lemma_digits_bound(sv.skip(p + 1));
                            lemma_pow10_small(flen as nat);
                            assert(false);
                        }
                    }
                }
                None
            },
        }
    }
}

proof fn lemma_digits_bound(s: Seq<char>)
    requires
        all_digits(s),
    ensures
        digits_value(s) < pow10(s.len()),
    decreases s.len(),
{
    if s.len() > 0 {
        let t = s.drop_last();
        assert(all_digits(t)) by {
            assert forall|i: int| 0 <= i < t.len() implies is_digit(t[i]) by {
                assert(t[i] == s[i]);
            }
        }
        lemma_digits_bound(t);
        assert(is_digit(s[s.len() - 1]));
        assert(digits_value(s) < pow10(s.len())) by (nonlinear_arith)
            requires
                digits_value(s) == digits_value(t) * 10 + digit_value(s.last()),
                digit_value(s.last()) <= 9,
                digits_value(t) < pow10(t.len()),
                pow10(s.len()) == 10 * pow10(t.len()),
        ;
    }
}

proof fn lemma_pow10_add(a: nat, b: nat)
    ensures
        pow10(a) * pow10(b) == pow10(a + b),
    decreases a,
{
    if a > 0 {
        lemma_pow10_add((a - 1) as nat, b);
        assert(pow10(a + b) == 10 * pow10(((a - 1) + b) as nat));
        assert(pow10(a) * pow10(b) == 10 * (pow10((a - 1) as nat) * pow10(b))) by (nonlinear_arith)
            requires
                pow10(a) == 10 * pow10((a - 1) as nat),
        ;
    } else {
        assert(pow10(0) == 1);
        assert(a + b == b);
    }
}

} // verus!
