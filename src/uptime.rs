//! Uptime over the liveness window.
use vstd::prelude::*;
use crate::decimal::UNIT;

verus! {

/// `n / d` rounded to the nearest integer, halves away from zero.
pub open spec fn round_ratio(n: int, d: int) -> int
    recommends
        d > 0,
{
    if n >= 0 {
        (2 * n + d) / (2 * d)
    } else {
        -((-2 * n + d) / (2 * d))
    }
}

/// The most blocks that may be missed in a window of `window` blocks, when a
/// fraction `threshold / UNIT` of them must be signed; scaled by `UNIT`.
pub open spec fn max_missed_scaled(window: nat, threshold: nat) -> int {
    window * (UNIT - threshold)
}

/// `(1 - missed / max_missed) * 100` as the fraction `n / d`: its numerator.
pub open spec fn uptime_numerator(window: nat, threshold: nat, missed: nat) -> int {
    100 * (max_missed_scaled(window, threshold) - missed * UNIT)
}

/// Uptime in percent, `round((1 - missed / (window * (1 - threshold))) * 100)`,
/// the threshold given in units of `1 / UNIT`.
pub open spec fn uptime_value(window: nat, threshold: nat, missed: nat) -> int {
    round_ratio(uptime_numerator(window, threshold, missed), max_missed_scaled(window, threshold))
}

/// The uptime is the integer nearest to the exact percentage: it lies within
/// one half of `(1 - missed / max_missed) * 100`, and may be negative.
pub proof fn lemma_uptime_nearest(window: nat, threshold: nat, missed: nat)
    requires
        window > 0,
        threshold < UNIT,
    ensures
        ({
            let n = uptime_numerator(window, threshold, missed);
            let d = max_missed_scaled(window, threshold);
            let r = uptime_value(window, threshold, missed);
            &&& d > 0
            &&& 2 * (n - r * d) <= d
            &&& 2 * (r * d - n) <= d
        }),
{
    let n = uptime_numerator(window, threshold, missed);
    let d = max_missed_scaled(window, threshold);
    assert(d > 0) by (nonlinear_arith)
        requires
            d == window * (UNIT - threshold),
            window > 0,
            threshold < UNIT,
    ;
    lemma_round_ratio_nearest(n, d);
}

proof fn lemma_round_ratio_nearest(n: int, d: int)
    requires
        d > 0,
    ensures
        2 * (n - round_ratio(n, d) * d) <= d,
        2 * (round_ratio(n, d) * d - n) <= d,
{
    if n >= 0 {
        let q = (2 * n + d) / (2 * d);
        vstd::arithmetic::div_mod::lemma_fundamental_div_mod(2 * n + d, 2 * d);
        let m = (2 * n + d) % (2 * d);
        assert(0 <= m < 2 * d);
        assert(2 * n + d == 2 * d * q + m);
        assert(2 * (n - q * d) <= d) by (nonlinear_arith)
            requires
                2 * n + d == 2 * d * q + m,
                m < 2 * d,
        ;
        assert(2 * (q * d - n) <= d) by (nonlinear_arith)
            requires
                2 * n + d == 2 * d * q + m,
                0 <= m,
        ;
    } else {
        let q = (-2 * n + d) / (2 * d);
        vstd::arithmetic::div_mod::lemma_fundamental_div_mod(-2 * n + d, 2 * d);
        let m = (-2 * n + d) % (2 * d);
        assert(0 <= m < 2 * d);
        assert(-2 * n + d == 2 * d * q + m);
        assert(2 * (n - (-q) * d) <= d) by (nonlinear_arith)
            requires
                -2 * n + d == 2 * d * q + m,
                0 <= m,
        ;
        assert(2 * ((-q) * d - n) <= d) by (nonlinear_arith)
            requires
                -2 * n + d == 2 * d * q + m,
                m < 2 * d,
        ;
    }
}

/// The uptime percentage of a validator that missed `missed` blocks.
pub fn uptime_percentage(window: u64, threshold: u128, missed: u64) -> (r: i128)
    requires
        window > 0,
        threshold < UNIT,
    ensures
        r == uptime_value(window as nat, threshold as nat, missed as nat),
{
    let ghost gd = max_missed_scaled(window as nat, threshold as nat);
    let ghost gn = uptime_numerator(window as nat, threshold as nat, missed as nat);
    assert(0 < gd < 0x1_0000_0000_0000_0000_0000_0000_0000) by (nonlinear_arith)
        requires
            gd == window * (UNIT - threshold),
            window > 0,
            window < 0x1_0000_0000_0000_0000,
            threshold < UNIT,
            UNIT == 1_000_000_000_000,
    ;
    assert(missed * UNIT < 0x1_0000_0000_0000_0000_0000_0000_0000) by (nonlinear_arith)
        requires
            missed < 0x1_0000_0000_0000_0000,
            UNIT == 1_000_000_000_000,
    ;
    let d: i128 = (window as i128) * ((UNIT - threshold) as i128);
    let n: i128 = 100 * (d - (missed as i128) * (UNIT as i128));
    assert(d == gd);
    assert(n == gn);
    if n >= 0 {
        let q = ((2 * n + d) as u128) / ((2 * d) as u128);
        q as i128
    } else {
        let q = ((-2 * n + d) as u128) / ((2 * d) as u128);
        -(q as i128)
    }
}

/// Saturating conversion to `i64`.
pub open spec fn clamp_i64(v: int) -> i64 {
    if v > i64::MAX {
        i64::MAX
    } else if v < i64::MIN {
        i64::MIN
    } else {
        v as i64
    }
}

pub fn saturate_i64(v: i128) -> (r: i64)
    ensures
        r == clamp_i64(v as int),
{
    if v > i64::MAX as i128 {
        i64::MAX
    } else if v < i64::MIN as i128 {
        i64::MIN
    } else {
        v as i64
    }
}

} // verus!
