//! Fixed-point conventions shared by the whole crate.
//!
//! A price or a ratio is a `u128` holding millionths: `SCALE` stands for
//! `1.0`, so `0.5%` is `5_000` and `1%` is `10_000`. Token amounts and
//! reserves are plain `u64` unit counts. Timestamps are `i64` milliseconds
//! since the Unix epoch.

use vstd::prelude::*;

verus! {

/// One, in millionths: the unit of every price, percentage and multiplier.
pub const SCALE: u128 = 1_000_000;

/// Milliseconds in one second.
pub const MILLIS_PER_SECOND: i64 = 1_000;

/// Milliseconds in one hour.
pub const MILLIS_PER_HOUR: i64 = 3_600_000;

/// Milliseconds in one day.
pub const MILLIS_PER_DAY: i64 = 86_400_000;

/// Upper bound accepted for timestamps: the year 9999, in milliseconds.
/// Keeps every sum of a timestamp and a bounded duration inside `i64`.
pub const MAX_TIMESTAMP_MILLIS: i64 = 253_402_300_799_999;

/// A timestamp the crate's arithmetic accepts.
pub open spec fn valid_timestamp(t: int) -> bool {
    0 <= t <= MAX_TIMESTAMP_MILLIS
}

/// The largest price value a pool can produce: a `u64` reserve scaled up.
pub open spec fn max_price() -> int {
    u64::MAX * SCALE
}

/// Truncating division on mathematical integers, guarded against a zero
/// denominator the way the executable code guards it.
pub open spec fn div_or_zero(n: int, d: int) -> int {
    if d > 0 {
        n / d
    } else {
        0
    }
}

/// Division by a positive divisor never exceeds the dividend's quotient bound:
/// if `n <= b * d` then `n / d <= b`.
pub proof fn lemma_div_bound(n: int, d: int, b: int)
    requires
        0 <= n,
        0 < d,
        0 <= b,
        n <= b * d,
    ensures
        n / d <= b,
{
    assert(n / d <= b) by (nonlinear_arith)
        requires
            0 <= n,
            0 < d,
            0 <= b,
            n <= b * d,
    ;
}

/// Division by a positive divisor keeps any multiple below the dividend:
/// if `b * d <= n` then `b <= n / d`.
pub proof fn lemma_div_lower(n: int, d: int, b: int)
    requires
        0 <= b,
        0 < d,
        b * d <= n,
    ensures
        b <= n / d,
{
    assert(b <= n / d) by (nonlinear_arith)
        requires
            0 <= b,
            0 < d,
            b * d <= n,
    ;
}

/// A product of two values each below a bound stays below the product of
/// the bounds.
pub proof fn lemma_mul_bounds(a: int, b: int, ca: int, cb: int)
    requires
        0 <= a <= ca,
        0 <= b <= cb,
    ensures
        a * b <= ca * cb,
{
    assert(a * b <= ca * cb) by (nonlinear_arith)
        requires
            0 <= a <= ca,
            0 <= b <= cb,
    ;
}

} // verus!
