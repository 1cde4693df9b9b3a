//! Integer series helpers: percentage change, averages and drawdown over
//! plain `u64` values, with ratios in millionths.

use vstd::prelude::*;
use crate::units::SCALE;

verus! {

/// Sum of a window `[start, start + len)` of a series.
pub open spec fn spec_window_sum(s: Seq<u64>, start: int, len: int) -> int
    decreases len,
{
    if len <= 0 {
        0
    } else {
        spec_window_sum(s, start, len - 1) + s[start + len - 1]
    }
}

/// The relative change from `old_value` to `new_value`, in millionths,
/// truncated toward zero; zero when the base is zero.
pub open spec fn spec_percentage_change(old_value: int, new_value: int) -> int {
    if old_value == 0 {
        0
    } else if new_value >= old_value {
        ((new_value - old_value) * SCALE as int) / old_value
    } else {
        -(((old_value - new_value) * SCALE as int) / old_value)
    }
}

/// Math helpers over integer series.
pub struct MathUtils;

impl MathUtils {
    /// The relative change from `old_value` to `new_value`, in
    /// millionths; zero when the base is zero.
    pub fn calculate_percentage_change(old_value: u64, new_value: u64) -> (r: i128)
        ensures
            r as int == spec_percentage_change(old_value as int, new_value as int),
    {
        if old_value == 0 {
            return 0;
        }
        proof {
            crate::units::lemma_mul_bounds(
                u64::MAX as int,
                SCALE as int,
                u64::MAX as int,
                SCALE as int,
            );
        }
        if new_value >= old_value {
            let diff: u128 = (new_value - old_value) as u128;
            proof {
                crate::units::lemma_mul_bounds(
                    diff as int,
                    SCALE as int,
                    u64::MAX as int,
                    SCALE as int,
                );
                assert(diff as int * SCALE as int <= diff as int * SCALE as int * old_value as int)
                    by (nonlinear_arith)
                    requires
                        old_value >= 1,
                        diff >= 0,
                ;
                crate::units::lemma_div_bound(
                    diff as int * SCALE as int,
                    old_value as int,
                    diff as int * SCALE as int,
                );
            }
            ((diff * SCALE) / (old_value as u128)) as i128
        } else {
            let diff: u128 = (old_value - new_value) as u128;
            proof {
                crate::units::lemma_mul_bounds(
                    diff as int,
                    SCALE as int,
                    u64::MAX as int,
                    SCALE as int,
                );
                assert(diff as int * SCALE as int <= diff as int * SCALE as int * old_value as int)
                    by (nonlinear_arith)
                    requires
                        old_value >= 1,
                        diff >= 0,
                ;
                crate::units::lemma_div_bound(
                    diff as int * SCALE as int,
                    old_value as int,
                    diff as int * SCALE as int,
                );
            }
            -(((diff * SCALE) / (old_value as u128)) as i128)
        }
    }

    /// The weighted average of a series: the weighted sum over the
    /// weight total, `None` on mismatched or empty inputs or a zero
    /// weight total.
    pub fn weighted_average(values: &Vec<u64>, weights: &Vec<u64>) -> (r: Option<u64>)
        requires
            spec_weighted_sum(values@, weights@, values@.len() as int) <= u128::MAX,
            spec_weight_total(weights@, weights@.len() as int) <= u128::MAX,
        ensures
            (values@.len() != weights@.len() || values@.len() == 0 || spec_weight_total(
                weights@,
                weights@.len() as int,
            ) == 0) ==> r is None,
            (values@.len() == weights@.len() && values@.len() > 0 && spec_weight_total(
                weights@,
                weights@.len() as int,
            ) > 0) ==> r is Some && r->0 as int == spec_weighted_sum(
                values@,
                weights@,
                values@.len() as int,
            ) / spec_weight_total(weights@, weights@.len() as int),
    {
        if values.len() != weights.len() || values.len() == 0 {
            return None;
        }
        let n = values.len();
        let mut sum: u128 = 0;
        let mut total: u128 = 0;
        let mut i: usize = 0;
        while i < n
            invariant
                0 <= i <= n,
                n == values@.len(),
                n == weights@.len(),
                spec_weighted_sum(values@, weights@, n as int) <= u128::MAX,
                spec_weight_total(weights@, n as int) <= u128::MAX,
                sum == spec_weighted_sum(values@, weights@, i as int),
                total == spec_weight_total(weights@, i as int),
            decreases n - i,
        {
            proof {
                crate::units::lemma_mul_bounds(
                    values@[i as int] as int,
                    weights@[i as int] as int,
                    u64::MAX as int,
                    u64::MAX as int,
                );
                lemma_weighted_prefix_le(values@, weights@, i + 1, n as int);
            }
            sum = sum + values[i] as u128 * weights[i] as u128;
            total = total + weights[i] as u128;
            i = i + 1;
        }
        if total == 0 {
            return None;
        }
        proof {
            assert(sum as int <= sum as int * total as int) by (nonlinear_arith)
                requires
                    total >= 1,
                    sum >= 0,
            ;
            crate::units::lemma_div_bound(sum as int, total as int, sum as int);
            lemma_weighted_avg_fits(values@, weights@, n as int);
            crate::units::lemma_div_bound(sum as int, total as int, u64::MAX as int);
        }
        Some((sum / total) as u64)
    }

    /// The simple moving average of the series under the given window:
    /// one entry per full window, each the truncated mean of its window.
    /// Empty when the window is zero or longer than the series.
    pub fn moving_average(values: &Vec<u64>, window: usize) -> (r: Vec<u64>)
        ensures
            (values@.len() < window || window == 0) ==> r@.len() == 0,
            (values@.len() >= window && window > 0) ==> r@.len() == values@.len() - window + 1,
            forall|k: int|
                0 <= k < r@.len() && window > 0 ==> #[trigger] r@[k] as int == spec_window_sum(
                    values@,
                    k,
                    window as int,
                ) / window as int,
    {
        let mut result: Vec<u64> = Vec::new();
        if window == 0 || values.len() < window {
            return result;
        }
        let n = values.len();
        let count = n - window + 1;
        let mut k: usize = 0;
        while k < count
            invariant
                0 <= k <= count,
                count == n - window + 1,
                n == values@.len(),
                window >= 1,
                window <= n,
                result@.len() == k,
                forall|t: int|
                    0 <= t < k ==> #[trigger] result@[t] as int == spec_window_sum(
                        values@,
                        t,
                        window as int,
                    ) / window as int,
            decreases count - k,
        {
            let mut sum: u128 = 0;
            let mut j: usize = 0;
            while j < window
                invariant
                    0 <= j <= window,
                    0 <= k,
                    k + window <= n,
                    n == values@.len(),
                    sum == spec_window_sum(values@, k as int, j as int),
                    sum <= j * (u64::MAX as int),
                decreases window - j,
            {
                proof {
                    assert((j + 1) * (u64::MAX as int) == j * (u64::MAX as int) + (u64::MAX
                        as int)) by (nonlinear_arith);
                }
                sum = sum + values[k + j] as u128;
                j = j + 1;
            }
            proof {
                crate::units::lemma_div_bound(sum as int, window as int, u64::MAX as int);
                assert(sum as int <= (u64::MAX as int) * window as int) by (nonlinear_arith)
                    requires
                        sum <= window as int * (u64::MAX as int),
                ;
            }
            result.push((sum / window as u128) as u64);
            k = k + 1;
        }
        result
    }

    /// The largest peak-to-trough decline of the series, in millionths
    /// of the peak; `None` for series shorter than two entries.
    pub fn max_drawdown(values: &Vec<u64>) -> (r: Option<u64>)
        ensures
            values@.len() < 2 ==> r is None,
            values@.len() >= 2 ==> r is Some && r->0 as int == spec_max_drawdown(
                values@,
                values@.len() as int,
            ),
    {
        if values.len() < 2 {
            return None;
        }
        let mut peak: u64 = 0;
        let mut max_dd: u64 = 0;
        let mut i: usize = 0;
        while i < values.len()
            invariant
                0 <= i <= values@.len(),
                values@.len() >= 2,
                peak as int == spec_running_peak(values@, i as int),
                max_dd as int == spec_max_drawdown(values@, i as int),
                max_dd <= SCALE,
            decreases values@.len() - i,
        {
            let value = values[i];
            if value > peak {
                peak = value;
            }
            let drawdown: u64 = if peak > 0 {
                proof {
                    crate::units::lemma_mul_bounds(
                        (peak - value) as int,
                        SCALE as int,
                        u64::MAX as int,
                        SCALE as int,
                    );
                    crate::units::lemma_div_bound(
                        (peak - value) as int * SCALE as int,
                        peak as int,
                        SCALE as int,
                    );
                    assert((peak - value) as int * SCALE as int <= SCALE as int * peak as int)
                        by (nonlinear_arith)
                        requires
                            0 <= value <= peak,
                            peak >= 1,
                    ;
                }
                ((((peak - value) as u128) * SCALE) / peak as u128) as u64
            } else {
                0
            };
            if drawdown > max_dd {
                max_dd = drawdown;
            }
            i = i + 1;
        }
        Some(max_dd)
    }
}

/// The running maximum of the first `upto` entries (zero when none).
pub open spec fn spec_running_peak(s: Seq<u64>, upto: int) -> int
    decreases upto,
{
    if upto <= 0 {
        0
    } else {
        let prev = spec_running_peak(s, upto - 1);
        if s[upto - 1] > prev {
            s[upto - 1] as int
        } else {
            prev
        }
    }
}

/// The largest drawdown seen in the first `upto` entries, in millionths
/// of the running peak.
pub open spec fn spec_max_drawdown(s: Seq<u64>, upto: int) -> int
    decreases upto,
{
    if upto <= 0 {
        0
    } else {
        let prev = spec_max_drawdown(s, upto - 1);
        let peak = if s[upto - 1] > spec_running_peak(s, upto - 1) {
            s[upto - 1] as int
        } else {
            spec_running_peak(s, upto - 1)
        };
        let dd = if peak > 0 {
            ((peak - s[upto - 1]) * SCALE as int) / peak
        } else {
            0
        };
        if dd > prev {
            dd
        } else {
            prev
        }
    }
}

/// The weighted sum of the first `upto` entries.
pub open spec fn spec_weighted_sum(values: Seq<u64>, weights: Seq<u64>, upto: int) -> int
    decreases upto,
{
    if upto <= 0 {
        0
    } else {
        spec_weighted_sum(values, weights, upto - 1) + values[upto - 1] * weights[upto - 1]
    }
}

/// The total of the first `upto` weights.
pub open spec fn spec_weight_total(weights: Seq<u64>, upto: int) -> int
    decreases upto,
{
    if upto <= 0 {
        0
    } else {
        spec_weight_total(weights, upto - 1) + weights[upto - 1]
    }
}

/// Prefix sums of non-negative terms never exceed longer prefixes.
proof fn lemma_weighted_prefix_le(values: Seq<u64>, weights: Seq<u64>, a: int, b: int)
    requires
        0 <= a <= b <= values.len(),
        b <= weights.len(),
    ensures
        spec_weighted_sum(values, weights, a) <= spec_weighted_sum(values, weights, b),
        spec_weight_total(weights, a) <= spec_weight_total(weights, b),
    decreases b - a,
{
    if a < b {
        lemma_weighted_prefix_le(values, weights, a + 1, b);
        assert(values[a] * weights[a] >= 0) by (nonlinear_arith)
            requires
                values[a] >= 0,
                weights[a] >= 0,
        ;
    }
}

/// A weighted average of `u64` values fits in `u64`.
proof fn lemma_weighted_avg_fits(values: Seq<u64>, weights: Seq<u64>, upto: int)
    requires
        0 <= upto <= values.len(),
        upto <= weights.len(),
    ensures
        spec_weighted_sum(values, weights, upto) <= (u64::MAX as int) * spec_weight_total(
            weights,
            upto,
        ),
        spec_weight_total(weights, upto) >= 0,
    decreases upto,
{
    if upto > 0 {
        lemma_weighted_avg_fits(values, weights, upto - 1);
        assert(values[upto - 1] * weights[upto - 1] <= (u64::MAX as int) * weights[upto - 1])
            by (nonlinear_arith)
            requires
                0 <= values[upto - 1] <= u64::MAX,
                0 <= weights[upto - 1],
        ;
        assert((u64::MAX as int) * spec_weight_total(weights, upto - 1) + (u64::MAX as int)
            * weights[upto - 1] == (u64::MAX as int) * spec_weight_total(weights, upto))
            by (nonlinear_arith)
            requires
                spec_weight_total(weights, upto) == spec_weight_total(weights, upto - 1)
                    + weights[upto - 1],
        ;
    }
}

} // verus!
