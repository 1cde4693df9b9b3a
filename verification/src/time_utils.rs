//! Time helpers over plain integer timestamps: the clock readings, time
//! differences, fixed windows and business-day arithmetic. Instants are
//! milliseconds (or, for windows, seconds) since the Unix epoch.

use vstd::prelude::*;
use crate::units::{MILLIS_PER_SECOND, MILLIS_PER_DAY, valid_timestamp};

verus! {

/// Seconds in a day.
pub const SECONDS_PER_DAY: i64 = 86_400;

/// Truncating signed division for non-negative divisors, matching what
/// the executable code computes.
pub open spec fn spec_div_trunc(n: int, d: int) -> int {
    if n >= 0 {
        n / d
    } else {
        -((-n) / d)
    }
}

/// The weekday of a day count since the epoch, as days from Monday
/// (`0` is Monday, `6` is Sunday); the epoch itself was a Thursday.
pub open spec fn spec_weekday_from_monday(days: int) -> int {
    (days + 3) % 7
}

/// Clock readings and arithmetic over integer timestamps.
pub struct TimeUtils;

impl TimeUtils {
    /// Whole seconds since the Unix epoch, read from the system clock.
    pub fn current_timestamp() -> u64 {
        clock_epoch_seconds()
    }

    /// Milliseconds since the Unix epoch, read from the system clock.
    pub fn current_timestamp_millis() -> u64 {
        clock_epoch_millis()
    }

    /// Microseconds since the Unix epoch, read from the system clock.
    pub fn current_timestamp_micros() -> u64 {
        clock_epoch_micros()
    }

    /// Whole seconds from `time1` to `time2`, toward zero.
    pub fn time_diff_seconds(time1: i64, time2: i64) -> (r: i64)
        requires
            valid_timestamp(time1 as int),
            valid_timestamp(time2 as int),
        ensures
            r as int == spec_div_trunc(time2 - time1, MILLIS_PER_SECOND as int),
    {
        Self::diff_div(time1, time2, 1_000)
    }

    /// Whole minutes from `time1` to `time2`, toward zero.
    pub fn time_diff_minutes(time1: i64, time2: i64) -> (r: i64)
        requires
            valid_timestamp(time1 as int),
            valid_timestamp(time2 as int),
        ensures
            r as int == spec_div_trunc(time2 - time1, 60_000),
    {
        Self::diff_div(time1, time2, 60_000)
    }

    /// Whole hours from `time1` to `time2`, toward zero.
    pub fn time_diff_hours(time1: i64, time2: i64) -> (r: i64)
        requires
            valid_timestamp(time1 as int),
            valid_timestamp(time2 as int),
        ensures
            r as int == spec_div_trunc(time2 - time1, 3_600_000),
    {
        Self::diff_div(time1, time2, 3_600_000)
    }

    /// Whole days from `time1` to `time2`, toward zero.
    pub fn time_diff_days(time1: i64, time2: i64) -> (r: i64)
        requires
            valid_timestamp(time1 as int),
            valid_timestamp(time2 as int),
        ensures
            r as int == spec_div_trunc(time2 - time1, MILLIS_PER_DAY as int),
    {
        Self::diff_div(time1, time2, 86_400_000)
    }

    /// Truncating division of a timestamp difference.
    fn diff_div(time1: i64, time2: i64, unit: i64) -> (r: i64)
        requires
            valid_timestamp(time1 as int),
            valid_timestamp(time2 as int),
            unit >= 1,
        ensures
            r as int == spec_div_trunc(time2 - time1, unit as int),
    {
        if time2 >= time1 {
            (time2 - time1) / unit
        } else {
            -((time1 - time2) / unit)
        }
    }

    /// Whether `timestamp + expiry_duration` lies strictly in the past
    /// of `now` (all in milliseconds).
    pub fn is_expired(timestamp: i64, expiry_duration: i64, now: i64) -> (r: bool)
        requires
            valid_timestamp(timestamp as int),
            0 <= expiry_duration <= crate::units::MAX_TIMESTAMP_MILLIS,
        ensures
            r == (now > timestamp + expiry_duration),
    {
        now > timestamp + expiry_duration
    }

    /// The instant a duration from `now` ends, in milliseconds.
    pub fn get_expiry_time(duration: i64, now: i64) -> (r: i64)
        requires
            valid_timestamp(now as int),
            0 <= duration <= crate::units::MAX_TIMESTAMP_MILLIS,
        ensures
            r == now + duration,
    {
        now + duration
    }

    /// Whether `time` lies in the inclusive range.
    pub fn is_in_time_range(time: i64, start: i64, end: i64) -> (r: bool)
        ensures
            r == (start <= time <= end),
    {
        time >= start && time <= end
    }

    /// The start of the fixed window containing `time` (seconds).
    pub fn get_window_start(time: i64, window_seconds: i64) -> (r: i64)
        requires
            time >= 0,
            window_seconds >= 1,
        ensures
            r as int == (time as int / window_seconds as int) * window_seconds as int,
            0 <= r <= time,
    {
        proof {
            assert((time as int / window_seconds as int) * window_seconds as int <= time as int
                && 0 <= (time as int / window_seconds as int) * window_seconds as int)
                by (nonlinear_arith)
                requires
                    time >= 0,
                    window_seconds >= 1,
            ;
        }
        (time / window_seconds) * window_seconds
    }

    /// The end of the fixed window containing `time` (seconds).
    pub fn get_window_end(time: i64, window_seconds: i64) -> (r: i64)
        requires
            time >= 0,
            window_seconds >= 1,
            time + window_seconds <= i64::MAX,
        ensures
            r as int == (time as int / window_seconds as int) * window_seconds as int
                + window_seconds as int,
    {
        Self::get_window_start(time, window_seconds) + window_seconds
    }

    /// Whether two instants fall into the same fixed window.
    pub fn is_same_window(time1: i64, time2: i64, window_seconds: i64) -> (r: bool)
        requires
            time1 >= 0,
            time2 >= 0,
            window_seconds >= 1,
        ensures
            r == (time1 as int / window_seconds as int == time2 as int / window_seconds as int),
    {
        let s1 = Self::get_window_start(time1, window_seconds);
        let s2 = Self::get_window_start(time2, window_seconds);
        proof {
            let w = window_seconds as int;
            let q1 = time1 as int / w;
            let q2 = time2 as int / w;
            assert(q1 * w == q2 * w ==> q1 == q2) by (nonlinear_arith)
                requires
                    w >= 1,
            ;
        }
        s1 == s2
    }

    /// The index of the fixed window containing `time`.
    pub fn get_window_index(time: i64, window_seconds: i64) -> (r: i64)
        requires
            time >= 0,
            window_seconds >= 1,
        ensures
            r as int == time as int / window_seconds as int,
    {
        time / window_seconds
    }

    /// The start of the window with the given index.
    pub fn from_window_index(index: i64, window_seconds: i64) -> (r: i64)
        requires
            index >= 0,
            window_seconds >= 1,
            index * window_seconds <= i64::MAX,
        ensures
            r as int == index as int * window_seconds as int,
    {
        proof {
            assert(index as int * window_seconds as int >= 0) by (nonlinear_arith)
                requires
                    index >= 0,
                    window_seconds >= 1,
            ;
        }
        index * window_seconds
    }

    /// How many windows a closed range touches.
    pub fn count_windows(start_time: i64, end_time: i64, window_seconds: i64) -> (r: i64)
        requires
            0 <= start_time <= crate::units::MAX_TIMESTAMP_MILLIS,
            0 <= end_time <= crate::units::MAX_TIMESTAMP_MILLIS,
            window_seconds >= 1,
        ensures
            r as int == end_time as int / window_seconds as int - start_time as int
                / window_seconds as int + 1,
    {
        let start_index = Self::get_window_index(start_time, window_seconds);
        let end_index = Self::get_window_index(end_time, window_seconds);
        proof {
            assert(start_time as int <= crate::units::MAX_TIMESTAMP_MILLIS as int
                * window_seconds as int) by (nonlinear_arith)
                requires
                    0 <= start_time <= crate::units::MAX_TIMESTAMP_MILLIS,
                    window_seconds >= 1,
            ;
            assert(end_time as int <= crate::units::MAX_TIMESTAMP_MILLIS as int
                * window_seconds as int) by (nonlinear_arith)
                requires
                    0 <= end_time <= crate::units::MAX_TIMESTAMP_MILLIS,
                    window_seconds >= 1,
            ;
            crate::units::lemma_div_bound(
                start_time as int,
                window_seconds as int,
                crate::units::MAX_TIMESTAMP_MILLIS as int,
            );
            crate::units::lemma_div_bound(
                end_time as int,
                window_seconds as int,
                crate::units::MAX_TIMESTAMP_MILLIS as int,
            );
        }
        end_index - start_index + 1
    }

    /// Whether the instant (in seconds) falls on a weekday between 9:00
    /// and 17:00 UTC.
    pub fn is_business_hours(time_seconds: i64) -> (r: bool)
        requires
            time_seconds >= 0,
        ensures
            r == (spec_weekday_from_monday(time_seconds as int / SECONDS_PER_DAY as int) < 5
                && 9 <= (time_seconds as int % SECONDS_PER_DAY as int) / 3600 < 17),
    {
        let days = time_seconds / SECONDS_PER_DAY;
        let weekday = (days + 3) % 7;
        let hour = (time_seconds % SECONDS_PER_DAY) / 3600;
        weekday < 5 && hour >= 9 && hour < 17
    }

    /// Whether the instant (in seconds) falls on a weekday.
    pub fn is_business_day(time_seconds: i64) -> (r: bool)
        requires
            time_seconds >= 0,
        ensures
            r == (spec_weekday_from_monday(time_seconds as int / SECONDS_PER_DAY as int) < 5),
    {
        let days = time_seconds / SECONDS_PER_DAY;
        let weekday = (days + 3) % 7;
        weekday < 5
    }
}

/// Relies on `std::time::SystemTime::now` against the Unix epoch: the
/// clock reading in whole seconds, or zero if the clock sits before the
/// epoch. Nothing can be promised about a clock value.
#[verifier::external_body]
fn clock_epoch_seconds() -> u64 {
    std::time::SystemTime::now().duration_since(std::time::UNIX_EPOCH).unwrap_or_default().as_secs()
}

/// Relies on `std::time::SystemTime::now` against the Unix epoch: the
/// clock reading in milliseconds, or zero before the epoch.
#[verifier::external_body]
fn clock_epoch_millis() -> u64 {
    std::time::SystemTime::now().duration_since(
        std::time::UNIX_EPOCH,
    ).unwrap_or_default().as_millis() as u64
}

/// Relies on `std::time::SystemTime::now` against the Unix epoch: the
/// clock reading in microseconds, or zero before the epoch.
#[verifier::external_body]
fn clock_epoch_micros() -> u64 {
    std::time::SystemTime::now().duration_since(
        std::time::UNIX_EPOCH,
    ).unwrap_or_default().as_micros() as u64
}

} // verus!
