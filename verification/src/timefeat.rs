//! Time features of an epoch timestamp, in UTC.
//!
//! Unix time has no leap seconds, so the hour of day and the day of week
//! are plain Euclidean arithmetic on the epoch-second count.  Timestamps
//! whose date would fall outside the representable calendar range (about
//! 262,000 years either side of the common era) are treated as
//! unparseable and fall back to the features of the epoch instant itself:
//! hour 0, Thursday.

use vstd::prelude::*;

verus! {

/// Smallest epoch second whose date is representable.
pub const TS_MIN: i64 = -8_334_601_228_800;

/// Largest epoch second whose date is representable.
pub const TS_MAX: i64 = 8_210_266_876_799;

/// Hour of day (0..=23) of an epoch timestamp, with the out-of-range
/// fallback to hour 0.  `%` and `/` are Euclidean here, so negative
/// timestamps (before 1970) resolve to the correct wall-clock hour.
pub open spec fn hour_of(t: int) -> int {
    if TS_MIN <= t <= TS_MAX {
        (t % 86400) / 3600
    } else {
        0
    }
}

/// ISO day of week (1 = Monday .. 7 = Sunday) of an epoch timestamp,
/// with the out-of-range fallback to Thursday (the epoch's weekday).
pub open spec fn day_of_week_of(t: int) -> int {
    if TS_MIN <= t <= TS_MAX {
        (t / 86400 + 3) % 7 + 1
    } else {
        4
    }
}

/// Hour of day in UTC.
pub fn hour_of_day(time: i64) -> (h: i8)
    ensures
        h as int == hour_of(time as int),
        0 <= h <= 23,
{
    if time < TS_MIN || time > TS_MAX {
        return 0;
    }
    let s = match time.checked_rem_euclid(86400) {
        Some(v) => v,
        None => 0,
    };
    (s / 3600) as i8
}

/// ISO day of week in UTC.
pub fn day_of_week(time: i64) -> (d: i8)
    ensures
        d as int == day_of_week_of(time as int),
        1 <= d <= 7,
{
    if time < TS_MIN || time > TS_MAX {
        return 4;
    }
    let days = match time.checked_div_euclid(86400) {
        Some(v) => v,
        None => 0,
    };
    let w = match (days + 3).checked_rem_euclid(7) {
        Some(v) => v,
        None => 0,
    };
    (w + 1) as i8
}

} // verus!
