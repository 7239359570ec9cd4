//! Application configuration and the scheduler's daily time window.
//!
//! The updater may be restricted to a daily UTC window given by two
//! `"HH:MM:SS"` strings.  The parser accepts one or two digits per
//! field, ASCII whitespace before each number, minutes to 59 and a
//! leap second of 60; an unparseable string leaves the window open, as
//! does an absent bound.  The window may wrap past midnight.  The
//! current time of day reaches the check as nanoseconds since midnight,
//! so the boundary comparison is exact even for sub-second instants.

use crate::env::AppEnv;
use vstd::prelude::*;
use vstd::string::StringSliceAdditionalSpecFns;
use vstd::utf8::encode_utf8;

verus! {

#[derive(Debug)]
pub struct LogConfig {
    pub level: String,
    pub format: String,
}

#[derive(Debug)]
pub struct ClickhouseConfig {
    pub timeout: u64,
    pub pool_min: u32,
    pub pool_max: u32,
}

#[derive(Debug)]
pub struct PostgresConfig {
    pub timeout: u64,
    pub max_connections: u32,
    pub min_connections: u32,
    pub max_lifetime: u64,
    pub idle_timeout: u64,
}

#[derive(Debug)]
pub struct IndicatorsUpdaterConfig {
    pub enabled: bool,
    pub interval_seconds: u64,
    pub start_time: Option<String>,
    pub end_time: Option<String>,
}

#[derive(Debug)]
pub struct AppConfig {
    pub log: LogConfig,
    pub clickhouse: ClickhouseConfig,
    pub postgres: PostgresConfig,
    pub indicators_updater: IndicatorsUpdaterConfig,
}

#[derive(Debug)]
pub struct AppSettings {
    pub app_config: AppConfig,
    pub app_env: AppEnv,
}

/// Nanoseconds in one day.
pub const DAY_NS: u64 = 86_400_000_000_000;

/// ASCII whitespace, as skipped before each number field.
pub open spec fn is_ws(b: u8) -> bool {
    b == 32 || b == 9 || b == 10 || b == 13 || b == 11 || b == 12
}

pub open spec fn is_digit(b: u8) -> bool {
    48 <= b <= 57
}

/// First index at or after `i` that does not hold whitespace.
pub open spec fn skip_ws(b: Seq<u8>, i: int) -> int
    decreases b.len() - i,
{
    if 0 <= i < b.len() && is_ws(b[i]) {
        skip_ws(b, i + 1)
    } else {
        i
    }
}

/// End of a one-or-two-digit number starting at `i` (exclusive).
pub open spec fn num2_end(b: Seq<u8>, i: int) -> int {
    if i + 1 < b.len() && is_digit(b[i + 1]) {
        i + 2
    } else {
        i + 1
    }
}

/// Value of the one-or-two-digit number starting at `i`.
pub open spec fn num2_val(b: Seq<u8>, i: int) -> int {
    if i + 1 < b.len() && is_digit(b[i + 1]) {
        (b[i] - 48) * 10 + (b[i + 1] - 48)
    } else {
        b[i] - 48
    }
}

/// Parse of an `"HH:MM:SS"` time of day into seconds since midnight:
/// whitespace-then-number fields separated by literal colons, the whole
/// string consumed, hours to 23, minutes to 59, seconds to 60 (a leap
/// second counts as the 60th).  `None` when the string has any other
/// shape.
pub open spec fn parse_hms(b: Seq<u8>) -> Option<int> {
    let i0 = skip_ws(b, 0);
    if !(i0 < b.len() && is_digit(b[i0])) {
        None
    } else {
        let h = num2_val(b, i0);
        let i1 = num2_end(b, i0);
        if !(i1 < b.len() && b[i1] == 58) {
            None
        } else {
            let i2 = skip_ws(b, i1 + 1);
            if !(i2 < b.len() && is_digit(b[i2])) {
                None
            } else {
                let m = num2_val(b, i2);
                let i3 = num2_end(b, i2);
                if !(i3 < b.len() && b[i3] == 58) {
                    None
                } else {
                    let i4 = skip_ws(b, i3 + 1);
                    if !(i4 < b.len() && is_digit(b[i4])) {
                        None
                    } else {
                        let s = num2_val(b, i4);
                        let i5 = num2_end(b, i4);
                        if i5 != b.len() {
                            None
                        } else if h <= 23 && m <= 59 && s <= 60 {
                            Some(h * 3600 + m * 60 + s)
                        } else {
                            None
                        }
                    }
                }
            }
        }
    }
}

/// Whether `now_ns` (nanoseconds since UTC midnight) falls inside the
/// window `[start, end]`, both in seconds since midnight; a window with
/// `start > end` wraps past midnight.
pub open spec fn window_allows(start: int, end: int, now_ns: int) -> bool {
    let sn = start * 1_000_000_000;
    let en = end * 1_000_000_000;
    if sn <= en {
        sn <= now_ns && now_ns <= en
    } else {
        sn <= now_ns || now_ns <= en
    }
}

impl IndicatorsUpdaterConfig {
    /// The operation window's meaning: open when either bound is absent
    /// or unparseable, else the (possibly wrapping) daily window.
    pub open spec fn allowed_spec(&self, now_ns: int) -> bool {
        match (&self.start_time, &self.end_time) {
            (Some(st), Some(en)) => match (
                parse_hms(encode_utf8(st@)),
                parse_hms(encode_utf8(en@)),
            ) {
                (Some(s), Some(e)) => window_allows(s, e, now_ns),
                _ => true,
            },
            _ => true,
        }
    }

    /// Checks whether the given time of day (nanoseconds since UTC
    /// midnight) is within the allowed operation window.
    pub fn is_operation_allowed(&self, now_ns: u64) -> (r: bool)
        requires
            now_ns < DAY_NS,
        ensures
            r == self.allowed_spec(now_ns as int),
    {
        let start = match &self.start_time {
            Some(st) => st,
            None => {
                return true;
            },
        };
        let end = match &self.end_time {
            Some(en) => en,
            None => {
                return true;
            },
        };
        let s = match parse_time_of_day(start.as_str()) {
            Some(v) => v,
            None => {
                return true;
            },
        };
        let e = match parse_time_of_day(end.as_str()) {
            Some(v) => v,
            None => {
                return true;
            },
        };
        let sn = s as u64 * 1_000_000_000;
        let en = e as u64 * 1_000_000_000;
        if sn <= en {
            sn <= now_ns && now_ns <= en
        } else {
            sn <= now_ns || now_ns <= en
        }
    }
}

/// First non-whitespace position at or after `i`.
fn skip_ws_exec(b: &[u8], i: usize) -> (r: usize)
    requires
        i <= b@.len(),
    ensures
        r as int == skip_ws(b@, i as int),
        i <= r <= b@.len(),
{
    let mut k = i;
    while k < b.len() && (b[k] == 32 || b[k] == 9 || b[k] == 10 || b[k] == 13 || b[k] == 11
        || b[k] == 12)
        invariant
            i <= k <= b@.len(),
            skip_ws(b@, i as int) == skip_ws(b@, k as int),
        decreases b@.len() - k,
    {
        k = k + 1;
    }
    k
}

/// One-or-two-digit number at `i`: its value and the position after it.
fn parse_num2(b: &[u8], i: usize) -> (r: (u32, usize))
    requires
        i < b@.len(),
        is_digit(b@[i as int]),
    ensures
        r.0 as int == num2_val(b@, i as int),
        r.1 as int == num2_end(b@, i as int),
        i < r.1 <= b@.len(),
        r.0 <= 99,
{
    let d0 = (b[i] - 48) as u32;
    if i + 1 < b.len() && b[i + 1] >= 48 && b[i + 1] <= 57 {
        (d0 * 10 + (b[i + 1] - 48) as u32, i + 2)
    } else {
        (d0, i + 1)
    }
}

/// Parses an `"HH:MM:SS"` time of day to seconds since midnight; see
/// `parse_hms` for the exact accepted shapes.
pub fn parse_time_of_day(text: &str) -> (r: Option<u32>)
    ensures
        match r {
            Some(v) => parse_hms(text.spec_bytes()) == Some(v as int) && v <= 86460,
            None => parse_hms(text.spec_bytes()) is None,
        },
{
    let b = text.as_bytes();
    let i0 = skip_ws_exec(b, 0);
    if !(i0 < b.len() && b[i0] >= 48 && b[i0] <= 57) {
        return None;
    }
    let (h, i1) = parse_num2(b, i0);
    if !(i1 < b.len() && b[i1] == 58) {
        return None;
    }
    let i2 = skip_ws_exec(b, i1 + 1);
    if !(i2 < b.len() && b[i2] >= 48 && b[i2] <= 57) {
        return None;
    }
    let (m, i3) = parse_num2(b, i2);
    if !(i3 < b.len() && b[i3] == 58) {
        return None;
    }
    let i4 = skip_ws_exec(b, i3 + 1);
    if !(i4 < b.len() && b[i4] >= 48 && b[i4] <= 57) {
        return None;
    }
    let (s, i5) = parse_num2(b, i4);
    if i5 != b.len() {
        return None;
    }
    if h <= 23 && m <= 59 && s <= 60 {
        Some(h * 3600 + m * 60 + s)
    } else {
        None
    }
}

} // verus!
