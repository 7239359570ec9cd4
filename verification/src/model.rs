//! Data model: raw candles, fixed-point candles and indicator rows.
//!
//! A raw candle carries each price as an integer number of currency units
//! plus a fractional part in billionths of a unit.  The converted candle
//! folds the two into a single integer of billionths ("nano" price), which
//! represents the price exactly; all indicator arithmetic happens on that
//! representation.  The indicator row carries the exact rational values;
//! the floating-point projection for the destination store is taken
//! outside the library.

use crate::ratio::{Rat, Ratio};
use vstd::prelude::*;

verus! {

/// Largest magnitude a folded nano price can take, given that units fit in
/// `i64` and the fractional part fits in `i32`.
pub const PRICE_NANO_ABS: i128 = 9_223_372_036_854_775_808i128 * 1_000_000_000 + 2_147_483_648;

/// Largest volume magnitude the engine accepts per candle.  The exact
/// window statistics square and re-multiply volumes; this bound keeps
/// those products inside `i128` for the fixed 50-candle window.
pub const VOLUME_ABS: i64 = 10_000_000_000_000_000;

/// Bounds under which the exact window arithmetic stays inside `i128`.
/// Every price produced by `convert_price` satisfies the price bound;
/// the volume bound is checked at the boundary before the engine runs.
pub open spec fn candle_ok(c: CandleV) -> bool {
    &&& -PRICE_NANO_ABS <= c.open <= PRICE_NANO_ABS
    &&& -PRICE_NANO_ABS <= c.high <= PRICE_NANO_ABS
    &&& -PRICE_NANO_ABS <= c.low <= PRICE_NANO_ABS
    &&& -PRICE_NANO_ABS <= c.close <= PRICE_NANO_ABS
    &&& -VOLUME_ABS <= c.volume <= VOLUME_ABS
}

/// A raw per-minute candle row as the data store returns it: fixed-point
/// prices split into units and billionths, and an integer volume.
#[derive(Debug, PartialEq)]
pub struct DbCandleRaw {
    pub instrument_uid: String,
    pub time: i64,
    pub open_units: i64,
    pub open_nano: i32,
    pub high_units: i64,
    pub high_nano: i32,
    pub low_units: i64,
    pub low_nano: i32,
    pub close_units: i64,
    pub close_nano: i32,
    pub volume: i64,
}

impl Clone for DbCandleRaw {
    fn clone(&self) -> (r: Self)
        ensures
            r.instrument_uid@ == self.instrument_uid@,
            r.time == self.time,
            r.open_units == self.open_units,
            r.open_nano == self.open_nano,
            r.high_units == self.high_units,
            r.high_nano == self.high_nano,
            r.low_units == self.low_units,
            r.low_nano == self.low_nano,
            r.close_units == self.close_units,
            r.close_nano == self.close_nano,
            r.volume == self.volume,
    {
        DbCandleRaw {
            instrument_uid: self.instrument_uid.clone(),
            time: self.time,
            open_units: self.open_units,
            open_nano: self.open_nano,
            high_units: self.high_units,
            high_nano: self.high_nano,
            low_units: self.low_units,
            low_nano: self.low_nano,
            close_units: self.close_units,
            close_nano: self.close_nano,
            volume: self.volume,
        }
    }
}

/// Mathematical view of a converted candle.
pub ghost struct CandleV {
    pub uid: Seq<char>,
    pub time: int,
    pub open: int,
    pub high: int,
    pub low: int,
    pub close: int,
    pub volume: int,
}

/// A candle with each price folded into a single exact integer count of
/// billionths of a unit.
#[derive(Debug)]
pub struct DbCandleConverted {
    pub instrument_uid: String,
    pub time: i64,
    pub open_price: i128,
    pub high_price: i128,
    pub low_price: i128,
    pub close_price: i128,
    pub volume: i64,
}

impl View for DbCandleConverted {
    type V = CandleV;

    open spec fn view(&self) -> CandleV {
        CandleV {
            uid: self.instrument_uid@,
            time: self.time as int,
            open: self.open_price as int,
            high: self.high_price as int,
            low: self.low_price as int,
            close: self.close_price as int,
            volume: self.volume as int,
        }
    }
}

impl Clone for DbCandleConverted {
    fn clone(&self) -> (r: Self)
        ensures
            r@ == self@,
    {
        DbCandleConverted {
            instrument_uid: self.instrument_uid.clone(),
            time: self.time,
            open_price: self.open_price,
            high_price: self.high_price,
            low_price: self.low_price,
            close_price: self.close_price,
            volume: self.volume,
        }
    }
}

/// The exact fixed-point value of a units/billionths pair.
pub open spec fn price_nano(units: int, nano: int) -> int {
    units * 1_000_000_000 + nano
}

/// Folds a units/billionths pair into a single integer of billionths.
pub fn convert_price(units: i64, nano: i32) -> (r: i128)
    ensures
        r as int == price_nano(units as int, nano as int),
        -PRICE_NANO_ABS <= r <= PRICE_NANO_ABS,
{
    units as i128 * 1_000_000_000 + nano as i128
}

impl DbCandleConverted {
    /// Conversion from the raw row; exact, for every raw candle.
    pub fn from(raw: DbCandleRaw) -> (r: DbCandleConverted)
        ensures
            r@.uid == raw.instrument_uid@,
            r@.time == raw.time as int,
            r@.open == price_nano(raw.open_units as int, raw.open_nano as int),
            r@.high == price_nano(raw.high_units as int, raw.high_nano as int),
            r@.low == price_nano(raw.low_units as int, raw.low_nano as int),
            r@.close == price_nano(raw.close_units as int, raw.close_nano as int),
            r@.volume == raw.volume as int,
    {
        DbCandleConverted {
            open_price: convert_price(raw.open_units, raw.open_nano),
            high_price: convert_price(raw.high_units, raw.high_nano),
            low_price: convert_price(raw.low_units, raw.low_nano),
            close_price: convert_price(raw.close_units, raw.close_nano),
            instrument_uid: raw.instrument_uid,
            time: raw.time,
            volume: raw.volume,
        }
    }
}

/// The view a raw candle converts to: each price folded to billionths.
pub open spec fn conv_view(r: DbCandleRaw) -> CandleV {
    CandleV {
        uid: r.instrument_uid@,
        time: r.time as int,
        open: price_nano(r.open_units as int, r.open_nano as int),
        high: price_nano(r.high_units as int, r.high_nano as int),
        low: price_nano(r.low_units as int, r.low_nano as int),
        close: price_nano(r.close_units as int, r.close_nano as int),
        volume: r.volume as int,
    }
}

/// Exact deviation/variance pair from which the volume z-score is
/// evaluated: `z = dev / sqrt(var)` when `var > 0`, else zero.  The square
/// root is irrational, so the z-score itself is computed in floating
/// point only at the I/O boundary; the anomaly decision is taken exactly,
/// inside the library.
#[derive(Debug, Clone, Copy, PartialEq, Eq)]
pub struct ZScore {
    pub dev: Ratio,
    pub var: Ratio,
}

/// Mathematical view of a z-score pair.
pub ghost struct ZScoreV {
    pub dev: Rat,
    pub var: Rat,
}

impl View for ZScore {
    type V = ZScoreV;

    open spec fn view(&self) -> ZScoreV {
        ZScoreV { dev: self.dev@, var: self.var@ }
    }
}

/// Mathematical view of one indicator row.
pub ghost struct IndicatorV {
    pub uid: Seq<char>,
    pub time: int,
    pub open: int,
    pub high: int,
    pub low: int,
    pub close: int,
    pub volume: int,
    pub rsi_14: Rat,
    pub ma_10: Rat,
    pub ma_30: Rat,
    pub volume_norm: ZScoreV,
    pub ma_diff: Rat,
    pub ma_cross: int,
    pub rsi_zone: int,
    pub volume_anomaly: int,
    pub hour_of_day: int,
    pub day_of_week: int,
    pub price_change_15m: Rat,
    pub signal_15m: int,
}

/// One computed indicator row: the source candle's OHLCV carried through,
/// the exact indicator values, the decision flags, and the time features.
#[derive(Debug, PartialEq)]
pub struct DbIndicator {
    pub instrument_uid: String,
    pub time: i64,
    pub open_price: i128,
    pub high_price: i128,
    pub low_price: i128,
    pub close_price: i128,
    pub volume: i64,
    pub rsi_14: Ratio,
    pub ma_10: Ratio,
    pub ma_30: Ratio,
    pub volume_norm: ZScore,
    pub ma_diff: Ratio,
    pub ma_cross: i8,
    pub rsi_zone: i8,
    pub volume_anomaly: i8,
    pub hour_of_day: i8,
    pub day_of_week: i8,
    pub price_change_15m: Ratio,
    pub signal_15m: i8,
}

impl Clone for DbIndicator {
    fn clone(&self) -> (r: Self)
        ensures
            r@ == self@,
    {
        DbIndicator {
            instrument_uid: self.instrument_uid.clone(),
            time: self.time,
            open_price: self.open_price,
            high_price: self.high_price,
            low_price: self.low_price,
            close_price: self.close_price,
            volume: self.volume,
            rsi_14: self.rsi_14,
            ma_10: self.ma_10,
            ma_30: self.ma_30,
            volume_norm: self.volume_norm,
            ma_diff: self.ma_diff,
            ma_cross: self.ma_cross,
            rsi_zone: self.rsi_zone,
            volume_anomaly: self.volume_anomaly,
            hour_of_day: self.hour_of_day,
            day_of_week: self.day_of_week,
            price_change_15m: self.price_change_15m,
            signal_15m: self.signal_15m,
        }
    }
}

impl View for DbIndicator {
    type V = IndicatorV;

    open spec fn view(&self) -> IndicatorV {
        IndicatorV {
            uid: self.instrument_uid@,
            time: self.time as int,
            open: self.open_price as int,
            high: self.high_price as int,
            low: self.low_price as int,
            close: self.close_price as int,
            volume: self.volume as int,
            rsi_14: self.rsi_14@,
            ma_10: self.ma_10@,
            ma_30: self.ma_30@,
            volume_norm: self.volume_norm@,
            ma_diff: self.ma_diff@,
            ma_cross: self.ma_cross as int,
            rsi_zone: self.rsi_zone as int,
            volume_anomaly: self.volume_anomaly as int,
            hour_of_day: self.hour_of_day as int,
            day_of_week: self.day_of_week as int,
            price_change_15m: self.price_change_15m@,
            signal_15m: self.signal_15m as int,
        }
    }
}

} // verus!
