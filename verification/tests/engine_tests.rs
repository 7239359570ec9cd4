use std::collections::VecDeque;

use indicators_core::calculator::{
    calculate_future_price_change, calculate_rsi, calculate_sma, determine_ma_cross,
    IndicatorCalculator,
};
use indicators_core::model::{DbCandleConverted, DbIndicator};
use indicators_core::ratio::Ratio;

const NANO: i128 = 1_000_000_000;

fn candle(time: i64, close_units: i64, volume: i64) -> DbCandleConverted {
    DbCandleConverted {
        instrument_uid: "ABC".to_string(),
        time,
        open_price: close_units as i128 * NANO,
        high_price: close_units as i128 * NANO,
        low_price: close_units as i128 * NANO,
        close_price: close_units as i128 * NANO,
        volume,
    }
}

fn run_engine(candles: &Vec<DbCandleConverted>, warm: usize) -> Vec<DbIndicator> {
    IndicatorCalculator::new().calculate_indicators(candles, warm)
}

/// No row is emitted unless the input slice has more than 50 candles.
#[test]
fn no_rows_at_or_below_window_size() {
    for n in [0usize, 1, 49, 50] {
        let candles: Vec<DbCandleConverted> =
            (0..n).map(|i| candle(60 * i as i64, 1 + i as i64, 100)).collect();
        assert!(run_engine(&candles, 0).is_empty(), "n = {}", n);
    }
    let candles: Vec<DbCandleConverted> =
        (0..51).map(|i| candle(60 * i as i64, 1 + i as i64, 100)).collect();
    assert_eq!(run_engine(&candles, 0).len(), 1);
}

/// SMA(3) over the last prices of [1,2,3,4,5] is exactly 4.0; SMA(10)
/// over only 5 prices is 0.0.
#[test]
fn sma_exact_values() {
    let prices: VecDeque<i128> = [1, 2, 3, 4, 5].iter().map(|&x| x as i128 * NANO).collect();
    let sma3 = calculate_sma(&prices, 3);
    // (3 + 4 + 5) / 3 = 4.0, held exactly as 12e9 / 3 nano units
    assert_eq!(sma3.num, 12 * NANO);
    assert_eq!(sma3.den, 3);
    assert_eq!(sma3.num, 4 * NANO * sma3.den);
    let sma10 = calculate_sma(&prices, 10);
    assert_eq!((sma10.num, sma10.den), (0, 1));
}

/// A gain-only delta window of full length yields RSI = 100.0.
#[test]
fn rsi_gain_only_is_100() {
    let gains: VecDeque<i128> = (0..14).map(|_| NANO).collect();
    let losses: VecDeque<i128> = (0..14).map(|_| 0).collect();
    let rsi = calculate_rsi(&gains, &losses);
    assert_eq!((rsi.num, rsi.den), (100, 1));
}

/// Fewer than 14 deltas: neutral 50.  Mixed deltas: 100 * g / (g + l).
#[test]
fn rsi_neutral_and_mixed() {
    let gains: VecDeque<i128> = (0..13).map(|_| NANO).collect();
    let losses: VecDeque<i128> = (0..13).map(|_| 0).collect();
    assert_eq!(calculate_rsi(&gains, &losses).num, 50);
    let gains: VecDeque<i128> = (0..14).map(|i| if i % 2 == 0 { 3 * NANO } else { 0 }).collect();
    let losses: VecDeque<i128> = (0..14).map(|i| if i % 2 == 0 { 0 } else { NANO }).collect();
    let rsi = calculate_rsi(&gains, &losses);
    // g = 21e9, l = 7e9: RSI = 100 * 21 / 28 = 75
    assert_eq!(rsi.num, 100 * 21 * NANO);
    assert_eq!(rsi.den, 28 * NANO);
    assert_eq!(rsi.num * 4, 300 * rsi.den);
}

#[test]
fn ma_cross_helper_flags() {
    let r = |n: i128| Ratio { num: n, den: 1 };
    assert_eq!(determine_ma_cross(&r(1), &r(2), &r(3), &r(2)), 1);
    assert_eq!(determine_ma_cross(&r(2), &r(2), &r(3), &r(2)), 1);
    assert_eq!(determine_ma_cross(&r(3), &r(2), &r(1), &r(2)), -1);
    assert_eq!(determine_ma_cross(&r(1), &r(2), &r(1), &r(2)), 0);
    assert_eq!(determine_ma_cross(&r(3), &r(2), &r(4), &r(2)), 0);
}

/// The crossover flag is +1 exactly at the index where the fast average
/// first moves above the slow one, and 0 at every other emitted index.
#[test]
fn crossover_exactly_once() {
    // constant closes, then a level jump: the 10-average crosses the
    // 30-average exactly when the jump enters the windows
    let mut candles: Vec<DbCandleConverted> = Vec::new();
    for i in 0..80 {
        let close = if i < 60 { 100 } else { 200 };
        candles.push(candle(60 * i as i64, close, 100));
    }
    let rows = run_engine(&candles, 0);
    assert_eq!(rows.len(), 30);
    for (j, row) in rows.iter().enumerate() {
        let expected = if j == 10 { 1 } else { 0 };
        assert_eq!(row.ma_cross, expected, "row {}", j);
    }
}

/// The engine's forward label looks 15 candles ahead within the slice
/// and is zero (with signal 0) for the last 15 candles of every slice.
#[test]
fn forward_label_window() {
    let (pct, sig) = calculate_future_price_change(100 * NANO, 101 * NANO);
    // (101/100 - 1) * 100 = 1.0 percent, above the 0.2 threshold
    assert_eq!(pct.num, 100 * NANO);
    assert_eq!(pct.den, 100 * NANO);
    assert_eq!(sig, 1);
    let (pct, sig) = calculate_future_price_change(100 * NANO, 100 * NANO + NANO / 10);
    // 0.1 percent: inside the +-0.2 band
    assert_eq!(sig, 0);
    assert_eq!(pct.num * 10, pct.den);
    let (_, sig) = calculate_future_price_change(100 * NANO, 99 * NANO);
    assert_eq!(sig, -1);
    let (pct, sig) = calculate_future_price_change(0, 5 * NANO);
    assert_eq!((pct.num, pct.den, sig), (0, 1, 0));

    let candles: Vec<DbCandleConverted> =
        (0..80).map(|i| candle(60 * i as i64, 100 + i as i64, 100)).collect();
    let rows = run_engine(&candles, 0);
    assert_eq!(rows.len(), 30);
    for (j, row) in rows.iter().enumerate() {
        let i = 50 + j;
        if i + 15 < 80 {
            assert!(row.price_change_15m.num > 0, "row {}", j);
        } else {
            assert_eq!((row.price_change_15m.num, row.signal_15m), (0, 0), "row {}", j);
        }
    }
}

/// End to end: 51 one-minute candles with strictly increasing closes
/// 1..=51 and constant volume 100 produce exactly one row, for the 51st
/// candle, with no crossover, RSI exactly 100 and no volume anomaly.
#[test]
fn single_row_for_51_rising_candles() {
    let candles: Vec<DbCandleConverted> =
        (0..51).map(|i| candle(60 * i as i64, 1 + i as i64, 100)).collect();
    let rows = run_engine(&candles, 0);
    assert_eq!(rows.len(), 1);
    let row = &rows[0];
    assert_eq!(row.instrument_uid, "ABC");
    assert_eq!(row.time, 60 * 50);
    assert_eq!(row.close_price, 51 * NANO);
    assert_eq!(row.ma_cross, 0);
    assert_eq!((row.rsi_14.num, row.rsi_14.den), (100, 1));
    assert_eq!(row.volume_anomaly, 0);
    // constant volume: zero variance, zero deviation
    assert_eq!(row.volume_norm.var.num, 0);
    assert_eq!(row.volume_norm.dev.num, 0);
    // rising fast average sits above the slow one
    assert!(row.ma_10.num * row.ma_30.den > row.ma_30.num * row.ma_10.den);
    assert_eq!(row.rsi_zone, -1);
}

/// The warm-up prefix seeds state but emits nothing, and emission never
/// starts before the window spans 50 candles.
#[test]
fn warm_start_index_gates_emission() {
    let candles: Vec<DbCandleConverted> =
        (0..70).map(|i| candle(60 * i as i64, 1 + i as i64, 100)).collect();
    assert_eq!(run_engine(&candles, 0).len(), 20);
    assert_eq!(run_engine(&candles, 30).len(), 20);
    assert_eq!(run_engine(&candles, 60).len(), 10);
    assert_eq!(run_engine(&candles, 70).len(), 0);
}
