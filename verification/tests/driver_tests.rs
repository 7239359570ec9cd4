use indicators_core::calculator::IndicatorCalculator;
use indicators_core::driver::{convert_page, prepare_warmup, InstrumentCycle};
use indicators_core::model::{DbCandleConverted, DbCandleRaw, VOLUME_ABS};

const NANO: i128 = 1_000_000_000;

fn conv(time: i64, close_units: i64, volume: i64) -> DbCandleConverted {
    DbCandleConverted {
        instrument_uid: "ABC".to_string(),
        time,
        open_price: close_units as i128 * NANO,
        high_price: close_units as i128 * NANO,
        low_price: close_units as i128 * NANO,
        close_price: close_units as i128 * NANO,
        volume,
    }
}

fn raw(time: i64, units: i64, nano: i32, volume: i64) -> DbCandleRaw {
    DbCandleRaw {
        instrument_uid: "ABC".to_string(),
        time,
        open_units: units,
        open_nano: nano,
        high_units: units,
        high_nano: nano,
        low_units: units,
        low_nano: nano,
        close_units: units,
        close_nano: nano,
        volume,
    }
}

/// The checkpoint advances to the greatest raw candle time of the page
/// even when the page yields zero indicator rows.
#[test]
fn checkpoint_advances_without_rows() {
    let calc = IndicatorCalculator::new();
    let mut cycle = InstrumentCycle::start(None);
    assert_eq!(cycle.checkpoint, 0);
    assert!(!cycle.needs_warmup());
    // 10 candles: far below the 50-candle window, so no rows
    let page: Vec<DbCandleConverted> = (0..10).map(|i| conv(1000 + 60 * i, 5, 100)).collect();
    let out = cycle.on_page(&calc, &Vec::new(), &page, 1500);
    assert!(out.is_empty());
    assert_eq!(cycle.checkpoint, 1000 + 60 * 9);
    assert!(cycle.finished); // short page ends the cycle
}

/// An empty page finishes the cycle and leaves the checkpoint alone.
#[test]
fn empty_page_keeps_checkpoint() {
    let calc = IndicatorCalculator::new();
    let mut cycle = InstrumentCycle::start(Some(7777));
    assert!(cycle.needs_warmup());
    let out = cycle.on_page(&calc, &Vec::new(), &Vec::new(), 1500);
    assert!(out.is_empty());
    assert_eq!(cycle.checkpoint, 7777);
    assert!(cycle.finished);
    assert!(!cycle.needs_warmup());
}

/// A full-size page leaves the cycle unfinished, and the next page does
/// not ask for warm-up again.
#[test]
fn full_page_continues() {
    let calc = IndicatorCalculator::new();
    let mut cycle = InstrumentCycle::start(Some(100));
    assert!(cycle.needs_warmup());
    let page: Vec<DbCandleConverted> = (0..4).map(|i| conv(200 + 60 * i, 5, 100)).collect();
    let warm: Vec<DbCandleConverted> = (0..2).map(|i| conv(60 * i, 5, 100)).collect();
    let _ = cycle.on_page(&calc, &warm, &page, 4);
    assert!(!cycle.finished);
    assert!(!cycle.needs_warmup());
    assert_eq!(cycle.checkpoint, 200 + 60 * 3);
}

/// Resume consistency: a prefix-then-suffix run with warm-up seeding
/// reproduces exactly the suffix rows of the single full pass.
#[test]
fn resume_reproduces_full_pass() {
    let calc = IndicatorCalculator::new();
    let all: Vec<DbCandleConverted> = (0..120)
        .map(|i| conv(60 * i, 100 + ((i * 13) % 29) - 7, 90 + (i * 7) % 23))
        .collect();
    let full = calc.calculate_indicators(&all, 0);
    assert_eq!(full.len(), 70);

    // checkpoint after 80 candles; resume over the remaining 40 with the
    // last 50 processed candles as warm-up
    let warm: Vec<DbCandleConverted> = all[30..80].to_vec();
    let mut resumed_input = warm.clone();
    resumed_input.extend(all[80..].iter().cloned());
    let resumed = calc.calculate_indicators(&resumed_input, warm.len());
    assert_eq!(resumed.len(), 40);
    assert_eq!(&full[30..], &resumed[..]);

    // a short prefix seeds with its whole history
    let warm_short: Vec<DbCandleConverted> = all[..40].to_vec();
    let mut resumed_short = warm_short.clone();
    resumed_short.extend(all[40..].iter().cloned());
    let resumed_short_rows = calc.calculate_indicators(&resumed_short, warm_short.len());
    assert_eq!(resumed_short_rows.len(), 70);
    assert_eq!(&full[..], &resumed_short_rows[..]);
}

/// Conversion folds units and billionths exactly and keeps page order;
/// the warm-up fetch arrives newest-first and is reversed.
#[test]
fn conversion_and_warmup_order() {
    let page: Vec<DbCandleRaw> = vec![raw(1, 2, 500_000_000, 10), raw(2, -1, -250_000_000, 20)];
    let conv_rows = convert_page(&page).unwrap();
    assert_eq!(conv_rows.len(), 2);
    assert_eq!(conv_rows[0].close_price, 2_500_000_000);
    assert_eq!(conv_rows[1].close_price, -1_250_000_000);
    assert_eq!(conv_rows[0].time, 1);

    let newest_first: Vec<DbCandleRaw> = vec![raw(3, 30, 0, 1), raw(2, 20, 0, 2), raw(1, 10, 0, 3)];
    let warm = prepare_warmup(&newest_first).unwrap();
    assert_eq!(warm.len(), 3);
    assert_eq!((warm[0].time, warm[0].close_price), (1, 10 * NANO));
    assert_eq!((warm[2].time, warm[2].close_price), (3, 30 * NANO));
}

/// A volume outside the engine's arithmetic bound rejects the page.
#[test]
fn out_of_range_volume_rejected() {
    let page = vec![raw(1, 2, 0, 10), raw(2, 2, 0, VOLUME_ABS + 1)];
    assert!(convert_page(&page).is_none());
    assert!(prepare_warmup(&page).is_none());
    let page_ok = vec![raw(1, 2, 0, VOLUME_ABS)];
    assert!(convert_page(&page_ok).is_some());
}

/// End to end through the cycle: instrument "ABC", empty checkpoint, 51
/// one-minute rising candles -> exactly one row, for candle 51, with no
/// crossover, RSI 100 and no volume anomaly; the checkpoint lands on the
/// last raw candle time.
#[test]
fn end_to_end_single_row() {
    let calc = IndicatorCalculator::new();
    let mut cycle = InstrumentCycle::start(None);
    assert!(!cycle.needs_warmup());
    let raw_page: Vec<DbCandleRaw> =
        (0..51).map(|i| raw(60 * i, 1 + i, 0, 100)).collect();
    let page = convert_page(&raw_page).unwrap();
    let rows = cycle.on_page(&calc, &Vec::new(), &page, 1500);
    assert_eq!(rows.len(), 1);
    let row = &rows[0];
    assert_eq!(row.instrument_uid, "ABC");
    assert_eq!(row.time, 60 * 50);
    assert_eq!(row.ma_cross, 0);
    assert_eq!((row.rsi_14.num, row.rsi_14.den), (100, 1));
    assert_eq!(row.volume_anomaly, 0);
    assert_eq!(cycle.checkpoint, 60 * 50);
    assert!(cycle.finished);
}
