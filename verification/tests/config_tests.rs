use chrono::NaiveTime;
use indicators_core::config::{parse_time_of_day, IndicatorsUpdaterConfig};
use indicators_core::scheduler::SchedulerGate;

fn updater(
    enabled: bool,
    start_time: Option<&str>,
    end_time: Option<&str>,
) -> IndicatorsUpdaterConfig {
    IndicatorsUpdaterConfig {
        enabled,
        interval_seconds: 60,
        start_time: start_time.map(|s| s.to_string()),
        end_time: end_time.map(|s| s.to_string()),
    }
}

const H: u64 = 3_600_000_000_000; // one hour of nanoseconds

#[test]
fn time_parse_exact_values() {
    assert_eq!(parse_time_of_day("00:00:00"), Some(0));
    assert_eq!(parse_time_of_day("08:30:00"), Some(8 * 3600 + 30 * 60));
    assert_eq!(parse_time_of_day("23:59:59"), Some(86399));
    assert_eq!(parse_time_of_day("8:5:3"), Some(8 * 3600 + 5 * 60 + 3));
    assert_eq!(parse_time_of_day(" 08:30:00"), Some(30600));
    assert_eq!(parse_time_of_day("23:59:60"), Some(86400)); // leap second
    assert_eq!(parse_time_of_day("24:00:00"), None);
    assert_eq!(parse_time_of_day("12:60:00"), None);
    assert_eq!(parse_time_of_day("12:00:61"), None);
    assert_eq!(parse_time_of_day("12:00"), None);
    assert_eq!(parse_time_of_day("12:00:00x"), None);
    assert_eq!(parse_time_of_day("ab:cd:ef"), None);
    assert_eq!(parse_time_of_day(""), None);
    assert_eq!(parse_time_of_day("123:00:00"), None);
}

/// The accepted strings are the ones the calendar library's parser
/// accepts with the `%H:%M:%S` format.
#[test]
fn time_parse_matches_reference_parser() {
    let cases = [
        "00:00:00", "08:30:00", "23:59:59", "8:5:3", " 08:30:00", "23:59:60", "24:00:00",
        "12:60:00", "12:00:61", "12:00", "12:00:00x", "ab:cd:ef", "", "123:00:00", "07: 30:00",
        "1:2:3", "010203",
    ];
    for s in cases {
        let ours = parse_time_of_day(s);
        let reference = NaiveTime::parse_from_str(s, "%H:%M:%S");
        assert_eq!(ours.is_some(), reference.is_ok(), "input {:?}", s);
    }
}

#[test]
fn window_plain_and_wrapping() {
    let cfg = updater(true, Some("08:00:00"), Some("17:00:00"));
    assert!(!cfg.is_operation_allowed(7 * H));
    assert!(cfg.is_operation_allowed(8 * H));
    assert!(cfg.is_operation_allowed(12 * H));
    assert!(cfg.is_operation_allowed(17 * H));
    assert!(!cfg.is_operation_allowed(17 * H + 1));
    assert!(!cfg.is_operation_allowed(23 * H));

    // a window that wraps past midnight
    let cfg = updater(true, Some("21:00:00"), Some("04:00:00"));
    assert!(cfg.is_operation_allowed(22 * H));
    assert!(cfg.is_operation_allowed(2 * H));
    assert!(cfg.is_operation_allowed(4 * H));
    assert!(!cfg.is_operation_allowed(4 * H + 1));
    assert!(!cfg.is_operation_allowed(12 * H));
}

#[test]
fn window_open_when_unset_or_unparseable() {
    assert!(updater(true, None, None).is_operation_allowed(12 * H));
    assert!(updater(true, Some("08:00:00"), None).is_operation_allowed(2 * H));
    assert!(updater(true, None, Some("17:00:00")).is_operation_allowed(2 * H));
    assert!(updater(true, Some("junk"), Some("17:00:00")).is_operation_allowed(23 * H));
    assert!(updater(true, Some("08:00:00"), Some("junk")).is_operation_allowed(23 * H));
}

/// A tick runs a pass only when idle, enabled and inside the window;
/// a tick during a pass is skipped, not queued.
#[test]
fn scheduler_gate_single_flight() {
    let mut gate = SchedulerGate::new();
    let on = updater(true, None, None);
    let off = updater(false, None, None);
    assert!(!gate.on_tick(&off, 0));
    assert!(gate.on_tick(&on, 0));
    assert!(!gate.on_tick(&on, 0)); // pass in flight
    gate.on_pass_complete();
    assert!(gate.on_tick(&on, 0));
    gate.on_pass_complete();
    let windowed = updater(true, Some("08:00:00"), Some("17:00:00"));
    assert!(!gate.on_tick(&windowed, 3 * H));
    assert!(gate.on_tick(&windowed, 9 * H));
}
