use chrono::{DateTime, Datelike, Timelike, Utc, Weekday};
use indicators_core::timefeat::{day_of_week, hour_of_day, TS_MAX, TS_MIN};

fn reference_features(t: i64) -> (i8, i8) {
    // parse the timestamp with the calendar library, falling back to
    // the epoch instant when it is unrepresentable
    let dt = DateTime::<Utc>::from_timestamp(t, 0).unwrap_or_default();
    let hour = dt.hour() as i8;
    let dow = match dt.weekday() {
        Weekday::Mon => 1,
        Weekday::Tue => 2,
        Weekday::Wed => 3,
        Weekday::Thu => 4,
        Weekday::Fri => 5,
        Weekday::Sat => 6,
        Weekday::Sun => 7,
    };
    (hour, dow)
}

#[test]
fn epoch_features() {
    assert_eq!(hour_of_day(0), 0);
    assert_eq!(day_of_week(0), 4); // the epoch is a Thursday
}

#[test]
fn features_match_calendar() {
    let samples: [i64; 12] = [
        0,
        1,
        59,
        86399,
        86400,
        1431648000,
        1700000000,
        -1,
        -86400,
        -123456789,
        TS_MIN,
        TS_MAX,
    ];
    for t in samples {
        let (h, d) = reference_features(t);
        assert_eq!(hour_of_day(t), h, "hour at {}", t);
        assert_eq!(day_of_week(t), d, "weekday at {}", t);
    }
}

/// Out-of-range timestamps fall back to the epoch's features, exactly
/// where the calendar library refuses them.
#[test]
fn out_of_range_falls_back() {
    for t in [TS_MIN - 1, TS_MAX + 1, i64::MIN, i64::MAX] {
        assert!(DateTime::<Utc>::from_timestamp(t, 0).is_none());
        assert_eq!(hour_of_day(t), 0);
        assert_eq!(day_of_week(t), 4);
    }
    assert!(DateTime::<Utc>::from_timestamp(TS_MIN, 0).is_some());
    assert!(DateTime::<Utc>::from_timestamp(TS_MAX, 0).is_some());
}
