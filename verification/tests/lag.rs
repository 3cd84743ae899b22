use std::time::Duration;

use chrono::{DateTime, Duration as ChronoDuration, TimeZone, Utc};
use chrono_ta::errors::TaError;
use chrono_ta::indicators::lag::Lag;

fn nanos(t: DateTime<Utc>) -> Option<i64> {
    t.timestamp_nanos_opt()
}

#[test]
fn returns_latest_value_at_or_before_target() {
    let t = Utc.with_ymd_and_hms(2026, 1, 1, 0, 0, 0).unwrap();
    let mut lag = Lag::new(Duration::from_secs(10)).unwrap();
    assert_eq!(lag.next(nanos(t), 1.0), None);
    assert_eq!(lag.next(nanos(t + ChronoDuration::seconds(7)), 2.0), None);
    assert_eq!(lag.next(nanos(t + ChronoDuration::seconds(10)), 3.0), Some(1.0));
    assert_eq!(lag.next(nanos(t + ChronoDuration::seconds(18)), 4.0), Some(2.0));
}

#[test]
fn lag_golden_vector() {
    let t = Utc.with_ymd_and_hms(2026, 1, 5, 14, 30, 0).unwrap();
    let mut lag = Lag::new(Duration::from_secs(2)).unwrap();
    let outputs = [
        lag.next(nanos(t), 10.0),
        lag.next(nanos(t + ChronoDuration::seconds(1)), 20.0),
        lag.next(nanos(t + ChronoDuration::seconds(2)), 30.0),
        lag.next(nanos(t + ChronoDuration::seconds(4)), 40.0),
    ];
    assert_eq!(outputs, [None, None, Some(10.0), Some(30.0)]);
}

#[test]
fn lag_rejects_zero_duration() {
    assert_eq!(Lag::<f64>::new(Duration::ZERO).err(), Some(TaError::InvalidParameter));
    let lag = Lag::<f64>::new(Duration::from_secs(86_400)).unwrap();
    assert_eq!(lag.duration(), Duration::from_secs(86_400));
}

#[test]
fn lag_revision_replaces_the_live_value() {
    // A 60-second lag uses one-second buckets: two updates 500 ms apart in
    // the same second revise one observation.
    let t = Utc.with_ymd_and_hms(2026, 1, 1, 0, 0, 0).unwrap();
    let mut lag = Lag::new(Duration::from_secs(60)).unwrap();
    lag.next(nanos(t), 1.0);
    lag.next(nanos(t + ChronoDuration::milliseconds(500)), 2.0);
    assert_eq!(lag.next(nanos(t + ChronoDuration::seconds(61)), 3.0), Some(2.0));
}

#[test]
fn lag_reset_forgets_history() {
    let t = Utc.with_ymd_and_hms(2026, 1, 1, 0, 0, 0).unwrap();
    let mut lag = Lag::new(Duration::from_secs(5)).unwrap();
    lag.next(nanos(t), 1.0);
    lag.reset();
    assert_eq!(lag.next(nanos(t + ChronoDuration::seconds(10)), 2.0), None);
}

#[test]
fn lag_out_of_range_instants() {
    // Instants outside the i64 nanosecond range never count as "at or before"
    // the target and are never a target past anything.
    let mut lag = Lag::new(Duration::from_secs(1)).unwrap();
    assert_eq!(lag.next(None, 1.0), None);
    assert_eq!(lag.next(Some(5_000_000_000), 2.0), None);
}
