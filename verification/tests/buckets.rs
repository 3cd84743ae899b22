use std::time::Duration;

use chrono::{DateTime, Duration as ChronoDuration, TimeZone, Utc};
use chrono_ta::errors::TaError;
use chrono_ta::indicators::adaptive::{AdaptiveTimeDetector, DetectedFrequency};
use chrono_ta::indicators::bars::{push_recent, LiveBar, SealedState};
use chrono_ta::indicators::fixed_time_bucket::{BucketUpdate, FixedTimeBucket};
use chrono_ta::indicators::supertrend::TrendDirection;

fn nanos(t: DateTime<Utc>) -> Option<i64> {
    t.timestamp_nanos_opt()
}

fn start() -> DateTime<Utc> {
    Utc.with_ymd_and_hms(2026, 1, 1, 0, 0, 0).unwrap()
}

#[test]
fn fixed_bucket_first_replace_append() {
    let mut b = FixedTimeBucket::new(Duration::from_secs(60)).unwrap();
    let t = start();
    assert_eq!(b.update(nanos(t)), BucketUpdate::First);
    assert_eq!(b.update(nanos(t + ChronoDuration::seconds(30))), BucketUpdate::Replace);
    assert_eq!(b.update(nanos(t + ChronoDuration::seconds(60))), BucketUpdate::Append);
    b.reset();
    assert_eq!(b.update(nanos(t + ChronoDuration::seconds(61))), BucketUpdate::First);
    assert_eq!(b.width(), Duration::from_secs(60));
}

#[test]
fn fixed_bucket_rejects_zero_width() {
    assert_eq!(FixedTimeBucket::new(Duration::ZERO).err(), Some(TaError::InvalidParameter));
}

#[test]
fn fixed_bucket_floors_negative_instants() {
    // Buckets are floor(instant / width): -1 ns and 0 ns are different buckets.
    let mut b = FixedTimeBucket::new(Duration::from_nanos(10)).unwrap();
    assert_eq!(b.update(Some(-1)), BucketUpdate::First);
    assert_eq!(b.update(Some(-10)), BucketUpdate::Replace);
    assert_eq!(b.update(Some(0)), BucketUpdate::Append);
    assert_eq!(b.update(None), BucketUpdate::Append);
}

#[test]
fn detector_policy_follows_duration() {
    assert_eq!(AdaptiveTimeDetector::new(Duration::from_secs(5)).frequency(), DetectedFrequency::Second);
    assert_eq!(AdaptiveTimeDetector::new(Duration::from_secs(300)).frequency(), DetectedFrequency::Minute);
    assert_eq!(AdaptiveTimeDetector::new(Duration::from_secs(3600)).frequency(), DetectedFrequency::Minute);
    assert_eq!(
        AdaptiveTimeDetector::new(Duration::from_secs(86_400)).frequency(),
        DetectedFrequency::DailySession
    );
}

#[test]
fn detector_second_buckets() {
    let mut d = AdaptiveTimeDetector::new(Duration::from_secs(5));
    let t = Utc.with_ymd_and_hms(2024, 1, 1, 10, 0, 0).unwrap();
    assert!(!d.should_replace(nanos(t)));
    assert!(d.should_replace(nanos(t + ChronoDuration::milliseconds(100))));
    assert!(d.should_replace(nanos(t + ChronoDuration::milliseconds(400))));
    assert!(!d.should_replace(nanos(t + ChronoDuration::seconds(1))));
}

#[test]
fn detector_minute_buckets() {
    let mut d = AdaptiveTimeDetector::new(Duration::from_secs(15 * 60));
    let t = Utc.with_ymd_and_hms(2024, 1, 1, 9, 30, 0).unwrap();
    assert!(!d.should_replace(nanos(t)));
    assert!(!d.should_replace(nanos(t + ChronoDuration::minutes(10))));
    assert!(!d.should_replace(nanos(t + ChronoDuration::minutes(11))));
    assert!(d.should_replace(nanos(t + ChronoDuration::minutes(11) + ChronoDuration::seconds(30))));
}

#[test]
fn detector_daily_session_gap() {
    let mut d = AdaptiveTimeDetector::new(Duration::from_secs(2 * 86_400));
    let day1_open = Utc.with_ymd_and_hms(2024, 1, 1, 9, 30, 0).unwrap();
    let day1_close = Utc.with_ymd_and_hms(2024, 1, 1, 16, 0, 0).unwrap();
    let day2_open = Utc.with_ymd_and_hms(2024, 1, 2, 9, 30, 0).unwrap();
    let day2_mid = Utc.with_ymd_and_hms(2024, 1, 2, 10, 0, 0).unwrap();
    assert!(!d.should_replace(nanos(day1_open)));
    assert!(!d.should_replace(nanos(day1_close)));
    assert!(!d.should_replace(nanos(day2_open)));
    assert!(d.should_replace(nanos(day2_mid)));
    d.reset();
    assert!(!d.should_replace(nanos(day2_mid)));
}

#[test]
fn live_bar_keeps_previous_through_revisions() {
    let t = start();
    let mut bar = LiveBar::new(Duration::from_secs(60)).unwrap();
    assert_eq!(bar.update(nanos(t), 9.0), BucketUpdate::First);
    assert_eq!(bar.previous(), None);
    assert_eq!(bar.update(nanos(t + ChronoDuration::minutes(1)), 14.0), BucketUpdate::Append);
    assert_eq!(bar.previous(), Some(9.0));
    assert_eq!(bar.update(nanos(t + ChronoDuration::seconds(90)), 15.0), BucketUpdate::Replace);
    assert_eq!(bar.previous(), Some(9.0));
    assert_eq!(bar.current(), Some(15.0));
    bar.reset();
    assert_eq!(bar.current(), None);
    assert_eq!(bar.previous(), None);
}

#[test]
fn sealed_state_restores_on_revision() {
    let mut s = SealedState::new();
    assert_eq!(s.resolve(BucketUpdate::First, 1), 1);
    assert_eq!(s.resolve(BucketUpdate::Append, 2), 2);
    assert_eq!(s.resolve(BucketUpdate::Replace, 7), 2);
    assert_eq!(s.resolve(BucketUpdate::Replace, 8), 2);
    s.reset();
    assert_eq!(s.snapshot(), None);
    assert_eq!(s.resolve(BucketUpdate::Replace, 9), 9);
}

#[test]
fn push_recent_keeps_the_last_values() {
    let mut q = std::collections::VecDeque::new();
    for v in 1..=5 {
        push_recent(&mut q, v, 3);
    }
    assert_eq!(q, [3, 4, 5]);
    push_recent(&mut q, 6, 0);
    assert!(q.is_empty());
}

#[test]
fn trend_direction_is_comparable() {
    assert_ne!(TrendDirection::Up, TrendDirection::Down);
    let d = TrendDirection::Down;
    let copy = d;
    assert_eq!(copy, TrendDirection::Down);
}

#[test]
fn detector_repeated_instant_revises() {
    let t = start();
    for secs in [60u64, 3_600, 2 * 86_400] {
        let mut d = AdaptiveTimeDetector::new(Duration::from_secs(secs));
        assert!(!d.should_replace(nanos(t)));
        assert!(d.should_replace(nanos(t)));
        assert!(d.should_replace(nanos(t)));
    }
}
