use std::time::Duration;

use chrono::{DateTime, Duration as ChronoDuration, TimeZone, Utc};
use chrono_ta::errors::TaError;
use chrono_ta::indicators::bars::LiveBar;
use chrono_ta::indicators::crossover::{CrossAbove, CrossBelow};
use chrono_ta::indicators::elapsed::{AdaptiveWindow, BucketWindow};
use chrono_ta::indicators::fixed_time_bucket::BucketUpdate;
use chrono_ta::indicators::price_level::Level;

fn nanos(t: DateTime<Utc>) -> Option<i64> {
    t.timestamp_nanos_opt()
}

fn start() -> DateTime<Utc> {
    Utc.with_ymd_and_hms(2026, 1, 1, 0, 0, 0).unwrap()
}

/// The order key of a non-NaN price: its order is the order of the prices.
fn level(x: f64) -> Level {
    let bits = x.to_bits() as i64;
    Level::Ordered(if bits < 0 { bits ^ i64::MAX } else { bits })
}

fn retained_sum(w: &AdaptiveWindow<f64>) -> f64 {
    w.window().entries().iter().map(|e| e.1).sum()
}

#[test]
fn expires_exact_boundary_and_keeps_equal_values() {
    let mut sum = AdaptiveWindow::new(Duration::from_secs(3)).unwrap();
    let t = start();
    sum.next(nanos(t), 2.0);
    assert_eq!(retained_sum(&sum), 2.0);
    sum.next(nanos(t + ChronoDuration::seconds(1)), 2.0);
    assert_eq!(retained_sum(&sum), 4.0);
    sum.next(nanos(t + ChronoDuration::seconds(2)), 3.0);
    assert_eq!(retained_sum(&sum), 7.0);
    let change = sum.next(nanos(t + ChronoDuration::seconds(3)), 4.0);
    assert_eq!(change.expired, vec![2.0]);
    assert_eq!(retained_sum(&sum), 9.0);
}

#[test]
fn replaces_current_bucket() {
    let mut sum = AdaptiveWindow::new(Duration::from_secs(60)).unwrap();
    let t = start();
    sum.next(nanos(t), 2.0);
    assert_eq!(retained_sum(&sum), 2.0);
    let change = sum.next(nanos(t + ChronoDuration::milliseconds(500)), 7.0);
    assert_eq!(change.replaced, Some(2.0));
    assert_eq!(retained_sum(&sum), 7.0);
}

#[test]
fn adaptive_window_rejects_zero_and_resets() {
    assert_eq!(AdaptiveWindow::<f64>::new(Duration::ZERO).err(), Some(TaError::InvalidParameter));
    let mut w = AdaptiveWindow::new(Duration::from_secs(10)).unwrap();
    w.next(nanos(start()), 1.0);
    w.reset();
    assert_eq!(w.window().len(), 0);
    assert_eq!(w.duration(), Duration::from_secs(10));
}

#[test]
fn bucket_window_rejects_bad_params() {
    assert!(BucketWindow::<f64>::new(Duration::ZERO, Duration::from_secs(60)).is_err());
    assert!(BucketWindow::<f64>::new(Duration::from_secs(60), Duration::ZERO).is_err());
    assert!(BucketWindow::<f64>::new(Duration::from_secs(60), Duration::from_secs(61)).is_err());
    let w = BucketWindow::<f64>::new(Duration::from_secs(60), Duration::from_secs(60)).unwrap();
    assert_eq!(w.bucket_width(), Duration::from_secs(60));
}

#[test]
fn bucket_window_expires_before_appending() {
    // A 3-minute window of 1-minute bars: at minute 3 the bar from minute 0
    // is at the cutoff and expires.
    let t = start();
    let mut w = BucketWindow::new(Duration::from_secs(180), Duration::from_secs(60)).unwrap();
    assert_eq!(w.next(nanos(t), 2.0).0, BucketUpdate::First);
    w.next(nanos(t + ChronoDuration::minutes(1)), 6.0);
    w.next(nanos(t + ChronoDuration::minutes(2)), 4.0);
    let (update, change) = w.next(nanos(t + ChronoDuration::minutes(3)), 2.0);
    assert_eq!(update, BucketUpdate::Append);
    assert_eq!(change.expired, vec![2.0]);
    let values: Vec<f64> = w.window().entries().iter().map(|e| e.1).collect();
    assert_eq!(values, vec![6.0, 4.0, 2.0]);
    let (update, change) = w.next(nanos(t + ChronoDuration::minutes(3) + ChronoDuration::seconds(30)), 5.0);
    assert_eq!(update, BucketUpdate::Replace);
    assert_eq!(change.replaced, Some(2.0));
}

#[test]
fn bucket_window_revises_before_expiring() {
    let t = start();
    let mut w = BucketWindow::new(Duration::from_secs(120), Duration::from_secs(60)).unwrap();
    w.next_then_expire(nanos(t), 1.0);
    w.next_then_expire(nanos(t + ChronoDuration::minutes(1)), 2.0);
    let (update, change) = w.next_then_expire(nanos(t + ChronoDuration::seconds(90)), 3.0);
    assert_eq!(update, BucketUpdate::Replace);
    assert_eq!(change.replaced, Some(2.0));
    assert!(change.expired.is_empty());
    let (_, change) = w.next_then_expire(nanos(t + ChronoDuration::minutes(2)), 4.0);
    assert_eq!(change.expired, vec![1.0]);
    w.reset();
    assert_eq!(w.window().len(), 0);
}

#[test]
fn preserves_previous_bucket_close_during_revision() {
    // True range over (high, low, close) bars, computed from the live bar's
    // previous sealed close.
    let t = Utc.with_ymd_and_hms(2026, 1, 1, 0, 0, 0).unwrap();
    let mut closes = LiveBar::new(Duration::from_secs(60)).unwrap();
    let mut true_range = |at: DateTime<Utc>, high: f64, low: f64, close: f64| {
        closes.update(nanos(at), close);
        match closes.previous() {
            Some(prev) => (high - low).max((high - prev).abs()).max((low - prev).abs()),
            None => high - low,
        }
    };
    assert_eq!(true_range(t, 10.0, 8.0, 9.0), 2.0);
    assert_eq!(true_range(t + ChronoDuration::minutes(1), 15.0, 12.0, 14.0), 6.0);
    assert_eq!(
        true_range(t + ChronoDuration::minutes(1) + ChronoDuration::seconds(30), 16.0, 11.0, 15.0),
        7.0
    );
}

#[test]
fn replacement_recomputes_against_previous_bucket() {
    let t = Utc.with_ymd_and_hms(2026, 1, 1, 0, 0, 0).unwrap();
    let mut cross = CrossAbove::new(Duration::from_secs(60)).unwrap();
    let pair = |lhs: f64, rhs: f64| (level(lhs), level(rhs));
    assert!(!cross.next(nanos(t), pair(1.0, 2.0)));
    assert!(cross.next(nanos(t + ChronoDuration::minutes(1)), pair(3.0, 2.0)));
    assert!(!cross.next(
        nanos(t + ChronoDuration::minutes(1) + ChronoDuration::seconds(30)),
        pair(1.5, 2.0)
    ));
}

#[test]
fn cross_below_tracks_revisions_and_reset() {
    let t = start();
    let mut cross = CrossBelow::new(Duration::from_secs(60)).unwrap();
    assert_eq!(cross.bucket_width(), Duration::from_secs(60));
    assert!(!cross.next(nanos(t), (level(3.0), level(2.0))));
    assert!(cross.next(nanos(t + ChronoDuration::minutes(1)), (level(1.0), level(2.0))));
    // A revision that undoes the cross compares against the same sealed bar.
    assert!(!cross.next(nanos(t + ChronoDuration::seconds(90)), (level(2.5), level(2.0))));
    assert!(cross.next(nanos(t + ChronoDuration::seconds(100)), (level(0.5), level(2.0))));
    cross.reset();
    assert!(!cross.next(nanos(t + ChronoDuration::minutes(5)), (level(0.5), level(2.0))));
    assert_eq!(CrossBelow::new(Duration::ZERO).unwrap_err(), TaError::InvalidParameter);
}
