use std::collections::VecDeque;
use std::time::Duration;

use chrono::{DateTime, Duration as ChronoDuration, TimeZone, Utc};
use chrono_ta::errors::TaError;
use chrono_ta::indicators::adaptive::AdaptiveTimeDetector;
use chrono_ta::indicators::bars::{LiveBar, SealedState};
use chrono_ta::indicators::crossover::CrossAbove;
use chrono_ta::indicators::elapsed::{AdaptiveWindow, BucketWindow};
use chrono_ta::indicators::fixed_time_bucket::{BucketUpdate, FixedTimeBucket};
use chrono_ta::indicators::lag::Lag;
use chrono_ta::indicators::price_level::Level;
use chrono_ta::indicators::time_window::TimeWindow;

fn nanos(t: DateTime<Utc>) -> Option<i64> {
    t.timestamp_nanos_opt()
}

fn start() -> DateTime<Utc> {
    Utc.with_ymd_and_hms(2026, 1, 1, 0, 0, 0).unwrap()
}

#[test]
fn bucket_tracker_resumes_from_parts() {
    let minute = Duration::from_secs(60);
    let mut live = FixedTimeBucket::new(minute).unwrap();
    live.update(nanos(start()));
    let mut resumed = FixedTimeBucket::from_parts(live.width(), live.current()).unwrap();
    assert_eq!(resumed.current(), live.current());
    let later = nanos(start() + ChronoDuration::seconds(30));
    assert_eq!(resumed.update(later), live.update(later));
    assert_eq!(resumed.update(later), BucketUpdate::Replace);
    assert_eq!(
        FixedTimeBucket::from_parts(Duration::ZERO, None).unwrap_err(),
        TaError::InvalidParameter
    );
}

#[test]
fn live_bar_and_sealed_state_resume_from_parts() {
    let minute = Duration::from_secs(60);
    let mut live = LiveBar::new(minute).unwrap();
    live.update(nanos(start()), 9.0);
    live.update(nanos(start() + ChronoDuration::minutes(1)), 14.0);
    let buckets = FixedTimeBucket::from_parts(live.width(), live.buckets().current()).unwrap();
    let mut resumed = LiveBar::from_parts(buckets, live.previous(), live.current());
    assert_eq!(resumed.previous(), Some(9.0));
    assert_eq!(resumed.current(), Some(14.0));
    // A revision keeps the sealed bar in both.
    let revision = nanos(start() + ChronoDuration::seconds(90));
    assert_eq!(resumed.update(revision, 15.0), live.update(revision, 15.0));
    assert_eq!(resumed.previous(), live.previous());

    let mut sealed = SealedState::from_snapshot(Some(3u8));
    assert_eq!(sealed.snapshot(), Some(3));
    assert_eq!(sealed.resolve(BucketUpdate::Replace, 7), 3);
}

#[test]
fn time_window_holds_the_entries_it_is_given() {
    let entries: VecDeque<(i64, f64)> = vec![(1, 1.0), (2, 2.0)].into_iter().collect();
    let window = TimeWindow::from_entries(entries.clone());
    assert_eq!(window.entries(), &entries);
    assert_eq!(window.len(), 2);
}

#[test]
fn adaptive_window_resumes_from_parts() {
    let mut live = AdaptiveWindow::new(Duration::from_secs(10)).unwrap();
    live.next(nanos(start()), 1.0);
    let detector = AdaptiveTimeDetector::from_parts(live.detector().frequency(), live.detector().last());
    let window = TimeWindow::from_entries(live.window().entries().clone());
    let mut resumed = AdaptiveWindow::from_parts(live.duration(), detector, window).unwrap();
    let later = nanos(start() + ChronoDuration::seconds(1));
    let a = live.next(later, 2.0);
    let b = resumed.next(later, 2.0);
    assert_eq!(a.expired, b.expired);
    assert_eq!(a.replaced, b.replaced);
    assert_eq!(live.window().entries(), resumed.window().entries());
    assert!(AdaptiveWindow::<f64>::from_parts(
        Duration::ZERO,
        AdaptiveTimeDetector::new(Duration::from_secs(10)),
        TimeWindow::new()
    )
    .is_err());
}

#[test]
fn bucket_window_resumes_from_parts_and_checks_spans() {
    let mut live = BucketWindow::new(Duration::from_secs(180), Duration::from_secs(60)).unwrap();
    live.next(nanos(start()), 1.0);
    let buckets = FixedTimeBucket::from_parts(live.bucket_width(), live.buckets().current()).unwrap();
    let window = TimeWindow::from_entries(live.window().entries().clone());
    let mut resumed = BucketWindow::from_parts(live.duration(), buckets, window).unwrap();
    let later = nanos(start() + ChronoDuration::seconds(30));
    assert_eq!(resumed.next(later, 2.0).0, live.next(later, 2.0).0);
    assert_eq!(resumed.window().entries(), live.window().entries());
    let wide = FixedTimeBucket::new(Duration::from_secs(600)).unwrap();
    assert_eq!(
        BucketWindow::<f64>::from_parts(Duration::from_secs(180), wide, TimeWindow::new()).unwrap_err(),
        TaError::InvalidParameter
    );
}

#[test]
fn lag_resumes_from_parts() {
    let mut live = Lag::new(Duration::from_secs(1)).unwrap();
    live.next(nanos(start()), 1.0);
    let detector = AdaptiveTimeDetector::from_parts(live.detector().frequency(), live.detector().last());
    let mut resumed = Lag::from_parts(live.duration(), live.history_ref().clone(), detector.clone()).unwrap();
    let later = nanos(start() + ChronoDuration::seconds(1));
    assert_eq!(live.next(later, 2.0), Some(1.0));
    assert_eq!(resumed.next(later, 2.0), Some(1.0));
    assert!(Lag::<f64>::from_parts(Duration::ZERO, VecDeque::new(), detector).is_err());
}

#[test]
fn cross_detector_resumes_from_its_bars() {
    let mut live = CrossAbove::new(Duration::from_secs(60)).unwrap();
    live.next(nanos(start()), (Level::Ordered(1), Level::Ordered(2)));
    let buckets = FixedTimeBucket::from_parts(live.bucket_width(), live.bars().buckets().current()).unwrap();
    let bars = LiveBar::from_parts(buckets, live.bars().previous(), live.bars().current());
    let mut resumed = CrossAbove::from_bars(bars);
    let later = nanos(start() + ChronoDuration::minutes(1));
    let pair = (Level::Ordered(3), Level::Ordered(2));
    assert!(live.next(later, pair));
    assert!(resumed.next(later, pair));
}
