use std::time::Duration;

use chrono::{DateTime, NaiveDateTime, TimeZone, Utc};
use chrono_ta::indicators::minimum::MinimumWindow;

fn datetime(s: &str) -> DateTime<Utc> {
    NaiveDateTime::parse_from_str(s, "%Y-%m-%d %H:%M:%S").unwrap().and_utc()
}

/// An integer whose order is the order of the finite floats.
fn key(x: f64) -> i64 {
    let bits = x.to_bits() as i64;
    if bits < 0 {
        bits ^ i64::MAX
    } else {
        bits
    }
}

fn value(k: i64) -> f64 {
    let bits = if k < 0 { k ^ i64::MAX } else { k };
    f64::from_bits(bits as u64)
}

fn min_at(m: &mut MinimumWindow<DateTime<Utc>>, t: DateTime<Utc>, x: f64) -> f64 {
    assert!(m.accepts(t.timestamp_nanos_opt()));
    value(m.next(t, t.timestamp_nanos_opt(), key(x)))
}

#[test]
fn test_new() {
    assert!(MinimumWindow::<DateTime<Utc>>::new(Duration::from_secs(0)).is_err());
    assert!(MinimumWindow::<DateTime<Utc>>::new(Duration::from_secs(86400)).is_ok());
}

#[test]
fn test_next() {
    let duration = Duration::from_secs(2 * 86400);
    let mut min = MinimumWindow::new(duration).unwrap();

    assert_eq!(min_at(&mut min, datetime("2023-01-01 00:00:00"), 4.0), 4.0);
    assert_eq!(min_at(&mut min, datetime("2023-01-02 00:00:00"), 1.2), 1.2);
    assert_eq!(min_at(&mut min, datetime("2023-01-03 00:00:00"), 5.0), 1.2);
    assert_eq!(min_at(&mut min, datetime("2023-01-04 00:00:00"), 3.0), 1.2);
    assert_eq!(min_at(&mut min, datetime("2023-01-05 00:00:00"), 4.0), 3.0);
    assert_eq!(min_at(&mut min, datetime("2023-01-06 00:00:00"), 6.0), 3.0);
    assert_eq!(min_at(&mut min, datetime("2023-01-07 00:00:00"), 7.0), 4.0);
    assert_eq!(min_at(&mut min, datetime("2023-01-08 00:00:00"), 8.0), 6.0);
    assert_eq!(min_at(&mut min, datetime("2023-01-09 00:00:00"), -9.0), -9.0);
    assert_eq!(min_at(&mut min, datetime("2023-01-10 00:00:00"), 0.0), -9.0);
}

#[test]
fn test_reset() {
    let duration = Duration::from_secs(10 * 86400);
    let mut min = MinimumWindow::new(duration).unwrap();

    assert_eq!(min_at(&mut min, datetime("2023-01-01 00:00:00"), 5.0), 5.0);
    assert_eq!(min_at(&mut min, datetime("2023-01-02 00:00:00"), 7.0), 5.0);

    min.reset();
    assert_eq!(min_at(&mut min, datetime("2023-01-03 00:00:00"), 8.0), 8.0);
}

fn lcg(state: &mut u64) -> u64 {
    *state = state
        .wrapping_mul(6364136223846793005)
        .wrapping_add(1442695040888963407);
    *state >> 33
}

/// The O(1) candidate path equals a scan of the retained window on every call.
#[test]
fn monotonic_matches_scan_over_random_sequences() {
    let mut state: u64 = 0x2545_F491_4F6C_DD1D;
    for &secs in &[2u64, 3600, 86_400, 7 * 86_400] {
        let mut min = MinimumWindow::new(Duration::from_secs(secs)).unwrap();
        let mut t = Utc.with_ymd_and_hms(2020, 1, 1, 0, 0, 0).unwrap();
        for _ in 0..1500 {
            let step = (lcg(&mut state) % (secs * 2 + 1)) as i64;
            t = t + chrono::Duration::seconds(step);
            let v = (lcg(&mut state) % 20_000) as f64 / 100.0 - 100.0;
            let got = min_at(&mut min, t, v);
            let scan = min
                .get_window()
                .iter()
                .map(|&(_, k)| value(k))
                .fold(f64::INFINITY, f64::min);
            assert_eq!(got, scan);
        }
    }
}

/// Past 500 observations the window is thinned; the thinned minimum can never
/// fall below the true minimum.
#[test]
fn monotonic_matches_scan_across_thinning() {
    let mut min = MinimumWindow::new(Duration::from_secs(1_000_000 * 86_400)).unwrap();
    let start = Utc.with_ymd_and_hms(2000, 1, 1, 0, 0, 0).unwrap();
    let mut true_running_min = f64::INFINITY;
    for i in 0..900i64 {
        let v = ((i.wrapping_mul(2_654_435_761)) % 1000) as f64;
        true_running_min = true_running_min.min(v);
        let got = min_at(&mut min, start + chrono::Duration::seconds(i), v);
        assert!(got.is_finite());
        assert!(got >= true_running_min, "thinned min fell below true min");
    }
}

#[test]
fn thinning_bounds_the_window() {
    // A long window with one-second buckets collects 501 observations, which
    // thins to 10 + 196 + 100.
    let mut min = MinimumWindow::new(Duration::from_secs(100 * 86_400)).unwrap();
    let start = Utc.with_ymd_and_hms(2000, 1, 1, 0, 0, 0).unwrap();
    for i in 0..501i64 {
        min_at(&mut min, start + chrono::Duration::hours(4 * i), (501 - i) as f64);
    }
    assert_eq!(min.get_window().len(), 10 + 196 + 100);
}

#[test]
fn restore_rebuilds_candidates() {
    let duration = Duration::from_secs(7 * 86_400);
    let start = Utc.with_ymd_and_hms(2024, 1, 2, 9, 30, 0).unwrap();
    let mut uninterrupted = MinimumWindow::new(duration).unwrap();
    for (offset, v) in [(0, 100.0), (30, 95.0), (390, 101.0), (1_440, 102.0)] {
        min_at(&mut uninterrupted, start + chrono::Duration::minutes(offset), v);
    }
    let saved: std::collections::VecDeque<_> = uninterrupted.entries_ref().iter().copied().collect();
    let detector = uninterrupted.detector();
    let detector = chrono_ta::indicators::adaptive::AdaptiveTimeDetector::from_parts(
        detector.frequency(),
        detector.last(),
    );
    let mut resumed = MinimumWindow::restore(duration, saved, detector).unwrap();
    let t = start + chrono::Duration::minutes(1_500);
    assert_eq!(min_at(&mut resumed, t, 90.0), min_at(&mut uninterrupted, t, 90.0));
    assert_eq!(resumed.get_window(), uninterrupted.get_window());
}

#[test]
fn rejects_decreasing_instants() {
    let mut min = MinimumWindow::new(Duration::from_secs(60)).unwrap();
    let t = Utc.with_ymd_and_hms(2024, 1, 1, 0, 0, 0).unwrap();
    min_at(&mut min, t, 1.0);
    assert!(!min.accepts((t - chrono::Duration::seconds(1)).timestamp_nanos_opt()));
}
