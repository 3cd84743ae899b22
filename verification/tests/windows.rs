use chrono_ta::errors::TaError;
use chrono_ta::time::check_bucketed_window;
use std::time::Duration;
use chrono_ta::indicators::extrema::SlidingExtrema;
use chrono_ta::indicators::time_window::TimeWindow;

#[test]
fn window_expires_exact_boundary() {
    // Observations at or before `now - span` leave; later ones stay.
    let mut w = TimeWindow::new();
    w.push(0, 2.0);
    w.push(1, 2.0);
    w.push(2, 3.0);
    let (expired, revised) = w.advance(3 - 3, false, 3, 4.0);
    assert_eq!(expired, vec![2.0]);
    assert_eq!(revised, None);
    let values: Vec<f64> = w.entries().iter().map(|e| e.1).collect();
    assert_eq!(values, vec![2.0, 3.0, 4.0]);
}

#[test]
fn window_revision_replaces() {
    let mut w = TimeWindow::new();
    w.advance(-60, false, 0, 2.0);
    let (expired, revised) = w.advance(-60, true, 0, 7.0);
    assert!(expired.is_empty());
    assert_eq!(revised, Some(2.0));
    assert_eq!(w.len(), 1);
    assert_eq!(w.pop_newest(), Some(7.0));
    assert_eq!(w.pop_newest(), None);
}

#[test]
fn window_pop_oldest_and_clear() {
    let mut w = TimeWindow::new();
    w.push(5, 'a');
    w.push(6, 'b');
    assert_eq!(w.pop_oldest(), Some('a'));
    w.clear();
    assert_eq!(w.len(), 0);
    assert_eq!(w.expire_through(i64::MAX), Vec::<char>::new());
}

#[test]
fn extrema_fold_in_the_live_bar() {
    let mut e = SlidingExtrema::new();
    e.commit(0, 10, 8);
    e.commit(1, 12, 9);
    assert_eq!(e.extremes(11, 7), (12, 7));
    e.expire_through(0);
    assert_eq!(e.extremes(11, 10), (12, 9));
    e.expire_through(i64::MAX);
    assert_eq!(e.extremes(5, 4), (5, 4));
    e.commit(3, -3, -9);
    e.clear();
    assert_eq!(e.extremes(1, 1), (1, 1));
}

#[test]
fn extrema_handles_extreme_keys() {
    let mut e = SlidingExtrema::new();
    e.commit(0, i64::MIN, i64::MAX);
    e.commit(0, i64::MAX, i64::MIN);
    assert_eq!(e.extremes(0, 0), (i64::MAX, i64::MIN));
}

#[test]
fn bucketed_window_spans_are_checked() {
    let day = Duration::from_secs(86_400);
    let hour = Duration::from_secs(3_600);
    assert_eq!(check_bucketed_window(&day, &hour), Ok(()));
    assert_eq!(check_bucketed_window(&day, &day), Ok(()));
    assert_eq!(check_bucketed_window(&hour, &day), Err(TaError::InvalidParameter));
    assert_eq!(check_bucketed_window(&Duration::ZERO, &Duration::ZERO), Err(TaError::InvalidParameter));
    assert_eq!(check_bucketed_window(&day, &Duration::ZERO), Err(TaError::InvalidParameter));
}
