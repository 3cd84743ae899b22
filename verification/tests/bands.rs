use chrono_ta::indicators::crossover::{crossed_above, crossed_below};
use chrono_ta::indicators::price_level::Level;
use chrono_ta::indicators::supertrend::{BandState, TrendDirection};

fn at(k: i64) -> Level {
    Level::Ordered(k)
}

#[test]
fn lower_and_higher_pass_over_unordered() {
    assert_eq!(at(3).lower(at(5)), at(3));
    assert_eq!(at(5).lower(at(3)), at(3));
    assert_eq!(at(3).higher(at(5)), at(5));
    assert_eq!(Level::Unordered.lower(at(5)), at(5));
    assert_eq!(at(5).higher(Level::Unordered), at(5));
    assert_eq!(Level::Unordered.higher(Level::Unordered), Level::Unordered);
}

#[test]
fn comparisons_with_unordered_are_false() {
    assert!(at(1).below(at(2)));
    assert!(!at(2).below(at(2)));
    assert!(at(2).at_most(at(2)));
    assert!(!Level::Unordered.below(at(2)));
    assert!(!at(2).at_most(Level::Unordered));
}

#[test]
fn cross_above_needs_at_or_below_then_strictly_above() {
    assert!(crossed_above(Some((at(1), at(2))), Some((at(3), at(2)))));
    assert!(crossed_above(Some((at(2), at(2))), Some((at(3), at(2)))));
    assert!(!crossed_above(Some((at(3), at(2))), Some((at(4), at(2)))));
    assert!(!crossed_above(Some((at(1), at(2))), Some((at(2), at(2)))));
    assert!(!crossed_above(None, Some((at(3), at(2)))));
    assert!(!crossed_above(Some((Level::Unordered, at(2))), Some((at(3), at(2)))));
}

#[test]
fn cross_below_is_cross_above_with_series_exchanged() {
    let cases = [
        (Some((at(3), at(2))), Some((at(1), at(2)))),
        (Some((at(2), at(2))), Some((at(1), at(2)))),
        (Some((at(1), at(2))), Some((at(0), at(2)))),
        (None, Some((at(1), at(2)))),
    ];
    for (previous, current) in cases {
        let swap = |p: Option<(Level, Level)>| p.map(|(a, b)| (b, a));
        assert_eq!(crossed_below(previous, current), crossed_above(swap(previous), swap(current)));
        assert!(!(crossed_below(previous, current) && crossed_above(previous, current)));
    }
    assert!(crossed_below(Some((at(3), at(2))), Some((at(1), at(2)))));
    assert!(!crossed_below(Some((at(1), at(2))), Some((at(0), at(2)))));
}

#[test]
fn bands_start_in_an_uptrend() {
    let state = BandState::initial();
    assert_eq!(state.direction, TrendDirection::Up);
    assert_eq!(state.upper, None);
    assert_eq!(state.lower, None);
}

#[test]
fn first_bar_takes_the_basic_bands() {
    let (state, value) = BandState::initial().step(at(16), at(4), at(10));
    assert_eq!(state.upper, Some(at(16)));
    assert_eq!(state.lower, Some(at(4)));
    assert_eq!(state.direction, TrendDirection::Up);
    assert_eq!(value, at(4));
}

#[test]
fn lower_band_ratchets_up_in_an_uptrend() {
    let (state, _) = BandState::initial().step(at(16), at(4), at(10));
    // A lower basic band does not pull the final lower band down.
    let (state, value) = state.step(at(14), at(2), at(10));
    assert_eq!(state.lower, Some(at(4)));
    assert_eq!(value, at(4));
    // A higher basic band lifts it.
    let (state, _) = state.step(at(18), at(6), at(10));
    assert_eq!(state.lower, Some(at(6)));
    // The upper band follows the basic band in an uptrend.
    assert_eq!(state.upper, Some(at(18)));
}

#[test]
fn close_below_lower_band_flips_to_downtrend() {
    let mut state = BandState::initial();
    for _ in 0..5 {
        let (next, _) = state.step(at(16), at(4), at(10));
        assert_eq!(next.direction, TrendDirection::Up);
        state = next;
    }
    // The lower band is parked at 4; a close at 2 breaks it.
    let (state, value) = state.step(at(8), at(-4), at(2));
    assert_eq!(state.direction, TrendDirection::Down);
    assert_eq!(state.lower, Some(at(4)));
    assert_eq!(value, at(8));
}

#[test]
fn upper_band_ratchets_down_and_close_above_flips_up() {
    let down = BandState { upper: Some(at(8)), lower: Some(at(4)), direction: TrendDirection::Down };
    let (state, value) = down.step(at(12), at(0), at(7));
    assert_eq!(state.upper, Some(at(8)));
    assert_eq!(state.direction, TrendDirection::Down);
    assert_eq!(value, at(8));
    let (state, value) = state.step(at(12), at(0), at(9));
    assert_eq!(state.direction, TrendDirection::Up);
    assert_eq!(value, at(0));
}

#[test]
fn unordered_close_never_flips() {
    let (state, _) = BandState::initial().step(at(16), at(4), at(10));
    let (state, _) = state.step(at(16), at(4), Level::Unordered);
    assert_eq!(state.direction, TrendDirection::Up);
}
