//! Supertrend's band logic: final bands that ratchet with the trend and a
//! direction that flips when the close crosses the opposite band.
use vstd::prelude::*;

use crate::indicators::price_level::{higher_level, level_below, lower_level, Level};

verus! {

/// Supertrend direction: which band is currently active.
#[derive(Debug, Clone, Copy, PartialEq, Eq, Structural)]
pub enum TrendDirection {
    Up,
    Down,
}

/// The path-dependent state of the bands: the final upper and lower bands
/// (absent before the first bar) and the active direction.
#[derive(Debug, Clone, Copy, PartialEq, Eq, Structural)]
pub struct BandState {
    pub upper: Option<Level>,
    pub lower: Option<Level>,
    pub direction: TrendDirection,
}

/// The final upper band: in a downtrend it never rises above the previous
/// final upper band.
pub open spec fn final_upper(state: BandState, basic_upper: Level) -> Level {
    match state.upper {
        Some(previous) => if state.direction == TrendDirection::Down {
            lower_level(basic_upper, previous)
        } else {
            basic_upper
        },
        None => basic_upper,
    }
}

/// The final lower band: in an uptrend it never falls below the previous
/// final lower band.
pub open spec fn final_lower(state: BandState, basic_lower: Level) -> Level {
    match state.lower {
        Some(previous) => if state.direction == TrendDirection::Up {
            higher_level(basic_lower, previous)
        } else {
            basic_lower
        },
        None => basic_lower,
    }
}

/// The direction after the bar: an uptrend turns down when the close falls
/// below the final lower band, a downtrend turns up when the close rises
/// above the final upper band.
pub open spec fn next_direction(direction: TrendDirection, upper: Level, lower: Level, close: Level) -> TrendDirection {
    match direction {
        TrendDirection::Up => if level_below(close, lower) {
            TrendDirection::Down
        } else {
            TrendDirection::Up
        },
        TrendDirection::Down => if level_below(upper, close) {
            TrendDirection::Up
        } else {
            TrendDirection::Down
        },
    }
}

/// The band state after a bar with the given basic bands and close.
pub open spec fn next_bands(state: BandState, basic_upper: Level, basic_lower: Level, close: Level) -> BandState {
    let upper = final_upper(state, basic_upper);
    let lower = final_lower(state, basic_lower);
    BandState {
        upper: Some(upper),
        lower: Some(lower),
        direction: next_direction(state.direction, upper, lower, close),
    }
}

/// The active band: the lower band in an uptrend, the upper in a downtrend.
pub open spec fn active_band(upper: Level, lower: Level, direction: TrendDirection) -> Level {
    match direction {
        TrendDirection::Up => lower,
        TrendDirection::Down => upper,
    }
}

impl BandState {
    /// No bands yet, in an uptrend.
    pub fn initial() -> (r: BandState)
        ensures
            r.upper is None,
            r.lower is None,
            r.direction == TrendDirection::Up,
    {
        BandState { upper: None, lower: None, direction: TrendDirection::Up }
    }

    /// Applies one bar: ratchets the final bands, flips the direction on a
    /// cross of the close over the opposite band, and returns the new state
    /// with the value of its active band.
    pub fn step(self, basic_upper: Level, basic_lower: Level, close: Level) -> (r: (BandState, Level))
        ensures
            r.0 == next_bands(self, basic_upper, basic_lower, close),
            r.1 == active_band(
                final_upper(self, basic_upper),
                final_lower(self, basic_lower),
                r.0.direction,
            ),
            self.direction == TrendDirection::Down ==> r.0.lower == Some(basic_lower),
            self.direction == TrendDirection::Up ==> r.0.upper == Some(basic_upper),
            self.lower is None ==> r.0.lower == Some(basic_lower),
            self.upper is None ==> r.0.upper == Some(basic_upper),
            r.0.upper is Some && r.0.lower is Some,
            r.1 == if r.0.direction == TrendDirection::Up {
                r.0.lower->0
            } else {
                r.0.upper->0
            },
    {
        let upper = match self.upper {
            Some(previous) => if self.direction == TrendDirection::Down {
                basic_upper.lower(previous)
            } else {
                basic_upper
            },
            None => basic_upper,
        };
        let lower = match self.lower {
            Some(previous) => if self.direction == TrendDirection::Up {
                basic_lower.higher(previous)
            } else {
                basic_lower
            },
            None => basic_lower,
        };
        let direction = match self.direction {
            TrendDirection::Up => if close.below(lower) {
                TrendDirection::Down
            } else {
                TrendDirection::Up
            },
            TrendDirection::Down => if upper.below(close) {
                TrendDirection::Up
            } else {
                TrendDirection::Down
            },
        };
        let value = match direction {
            TrendDirection::Up => lower,
            TrendDirection::Down => upper,
        };
        (BandState { upper: Some(upper), lower: Some(lower), direction }, value)
    }
}

/// The final lower band ratchets: in an uptrend it never moves down,
/// whatever the new basic bands are.
pub proof fn lemma_lower_band_ratchets(
    state: BandState,
    basic_upper: Level,
    basic_lower: Level,
    close: Level,
    previous: i64,
)
    requires
        state.direction == TrendDirection::Up,
        state.lower == Some(Level::Ordered(previous)),
    ensures
        next_bands(state, basic_upper, basic_lower, close).lower matches Some(Level::Ordered(now))
            && previous <= now,
{
}

/// The final upper band ratchets: in a downtrend it never moves up,
/// whatever the new basic bands are.
pub proof fn lemma_upper_band_ratchets(
    state: BandState,
    basic_upper: Level,
    basic_lower: Level,
    close: Level,
    previous: i64,
)
    requires
        state.direction == TrendDirection::Down,
        state.upper == Some(Level::Ordered(previous)),
    ensures
        next_bands(state, basic_upper, basic_lower, close).upper matches Some(Level::Ordered(now))
            && now <= previous,
{
}

/// Against the trend a final band is the new basic band: in a downtrend the
/// lower band, in an uptrend the upper band; and before a first band exists,
/// either band is the basic one.
pub proof fn lemma_bands_reset_against_trend(
    state: BandState,
    basic_upper: Level,
    basic_lower: Level,
    close: Level,
)
    ensures
        state.direction == TrendDirection::Down ==> next_bands(state, basic_upper, basic_lower, close).lower
            == Some(basic_lower),
        state.direction == TrendDirection::Up ==> next_bands(state, basic_upper, basic_lower, close).upper
            == Some(basic_upper),
        state.lower is None ==> next_bands(state, basic_upper, basic_lower, close).lower == Some(basic_lower),
        state.upper is None ==> next_bands(state, basic_upper, basic_lower, close).upper == Some(basic_upper),
{
}

/// With the trend, the final band is the more favourable of the basic band
/// and the previous band: the higher lower band in an uptrend, the lower
/// upper band in a downtrend.
pub proof fn lemma_bands_follow_trend(
    state: BandState,
    basic_upper: i64,
    basic_lower: i64,
    close: Level,
    previous: i64,
)
    ensures
        (state.direction == TrendDirection::Up && state.lower == Some(Level::Ordered(previous))) ==> next_bands(
            state,
            Level::Ordered(basic_upper),
            Level::Ordered(basic_lower),
            close,
        ).lower == Some(Level::Ordered(if basic_lower > previous { basic_lower } else { previous })),
        (state.direction == TrendDirection::Down && state.upper == Some(Level::Ordered(previous))) ==> next_bands(
            state,
            Level::Ordered(basic_upper),
            Level::Ordered(basic_lower),
            close,
        ).upper == Some(Level::Ordered(if basic_upper < previous { basic_upper } else { previous })),
{
}

/// The direction changes exactly when the close crosses the band opposite
/// to the trend: below the final lower band in an uptrend, above the final
/// upper band in a downtrend.
pub proof fn lemma_flips_on_cross(state: BandState, basic_upper: Level, basic_lower: Level, close: Level)
    ensures
        ({
            let next = next_bands(state, basic_upper, basic_lower, close);
            let upper = final_upper(state, basic_upper);
            let lower = final_lower(state, basic_lower);
            &&& next.direction != state.direction <==> (state.direction == TrendDirection::Up
                && level_below(close, lower)) || (state.direction == TrendDirection::Down
                && level_below(upper, close))
            &&& next.upper == Some(upper)
            &&& next.lower == Some(lower)
        }),
{
}

} // verus!
