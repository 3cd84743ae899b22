//! Crosses of one series over another between the last sealed bar and the
//! live bar.
use std::time::Duration;

use vstd::prelude::*;

use crate::errors::TaError;
use crate::indicators::bars::LiveBar;
use crate::indicators::fixed_time_bucket::{bucket_index, bucket_transition, BucketUpdate};
use crate::indicators::price_level::{level_at_most, level_below, Level};
use crate::time::{duration_nanos, nanos_or_min};

verus! {

/// `lhs` was at or below `rhs` on the previous bar and is strictly above it
/// on the current one.
pub open spec fn crosses_above(previous: Option<(Level, Level)>, current: Option<(Level, Level)>) -> bool {
    &&& previous matches Some((previous_lhs, previous_rhs))
    &&& current matches Some((lhs, rhs))
    &&& level_at_most(previous_lhs, previous_rhs)
    &&& level_below(rhs, lhs)
}

/// `lhs` was at or above `rhs` on the previous bar and is strictly below it
/// on the current one.
pub open spec fn crosses_below(previous: Option<(Level, Level)>, current: Option<(Level, Level)>) -> bool {
    &&& previous matches Some((previous_lhs, previous_rhs))
    &&& current matches Some((lhs, rhs))
    &&& level_at_most(previous_rhs, previous_lhs)
    &&& level_below(lhs, rhs)
}

/// The pair with its two series exchanged.
pub open spec fn swapped(pair: Option<(Level, Level)>) -> Option<(Level, Level)> {
    match pair {
        Some((lhs, rhs)) => Some((rhs, lhs)),
        None => None,
    }
}

/// Whether `lhs` crossed above `rhs` from the `previous` bar to the `current`
/// one; false while either bar is missing.
pub fn crossed_above(previous: Option<(Level, Level)>, current: Option<(Level, Level)>) -> (r: bool)
    ensures
        r == crosses_above(previous, current),
{
    match (previous, current) {
        (Some((previous_lhs, previous_rhs)), Some((lhs, rhs))) => previous_lhs.at_most(previous_rhs)
            && rhs.below(lhs),
        _ => false,
    }
}

/// Whether `lhs` crossed below `rhs` from the `previous` bar to the `current`
/// one; false while either bar is missing.
pub fn crossed_below(previous: Option<(Level, Level)>, current: Option<(Level, Level)>) -> (r: bool)
    ensures
        r == crosses_below(previous, current),
{
    match (previous, current) {
        (Some((previous_lhs, previous_rhs)), Some((lhs, rhs))) => previous_rhs.at_most(previous_lhs)
            && lhs.below(rhs),
        _ => false,
    }
}

/// Detects a transition from `lhs <= rhs` to `lhs > rhs` between the last
/// sealed bar and the live bar.
#[derive(Debug, Clone)]
pub struct CrossAbove {
    bars: LiveBar<(Level, Level)>,
}

impl CrossAbove {
    /// The live pair and the pair of the last sealed bar.
    pub closed spec fn bars_spec(&self) -> LiveBar<(Level, Level)> {
        self.bars
    }

    /// No bars yet; a zero bucket width is refused.
    pub fn new(bucket_width: Duration) -> (r: Result<Self, TaError>)
        ensures
            duration_nanos(bucket_width) == 0 <==> r is Err,
            r matches Err(e) ==> e == TaError::InvalidParameter,
            r matches Ok(c) ==> {
                &&& c.bars_spec().buckets_spec().width_spec() == bucket_width
                &&& c.bars_spec().buckets_spec().current_bucket() is None
                &&& c.bars_spec().previous_spec() is None
                &&& c.bars_spec().current_spec() is None
            },
    {
        match LiveBar::new(bucket_width) {
            Ok(bars) => Ok(CrossAbove { bars }),
            Err(e) => Err(e),
        }
    }

    /// A detector resumed from its bars.
    pub fn from_bars(bars: LiveBar<(Level, Level)>) -> (r: Self)
        ensures
            r.bars_spec() == bars,
    {
        CrossAbove { bars }
    }

    /// The live pair and the pair of the last sealed bar.
    pub fn bars(&self) -> (r: &LiveBar<(Level, Level)>)
        ensures
            *r == self.bars_spec(),
    {
        &self.bars
    }

    /// The bucket width.
    pub fn bucket_width(&self) -> (r: Duration)
        ensures
            r == self.bars_spec().buckets_spec().width_spec(),
    {
        self.bars.width()
    }

    /// Records `pair` for the bar at `timestamp_nanos` (a revision when it
    /// falls in the live bucket) and reports whether `lhs` crossed above `rhs`.
    pub fn next(&mut self, timestamp_nanos: Option<i64>, pair: (Level, Level)) -> (r: bool)
        ensures
            ({
                let bucket = bucket_index(
                    nanos_or_min(timestamp_nanos),
                    old(self).bars_spec().buckets_spec().width_nanos(),
                );
                let update = bucket_transition(old(self).bars_spec().buckets_spec().current_bucket(), bucket);
                &&& final(self).bars_spec().buckets_spec().width_spec() == old(
                    self,
                ).bars_spec().buckets_spec().width_spec()
                &&& final(self).bars_spec().buckets_spec().current_bucket() == Some(bucket as i64)
                &&& final(self).bars_spec().current_spec() == Some(pair)
                &&& final(self).bars_spec().previous_spec() == if update == BucketUpdate::Append {
                    old(self).bars_spec().current_spec()
                } else {
                    old(self).bars_spec().previous_spec()
                }
            }),
            r == crosses_above(final(self).bars_spec().previous_spec(), Some(pair)),
    {
        self.bars.update(timestamp_nanos, pair);
        crossed_above(self.bars.previous(), self.bars.current())
    }

    /// Forgets both bars and the current bucket.
    pub fn reset(&mut self)
        ensures
            final(self).bars_spec().buckets_spec().width_spec() == old(self).bars_spec().buckets_spec().width_spec(),
            final(self).bars_spec().buckets_spec().current_bucket() is None,
            final(self).bars_spec().previous_spec() is None,
            final(self).bars_spec().current_spec() is None,
    {
        self.bars.reset();
    }
}

/// Detects a transition from `lhs >= rhs` to `lhs < rhs` between the last
/// sealed bar and the live bar.
#[derive(Debug, Clone)]
pub struct CrossBelow {
    bars: LiveBar<(Level, Level)>,
}

impl CrossBelow {
    /// The live pair and the pair of the last sealed bar.
    pub closed spec fn bars_spec(&self) -> LiveBar<(Level, Level)> {
        self.bars
    }

    /// No bars yet; a zero bucket width is refused.
    pub fn new(bucket_width: Duration) -> (r: Result<Self, TaError>)
        ensures
            duration_nanos(bucket_width) == 0 <==> r is Err,
            r matches Err(e) ==> e == TaError::InvalidParameter,
            r matches Ok(c) ==> {
                &&& c.bars_spec().buckets_spec().width_spec() == bucket_width
                &&& c.bars_spec().buckets_spec().current_bucket() is None
                &&& c.bars_spec().previous_spec() is None
                &&& c.bars_spec().current_spec() is None
            },
    {
        match LiveBar::new(bucket_width) {
            Ok(bars) => Ok(CrossBelow { bars }),
            Err(e) => Err(e),
        }
    }

    /// A detector resumed from its bars.
    pub fn from_bars(bars: LiveBar<(Level, Level)>) -> (r: Self)
        ensures
            r.bars_spec() == bars,
    {
        CrossBelow { bars }
    }

    /// The live pair and the pair of the last sealed bar.
    pub fn bars(&self) -> (r: &LiveBar<(Level, Level)>)
        ensures
            *r == self.bars_spec(),
    {
        &self.bars
    }

    /// The bucket width.
    pub fn bucket_width(&self) -> (r: Duration)
        ensures
            r == self.bars_spec().buckets_spec().width_spec(),
    {
        self.bars.width()
    }

    /// Records `pair` for the bar at `timestamp_nanos` (a revision when it
    /// falls in the live bucket) and reports whether `lhs` crossed below `rhs`.
    pub fn next(&mut self, timestamp_nanos: Option<i64>, pair: (Level, Level)) -> (r: bool)
        ensures
            ({
                let bucket = bucket_index(
                    nanos_or_min(timestamp_nanos),
                    old(self).bars_spec().buckets_spec().width_nanos(),
                );
                let update = bucket_transition(old(self).bars_spec().buckets_spec().current_bucket(), bucket);
                &&& final(self).bars_spec().buckets_spec().width_spec() == old(
                    self,
                ).bars_spec().buckets_spec().width_spec()
                &&& final(self).bars_spec().buckets_spec().current_bucket() == Some(bucket as i64)
                &&& final(self).bars_spec().current_spec() == Some(pair)
                &&& final(self).bars_spec().previous_spec() == if update == BucketUpdate::Append {
                    old(self).bars_spec().current_spec()
                } else {
                    old(self).bars_spec().previous_spec()
                }
            }),
            r == crosses_below(final(self).bars_spec().previous_spec(), Some(pair)),
    {
        self.bars.update(timestamp_nanos, pair);
        crossed_below(self.bars.previous(), self.bars.current())
    }

    /// Forgets both bars and the current bucket.
    pub fn reset(&mut self)
        ensures
            final(self).bars_spec().buckets_spec().width_spec() == old(self).bars_spec().buckets_spec().width_spec(),
            final(self).bars_spec().buckets_spec().current_bucket() is None,
            final(self).bars_spec().previous_spec() is None,
            final(self).bars_spec().current_spec() is None,
    {
        self.bars.reset();
    }
}

/// A cross below is a cross above with the two series exchanged.
pub proof fn lemma_cross_below_is_swapped_cross_above(
    previous: Option<(Level, Level)>,
    current: Option<(Level, Level)>,
)
    ensures
        crosses_below(previous, current) == crosses_above(swapped(previous), swapped(current)),
{
}

/// The same pair of bars never shows a cross above and a cross below at once,
/// and neither is seen before a previous bar exists.
pub proof fn lemma_crosses_exclusive(previous: Option<(Level, Level)>, current: Option<(Level, Level)>)
    ensures
        !(crosses_above(previous, current) && crosses_below(previous, current)),
        previous is None ==> !crosses_above(previous, current) && !crosses_below(previous, current),
{
}

} // verus!
