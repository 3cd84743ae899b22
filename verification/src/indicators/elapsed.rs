//! Elapsed-time windows with their replacement policy attached: the adaptive
//! policy of duration-windowed indicators, or fixed-width bar buckets.
use std::time::Duration;

use vstd::prelude::*;

use crate::errors::TaError;
use crate::indicators::adaptive::{frequency_for, same_bucket, AdaptiveTimeDetector, DetectedFrequency};
use crate::indicators::fixed_time_bucket::{bucket_index, bucket_transition, BucketUpdate, FixedTimeBucket};
use crate::indicators::time_window::{expired_prefix_len, values_of, window_advance, TimeWindow};
use crate::time::{
    cutoff_at, duration_as_nanos, duration_nanos, instant_or_min, nanos_or_min, span_nanos, span_of,
    window_cutoff,
};

verus! {

/// The changes one observation makes to a window: the values that expired,
/// oldest first, and the value a revision replaced.
#[derive(Debug, Clone)]
pub struct WindowChange<V> {
    pub expired: Vec<V>,
    pub replaced: Option<V>,
}

/// An elapsed-time window whose revisions follow the adaptive policy of its
/// duration.
#[derive(Debug, Clone)]
pub struct AdaptiveWindow<V> {
    duration: Duration,
    detector: AdaptiveTimeDetector,
    window: TimeWindow<V>,
}

impl<V> AdaptiveWindow<V> {
    /// The configured window.
    pub closed spec fn duration_spec(&self) -> Duration {
        self.duration
    }

    /// The replacement policy in force.
    pub closed spec fn frequency_spec(&self) -> DetectedFrequency {
        self.detector.frequency_spec()
    }

    /// The instant of the latest observation, if any.
    pub closed spec fn last_instant(&self) -> Option<i64> {
        self.detector.last_instant()
    }

    /// The retained observations, oldest first.
    pub closed spec fn observations(&self) -> Seq<(i64, V)> {
        self.window@
    }

    /// An empty window of `duration`; a zero duration is refused.
    pub fn new(duration: Duration) -> (r: Result<Self, TaError>)
        ensures
            duration_nanos(duration) == 0 <==> r is Err,
            r matches Err(e) ==> e == TaError::InvalidParameter,
            r matches Ok(w) ==> {
                &&& w.duration_spec() == duration
                &&& w.frequency_spec() == frequency_for(duration_nanos(duration))
                &&& w.last_instant() is None
                &&& w.observations() == Seq::<(i64, V)>::empty()
            },
    {
        if duration_as_nanos(&duration) == 0 {
            return Err(TaError::InvalidParameter);
        }
        Ok(AdaptiveWindow { duration, detector: AdaptiveTimeDetector::new(duration), window: TimeWindow::new() })
    }

    /// A window resumed from its duration, its detector and its retained
    /// observations; a zero duration is refused.
    pub fn from_parts(duration: Duration, detector: AdaptiveTimeDetector, window: TimeWindow<V>) -> (r: Result<
        Self,
        TaError,
    >)
        ensures
            duration_nanos(duration) == 0 <==> r is Err,
            r matches Err(e) ==> e == TaError::InvalidParameter,
            r matches Ok(w) ==> {
                &&& w.duration_spec() == duration
                &&& w.frequency_spec() == detector.frequency_spec()
                &&& w.last_instant() == detector.last_instant()
                &&& w.observations() == window@
            },
    {
        if duration_as_nanos(&duration) == 0 {
            return Err(TaError::InvalidParameter);
        }
        Ok(AdaptiveWindow { duration, detector, window })
    }

    /// The detector that decides revisions.
    pub fn detector(&self) -> (r: &AdaptiveTimeDetector)
        ensures
            r.frequency_spec() == self.frequency_spec(),
            r.last_instant() == self.last_instant(),
    {
        &self.detector
    }

    /// The configured window.
    pub fn duration(&self) -> (r: Duration)
        ensures
            r == self.duration_spec(),
    {
        self.duration
    }

    /// The retained observations.
    pub fn window(&self) -> (r: &TimeWindow<V>)
        ensures
            r@ == self.observations(),
    {
        &self.window
    }

    /// Expires observations at or before `timestamp - duration`, revises the
    /// newest one when the observation falls in its adaptive bucket, and
    /// appends the observation.
    pub fn next(&mut self, timestamp_nanos: Option<i64>, value: V) -> (r: WindowChange<V>)
        ensures
            ({
                let now = nanos_or_min(timestamp_nanos);
                let replace = match old(self).last_instant() {
                    None => false,
                    Some(p) => same_bucket(old(self).frequency_spec(), p, now),
                };
                let cutoff = window_cutoff(now, span_nanos(old(self).duration_spec()));
                let k = expired_prefix_len(old(self).observations(), cutoff) as int;
                let kept = old(self).observations().skip(k);
                &&& final(self).observations() == window_advance(old(self).observations(), cutoff, replace, now, value)
                &&& r.expired@ == values_of(old(self).observations().take(k))
                &&& r.replaced == if replace && kept.len() > 0 {
                    Some(kept.last().1)
                } else {
                    None
                }
            }),
            final(self).duration_spec() == old(self).duration_spec(),
            final(self).frequency_spec() == old(self).frequency_spec(),
            final(self).last_instant() == Some(nanos_or_min(timestamp_nanos)),
    {
        let replace = self.detector.should_replace(timestamp_nanos);
        let now = instant_or_min(timestamp_nanos);
        let cutoff = cutoff_at(now, span_of(&self.duration));
        let (expired, replaced) = self.window.advance(cutoff, replace, now, value);
        WindowChange { expired, replaced }
    }

    /// Forgets every observation.
    pub fn reset(&mut self)
        ensures
            final(self).duration_spec() == old(self).duration_spec(),
            final(self).frequency_spec() == old(self).frequency_spec(),
            final(self).last_instant() is None,
            final(self).observations() == Seq::<(i64, V)>::empty(),
    {
        self.window.clear();
        self.detector.reset();
    }
}

/// An elapsed-time window of bars whose revisions follow fixed-width UTC
/// buckets.
#[derive(Debug, Clone)]
pub struct BucketWindow<V> {
    duration: Duration,
    buckets: FixedTimeBucket,
    window: TimeWindow<V>,
}

impl<V> BucketWindow<V> {
    /// The configured window.
    pub closed spec fn duration_spec(&self) -> Duration {
        self.duration
    }

    /// The bucket tracker.
    pub closed spec fn buckets_spec(&self) -> FixedTimeBucket {
        self.buckets
    }

    /// The retained bars, oldest first.
    pub closed spec fn observations(&self) -> Seq<(i64, V)> {
        self.window@
    }

    /// An empty window of `duration` with buckets of `bucket_width`; a zero
    /// duration, a zero width, or a width longer than the window is refused.
    pub fn new(duration: Duration, bucket_width: Duration) -> (r: Result<Self, TaError>)
        ensures
            (duration_nanos(duration) == 0 || duration_nanos(bucket_width) == 0 || duration_nanos(
                bucket_width,
            ) > duration_nanos(duration)) <==> r is Err,
            r matches Err(e) ==> e == TaError::InvalidParameter,
            r matches Ok(w) ==> {
                &&& w.duration_spec() == duration
                &&& w.buckets_spec().width_spec() == bucket_width
                &&& w.buckets_spec().current_bucket() is None
                &&& w.observations() == Seq::<(i64, V)>::empty()
            },
    {
        let span = duration_as_nanos(&duration);
        let width = duration_as_nanos(&bucket_width);
        if span == 0 || width > span {
            return Err(TaError::InvalidParameter);
        }
        match FixedTimeBucket::new(bucket_width) {
            Ok(buckets) => Ok(BucketWindow { duration, buckets, window: TimeWindow::new() }),
            Err(e) => Err(e),
        }
    }

    /// The configured window.
    pub fn duration(&self) -> (r: Duration)
        ensures
            r == self.duration_spec(),
    {
        self.duration
    }

    /// A window resumed from its duration, its bucket tracker and its
    /// retained bars; refused as `new` refuses its spans.
    pub fn from_parts(duration: Duration, buckets: FixedTimeBucket, window: TimeWindow<V>) -> (r: Result<
        Self,
        TaError,
    >)
        ensures
            (duration_nanos(duration) == 0 || duration_nanos(buckets.width_spec()) > duration_nanos(duration))
                <==> r is Err,
            r matches Err(e) ==> e == TaError::InvalidParameter,
            r matches Ok(w) ==> {
                &&& w.duration_spec() == duration
                &&& w.buckets_spec() == buckets
                &&& w.observations() == window@
            },
    {
        let span = duration_as_nanos(&duration);
        let width_duration = buckets.width();
        let width = duration_as_nanos(&width_duration);
        if span == 0 || width > span {
            return Err(TaError::InvalidParameter);
        }
        Ok(BucketWindow { duration, buckets, window })
    }

    /// The bucket tracker.
    pub fn buckets(&self) -> (r: &FixedTimeBucket)
        ensures
            *r == self.buckets_spec(),
    {
        &self.buckets
    }

    /// The bucket width.
    pub fn bucket_width(&self) -> (r: Duration)
        ensures
            r == self.buckets_spec().width_spec(),
    {
        self.buckets.width()
    }

    /// The retained bars.
    pub fn window(&self) -> (r: &TimeWindow<V>)
        ensures
            r@ == self.observations(),
    {
        &self.window
    }

    /// Classifies the bar's bucket, expires bars at or before
    /// `timestamp - duration`, revises the newest bar when the bucket repeats,
    /// and appends the bar.
    pub fn next(&mut self, timestamp_nanos: Option<i64>, value: V) -> (r: (BucketUpdate, WindowChange<V>))
        ensures
            ({
                let now = nanos_or_min(timestamp_nanos);
                let update = bucket_transition(
                    old(self).buckets_spec().current_bucket(),
                    bucket_index(now, old(self).buckets_spec().width_nanos()),
                );
                let cutoff = window_cutoff(now, span_nanos(old(self).duration_spec()));
                let replace = update == BucketUpdate::Replace;
                let k = expired_prefix_len(old(self).observations(), cutoff) as int;
                let kept = old(self).observations().skip(k);
                &&& r.0 == update
                &&& final(self).observations() == window_advance(old(self).observations(), cutoff, replace, now, value)
                &&& r.1.expired@ == values_of(old(self).observations().take(k))
                &&& r.1.replaced == if replace && kept.len() > 0 {
                    Some(kept.last().1)
                } else {
                    None
                }
                &&& final(self).buckets_spec().current_bucket() == Some(
                    bucket_index(now, old(self).buckets_spec().width_nanos()) as i64,
                )
            }),
            final(self).duration_spec() == old(self).duration_spec(),
            final(self).buckets_spec().width_spec() == old(self).buckets_spec().width_spec(),
    {
        let update = self.buckets.update(timestamp_nanos);
        let now = instant_or_min(timestamp_nanos);
        let cutoff = cutoff_at(now, span_of(&self.duration));
        let (expired, replaced) = self.window.advance(cutoff, update == BucketUpdate::Replace, now, value);
        (update, WindowChange { expired, replaced })
    }

    /// Classifies the bar's bucket, revises the newest bar when the bucket
    /// repeats, appends the bar, and then expires bars at or before
    /// `timestamp - duration`.
    pub fn next_then_expire(&mut self, timestamp_nanos: Option<i64>, value: V) -> (r: (BucketUpdate, WindowChange<V>))
        ensures
            ({
                let now = nanos_or_min(timestamp_nanos);
                let update = bucket_transition(
                    old(self).buckets_spec().current_bucket(),
                    bucket_index(now, old(self).buckets_spec().width_nanos()),
                );
                let cutoff = window_cutoff(now, span_nanos(old(self).duration_spec()));
                let old_obs = old(self).observations();
                let revised = if update == BucketUpdate::Replace && old_obs.len() > 0 {
                    old_obs.drop_last()
                } else {
                    old_obs
                };
                let appended = revised.push((now, value));
                let k = expired_prefix_len(appended, cutoff) as int;
                &&& r.0 == update
                &&& final(self).observations() == appended.skip(k)
                &&& r.1.expired@ == values_of(appended.take(k))
                &&& r.1.replaced == if update == BucketUpdate::Replace && old_obs.len() > 0 {
                    Some(old_obs.last().1)
                } else {
                    None
                }
                &&& final(self).buckets_spec().current_bucket() == Some(
                    bucket_index(now, old(self).buckets_spec().width_nanos()) as i64,
                )
            }),
            final(self).duration_spec() == old(self).duration_spec(),
            final(self).buckets_spec().width_spec() == old(self).buckets_spec().width_spec(),
    {
        let update = self.buckets.update(timestamp_nanos);
        let now = instant_or_min(timestamp_nanos);
        let replaced = if update == BucketUpdate::Replace {
            self.window.pop_newest()
        } else {
            None
        };
        self.window.push(now, value);
        let cutoff = cutoff_at(now, span_of(&self.duration));
        let expired = self.window.expire_through(cutoff);
        (update, WindowChange { expired, replaced })
    }

    /// Forgets every bar and the current bucket.
    pub fn reset(&mut self)
        ensures
            final(self).duration_spec() == old(self).duration_spec(),
            final(self).buckets_spec().width_spec() == old(self).buckets_spec().width_spec(),
            final(self).buckets_spec().current_bucket() is None,
            final(self).observations() == Seq::<(i64, V)>::empty(),
    {
        self.window.clear();
        self.buckets.reset();
    }
}

} // verus!
