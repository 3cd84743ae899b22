//! Bar state that survives revisions of the live bucket: the value of the
//! previous sealed bar, the path-dependent state sealed with it, and short
//! histories bounded by count.
use std::collections::VecDeque;
use std::time::Duration;

use vstd::prelude::*;

use crate::errors::TaError;
use crate::indicators::fixed_time_bucket::{bucket_index, bucket_transition, BucketUpdate, FixedTimeBucket};
use crate::time::{duration_nanos, nanos_or_min};

verus! {

/// The live bar's value and the sealed bar before it, bucketed by a fixed
/// width. A revision of the live bucket changes the live value only: the
/// previous value advances only when a new bucket begins.
#[derive(Debug, Clone)]
pub struct LiveBar<P> {
    buckets: FixedTimeBucket,
    previous: Option<P>,
    current: Option<P>,
}

impl<P: Copy> LiveBar<P> {
    /// The bucket tracker.
    pub closed spec fn buckets_spec(&self) -> FixedTimeBucket {
        self.buckets
    }

    /// The value of the last sealed bar, if any.
    pub closed spec fn previous_spec(&self) -> Option<P> {
        self.previous
    }

    /// The value of the live bar, if any.
    pub closed spec fn current_spec(&self) -> Option<P> {
        self.current
    }

    /// No bars yet; a zero width is refused.
    pub fn new(width: Duration) -> (r: Result<Self, TaError>)
        ensures
            duration_nanos(width) == 0 <==> r is Err,
            r matches Err(e) ==> e == TaError::InvalidParameter,
            r matches Ok(b) ==> {
                &&& b.buckets_spec().width_spec() == width
                &&& b.buckets_spec().current_bucket() is None
                &&& b.previous_spec() is None
                &&& b.current_spec() is None
            },
    {
        match FixedTimeBucket::new(width) {
            Ok(buckets) => Ok(LiveBar { buckets, previous: None, current: None }),
            Err(e) => Err(e),
        }
    }

    /// A live bar resumed from its bucket tracker and its two bars.
    pub fn from_parts(buckets: FixedTimeBucket, previous: Option<P>, current: Option<P>) -> (r: Self)
        ensures
            r.buckets_spec() == buckets,
            r.previous_spec() == previous,
            r.current_spec() == current,
    {
        LiveBar { buckets, previous, current }
    }

    /// The bucket tracker.
    pub fn buckets(&self) -> (r: &FixedTimeBucket)
        ensures
            *r == self.buckets_spec(),
    {
        &self.buckets
    }

    /// Records `value` for the bar at `timestamp_nanos`: a new bucket seals the
    /// live bar as the previous one; otherwise the live bar is revised.
    pub fn update(&mut self, timestamp_nanos: Option<i64>, value: P) -> (r: BucketUpdate)
        ensures
            r == bucket_transition(
                old(self).buckets_spec().current_bucket(),
                bucket_index(nanos_or_min(timestamp_nanos), old(self).buckets_spec().width_nanos()),
            ),
            final(self).buckets_spec().width_spec() == old(self).buckets_spec().width_spec(),
            final(self).buckets_spec().current_bucket() == Some(
                bucket_index(nanos_or_min(timestamp_nanos), old(self).buckets_spec().width_nanos()) as i64,
            ),
            final(self).current_spec() == Some(value),
            final(self).previous_spec() == if r == BucketUpdate::Append {
                old(self).current_spec()
            } else {
                old(self).previous_spec()
            },
    {
        let update = self.buckets.update(timestamp_nanos);
        if update == BucketUpdate::Append {
            self.previous = self.current;
        }
        self.current = Some(value);
        update
    }

    /// The value of the last sealed bar, if any.
    pub fn previous(&self) -> (r: Option<P>)
        ensures
            r == self.previous_spec(),
    {
        self.previous
    }

    /// The value of the live bar, if any.
    pub fn current(&self) -> (r: Option<P>)
        ensures
            r == self.current_spec(),
    {
        self.current
    }

    /// The bucket width.
    pub fn width(&self) -> (r: Duration)
        ensures
            r == self.buckets_spec().width_spec(),
    {
        self.buckets.width()
    }

    /// Forgets both bars and the current bucket.
    pub fn reset(&mut self)
        ensures
            final(self).buckets_spec().width_spec() == old(self).buckets_spec().width_spec(),
            final(self).buckets_spec().current_bucket() is None,
            final(self).previous_spec() is None,
            final(self).current_spec() is None,
    {
        self.buckets.reset();
        self.previous = None;
        self.current = None;
    }
}

/// Path-dependent state sealed at each new bucket, so a revision of the live
/// bucket re-evaluates from the sealed state instead of compounding onto its
/// own earlier revision.
#[derive(Debug, Clone)]
pub struct SealedState<S> {
    snapshot: Option<S>,
}

/// The state a bucket update starts from: the live state on a new bucket,
/// otherwise the sealed snapshot when there is one.
pub open spec fn resolved_state<S>(snapshot: Option<S>, update: BucketUpdate, live: S) -> S {
    if update == BucketUpdate::Append {
        live
    } else {
        match snapshot {
            Some(s) => s,
            None => live,
        }
    }
}

impl<S: Copy> SealedState<S> {
    /// The sealed state, if a bucket has been sealed.
    pub closed spec fn snapshot_spec(&self) -> Option<S> {
        self.snapshot
    }

    /// Nothing sealed yet.
    pub fn new() -> (r: Self)
        ensures
            r.snapshot_spec() is None,
    {
        SealedState { snapshot: None }
    }

    /// A sealed state resumed from its snapshot.
    pub fn from_snapshot(snapshot: Option<S>) -> (r: Self)
        ensures
            r.snapshot_spec() == snapshot,
    {
        SealedState { snapshot }
    }

    /// Seals `live` on a new bucket; returns the state the update starts from.
    pub fn resolve(&mut self, update: BucketUpdate, live: S) -> (r: S)
        ensures
            r == resolved_state(old(self).snapshot_spec(), update, live),
            final(self).snapshot_spec() == if update == BucketUpdate::Append {
                Some(live)
            } else {
                old(self).snapshot_spec()
            },
    {
        if update == BucketUpdate::Append {
            self.snapshot = Some(live);
            live
        } else {
            match self.snapshot {
                Some(s) => s,
                None => live,
            }
        }
    }

    /// The sealed state, if any.
    pub fn snapshot(&self) -> (r: Option<S>)
        ensures
            r == self.snapshot_spec(),
    {
        self.snapshot
    }

    /// Forgets the sealed state.
    pub fn reset(&mut self)
        ensures
            final(self).snapshot_spec() is None,
    {
        self.snapshot = None;
    }
}

/// Revisions do not compound: once a bucket is sealed, every revision of the
/// live bucket starts from the same sealed state, whatever state earlier
/// revisions left behind.
pub proof fn lemma_revisions_start_from_seal<S>(sealed: S, first_live: S, later_live: S)
    ensures
        resolved_state(Some(sealed), BucketUpdate::Replace, first_live) == resolved_state(
            Some(sealed),
            BucketUpdate::Replace,
            later_live,
        ),
        resolved_state(Some(sealed), BucketUpdate::Replace, later_live) == sealed,
{
}

/// The last `cap` elements of `s` (all of them when there are fewer).
pub open spec fn last_n<V>(s: Seq<V>, cap: nat) -> Seq<V> {
    if s.len() > cap {
        s.skip(s.len() - cap)
    } else {
        s
    }
}

/// Appends `v` and drops the oldest values beyond `cap`.
pub fn push_recent<V>(q: &mut VecDeque<V>, v: V, cap: usize)
    ensures
        final(q)@ == last_n(old(q)@.push(v), cap as nat),
{
    q.push_back(v);
    let ghost pushed = q@;
    while q.len() > cap
        invariant
            last_n(pushed, cap as nat) == last_n(q@, cap as nat),
        decreases q@.len(),
    {
        let ghost before = q@;
        q.pop_front();
        proof {
            assert(q@ =~= before.drop_first());
            assert(before.skip(before.len() - cap) =~= q@.skip(q@.len() - cap));
        }
    }
}

} // verus!
