//! The value an elapsed-time span ago.
use std::collections::VecDeque;
use std::time::Duration;

use vstd::prelude::*;

use crate::errors::TaError;
use crate::indicators::adaptive::{frequency_for, same_bucket, AdaptiveTimeDetector, DetectedFrequency};
use crate::indicators::time_window::instants_nondecreasing;
use crate::time::{
    cutoff_at, duration_as_nanos, duration_nanos, instant_or_max, instant_or_min, nanos_or_max,
    nanos_or_min, span_nanos, span_of, window_cutoff,
};

verus! {

/// `s` with leading observations dropped while the one after them is still at
/// or before `target`.
pub open spec fn prune_history<V>(s: Seq<(i64, V)>, target: i64) -> Seq<(i64, V)>
    decreases s.len(),
{
    if s.len() > 1 && s[1].0 <= target {
        prune_history(s.drop_first(), target)
    } else {
        s
    }
}

/// The value of the newest observation of `s` at or before `target`.
pub open spec fn latest_at_or_before<V>(s: Seq<(i64, V)>, target: i64) -> Option<V>
    decreases s.len(),
{
    if s.len() == 0 {
        None
    } else if s.last().0 <= target {
        Some(s.last().1)
    } else {
        latest_at_or_before(s.drop_last(), target)
    }
}

/// What `Lag` answers from its pruned history: the front's value when the
/// front is at or before `target`.
pub open spec fn front_at_or_before<V>(s: Seq<(i64, V)>, target: i64) -> Option<V> {
    if s.len() > 0 && s[0].0 <= target {
        Some(s[0].1)
    } else {
        None
    }
}

/// The history after the revision and the append an observation makes.
pub open spec fn lag_appended<V>(history: Seq<(i64, V)>, replace: bool, candidate: i64, value: V) -> Seq<(i64, V)> {
    if replace && history.len() > 0 {
        history.drop_last().push((candidate, value))
    } else {
        history.push((candidate, value))
    }
}

/// Pruning only ever drops leading observations.
pub proof fn lemma_prune_is_suffix<V>(s: Seq<(i64, V)>, target: i64) -> (k: int)
    ensures
        0 <= k <= s.len(),
        prune_history(s, target) == s.skip(k),
    decreases s.len(),
{
    if s.len() > 1 && s[1].0 <= target {
        let t = s.drop_first();
        let k1 = lemma_prune_is_suffix(t, target);
        assert(t.skip(k1) =~= s.skip(k1 + 1));
        k1 + 1
    } else {
        assert(s.skip(0) =~= s);
        0
    }
}

/// A revision supersedes the live value: the history keeps its length and
/// every older observation, and its newest observation becomes the revision,
/// so the superseded value is gone. An observation in a new bucket goes
/// after every older one.
pub proof fn lemma_revision_supersedes<V>(history: Seq<(i64, V)>, candidate: i64, value: V)
    ensures
        history.len() > 0 ==> {
            let revised = lag_appended(history, true, candidate, value);
            &&& revised.len() == history.len()
            &&& revised.last() == (candidate, value)
            &&& forall|i: int| 0 <= i < history.len() - 1 ==> #[trigger] revised[i] == history[i]
        },
        ({
            let appended = lag_appended(history, false, candidate, value);
            &&& appended.len() == history.len() + 1
            &&& appended.last() == (candidate, value)
            &&& forall|i: int| 0 <= i < history.len() ==> #[trigger] appended[i] == history[i]
        }),
{
}

/// Pruning keeps a suffix that starts at most one observation before the
/// first one after `target`.
pub proof fn lemma_prune_shape<V>(s: Seq<(i64, V)>, target: i64) -> (k: int)
    requires
        instants_nondecreasing(s),
        s.len() >= 1,
    ensures
        0 <= k < s.len(),
        prune_history(s, target) == s.skip(k),
        k > 0 ==> s[k].0 <= target,
        k + 1 < s.len() ==> s[k + 1].0 > target,
    decreases s.len(),
{
    if s.len() > 1 && s[1].0 <= target {
        let t = s.drop_first();
        assert(instants_nondecreasing(t)) by {
            assert forall|i: int, j: int| 0 <= i <= j < t.len() implies #[trigger] t[i].0
                <= #[trigger] t[j].0 by {
                assert(t[i] == s[i + 1] && t[j] == s[j + 1]);
            }
        }
        let k1 = lemma_prune_shape(t, target);
        assert(t.skip(k1) =~= s.skip(k1 + 1));
        if k1 > 0 {
            assert(t[k1] == s[k1 + 1]);
        }
        if k1 + 2 < s.len() {
            assert(t[k1 + 1] == s[k1 + 2]);
        }
        k1 + 1
    } else {
        assert(s.skip(0) =~= s);
        0
    }
}

proof fn lemma_latest_at_index<V>(s: Seq<(i64, V)>, target: i64, j: int)
    requires
        instants_nondecreasing(s),
        0 <= j < s.len(),
        s[j].0 <= target,
        j + 1 < s.len() ==> s[j + 1].0 > target,
    ensures
        latest_at_or_before(s, target) == Some(s[j].1),
    decreases s.len(),
{
    if j < s.len() - 1 {
        let d = s.drop_last();
        assert(s[j + 1].0 <= s[s.len() - 1].0);
        assert(instants_nondecreasing(d)) by {
            assert forall|a: int, b: int| 0 <= a <= b < d.len() implies #[trigger] d[a].0
                <= #[trigger] d[b].0 by {
                assert(d[a] == s[a] && d[b] == s[b]);
            }
        }
        if j + 1 < d.len() {
            assert(d[j + 1] == s[j + 1]);
        }
        lemma_latest_at_index(d, target, j);
    }
}

proof fn lemma_latest_none<V>(s: Seq<(i64, V)>, target: i64)
    requires
        forall|i: int| 0 <= i < s.len() ==> #[trigger] s[i].0 > target,
    ensures
        latest_at_or_before(s, target) is None,
    decreases s.len(),
{
    if s.len() > 0 {
        let d = s.drop_last();
        assert forall|i: int| 0 <= i < d.len() implies #[trigger] d[i].0 > target by {
            assert(d[i] == s[i]);
        }
        assert(s[s.len() - 1].0 > target);
        lemma_latest_none(d, target);
    }
}

/// On nondecreasing instants, what `Lag` reads off its pruned history is the
/// value of the newest observation at or before the target.
pub proof fn lemma_lag_answers_latest<V>(s: Seq<(i64, V)>, target: i64)
    requires
        instants_nondecreasing(s),
        s.len() >= 1,
    ensures
        front_at_or_before(prune_history(s, target), target) == latest_at_or_before(s, target),
{
    let k = lemma_prune_shape(s, target);
    let p = prune_history(s, target);
    assert(p[0] == s[k]);
    if s[k].0 <= target {
        lemma_latest_at_index(s, target, k);
    } else {
        assert(k == 0);
        assert forall|i: int| 0 <= i < s.len() implies #[trigger] s[i].0 > target by {
            assert(s[0].0 <= s[i].0);
        }
        lemma_latest_none(s, target);
    }
}

/// On nondecreasing instants, pruning for `target` loses nothing a later
/// target (`later >= target`) would answer with.
pub proof fn lemma_prune_keeps_later_answers<V>(s: Seq<(i64, V)>, target: i64, later: i64)
    requires
        instants_nondecreasing(s),
        later >= target,
    ensures
        latest_at_or_before(prune_history(s, target), later) == latest_at_or_before(s, later),
        instants_nondecreasing(prune_history(s, target)),
{
    if s.len() == 0 {
        return;
    }
    let k = lemma_prune_shape(s, target);
    let p = s.skip(k);
    assert(instants_nondecreasing(p)) by {
        assert forall|a: int, b: int| 0 <= a <= b < p.len() implies #[trigger] p[a].0
            <= #[trigger] p[b].0 by {
            assert(p[a] == s[a + k] && p[b] == s[b + k]);
        }
    }
    if exists|i: int| 0 <= i < s.len() && #[trigger] s[i].0 <= later {
        let i0 = choose|i: int| 0 <= i < s.len() && #[trigger] s[i].0 <= later;
        // The last observation at or before `later`.
        let j = lemma_last_at_or_before(s, later, i0);
        if k > 0 {
            assert(s[k].0 <= later);
            if j < k {
                assert(s[j + 1].0 <= s[k].0);
            }
        }
        assert(j >= k);
        lemma_latest_at_index(s, later, j);
        assert(p[j - k] == s[j]);
        if j - k + 1 < p.len() {
            assert(p[j - k + 1] == s[j + 1]);
        }
        lemma_latest_at_index(p, later, j - k);
    } else {
        assert forall|i: int| 0 <= i < s.len() implies #[trigger] s[i].0 > later by {}
        assert forall|i: int| 0 <= i < p.len() implies #[trigger] p[i].0 > later by {
            assert(p[i] == s[i + k]);
        }
        lemma_latest_none(s, later);
        lemma_latest_none(p, later);
    }
}

proof fn lemma_last_at_or_before<V>(s: Seq<(i64, V)>, target: i64, i: int) -> (j: int)
    requires
        instants_nondecreasing(s),
        0 <= i < s.len(),
        s[i].0 <= target,
    ensures
        i <= j < s.len(),
        s[j].0 <= target,
        j + 1 < s.len() ==> s[j + 1].0 > target,
    decreases s.len() - i,
{
    if i + 1 < s.len() && s[i + 1].0 <= target {
        lemma_last_at_or_before(s, target, i + 1)
    } else {
        i
    }
}

/// Returns the newest observation at or before `timestamp - duration`.
#[derive(Debug, Clone)]
pub struct Lag<V> {
    duration: Duration,
    history: VecDeque<(i64, V)>,
    detector: AdaptiveTimeDetector,
}

impl<V: Copy> Lag<V> {
    /// The configured lag.
    pub closed spec fn duration_spec(&self) -> Duration {
        self.duration
    }

    /// The retained history: instants (out-of-range read as `i64::MAX`) and
    /// values, oldest first.
    pub closed spec fn history(&self) -> Seq<(i64, V)> {
        self.history@
    }

    /// The replacement policy in force.
    pub closed spec fn frequency_spec(&self) -> DetectedFrequency {
        self.detector.frequency_spec()
    }

    /// The instant of the latest observation, if any.
    pub closed spec fn last_instant(&self) -> Option<i64> {
        self.detector.last_instant()
    }

    /// A lag of `duration`; a zero duration is refused.
    pub fn new(duration: Duration) -> (r: Result<Self, TaError>)
        ensures
            duration_nanos(duration) == 0 <==> r is Err,
            r matches Err(e) ==> e == TaError::InvalidParameter,
            r matches Ok(lag) ==> {
                &&& lag.duration_spec() == duration
                &&& lag.history() == Seq::<(i64, V)>::empty()
                &&& lag.frequency_spec() == frequency_for(duration_nanos(duration))
                &&& lag.last_instant() is None
            },
    {
        if duration_as_nanos(&duration) == 0 {
            return Err(TaError::InvalidParameter);
        }
        Ok(Lag { duration, history: VecDeque::new(), detector: AdaptiveTimeDetector::new(duration) })
    }

    /// A lag resumed from its duration, its retained history and its
    /// detector; a zero duration is refused.
    pub fn from_parts(duration: Duration, history: VecDeque<(i64, V)>, detector: AdaptiveTimeDetector) -> (r: Result<
        Self,
        TaError,
    >)
        ensures
            duration_nanos(duration) == 0 <==> r is Err,
            r matches Err(e) ==> e == TaError::InvalidParameter,
            r matches Ok(lag) ==> {
                &&& lag.duration_spec() == duration
                &&& lag.history() == history@
                &&& lag.frequency_spec() == detector.frequency_spec()
                &&& lag.last_instant() == detector.last_instant()
            },
    {
        if duration_as_nanos(&duration) == 0 {
            return Err(TaError::InvalidParameter);
        }
        Ok(Lag { duration, history, detector })
    }

    /// The retained history, oldest first.
    pub fn history_ref(&self) -> (r: &VecDeque<(i64, V)>)
        ensures
            r@ == self.history(),
    {
        &self.history
    }

    /// The detector that decides revisions.
    pub fn detector(&self) -> (r: &AdaptiveTimeDetector)
        ensures
            r.frequency_spec() == self.frequency_spec(),
            r.last_instant() == self.last_instant(),
    {
        &self.detector
    }

    /// The configured lag.
    pub fn duration(&self) -> (r: Duration)
        ensures
            r == self.duration_spec(),
    {
        self.duration
    }

    /// Records the observation at `timestamp_nanos` (revising the previous one
    /// when it falls in the same adaptive bucket) and returns the value of the
    /// newest observation at or before `timestamp - duration`, if one is left.
    pub fn next(&mut self, timestamp_nanos: Option<i64>, value: V) -> (r: Option<V>)
        ensures
            ({
                let replace = match old(self).last_instant() {
                    None => false,
                    Some(p) => same_bucket(old(self).frequency_spec(), p, nanos_or_min(timestamp_nanos)),
                };
                let target = window_cutoff(nanos_or_min(timestamp_nanos), span_nanos(old(self).duration_spec()));
                let appended = lag_appended(old(self).history(), replace, nanos_or_max(timestamp_nanos), value);
                &&& final(self).history() == prune_history(appended, target)
                &&& r == front_at_or_before(final(self).history(), target)
            }),
            ({
                let replace = match old(self).last_instant() {
                    None => false,
                    Some(p) => same_bucket(old(self).frequency_spec(), p, nanos_or_min(timestamp_nanos)),
                };
                let kept = if replace && old(self).history().len() > 0 {
                    old(self).history().drop_last()
                } else {
                    old(self).history()
                };
                let n = final(self).history().len();
                &&& 1 <= n <= kept.len() + 1
                &&& final(self).history()[n - 1] == (nanos_or_max(timestamp_nanos), value)
                &&& forall|i: int|
                    0 <= i < n - 1 ==> #[trigger] final(self).history()[i] == kept[kept.len() + 1 - n + i]
            }),
            final(self).duration_spec() == old(self).duration_spec(),
            final(self).frequency_spec() == old(self).frequency_spec(),
            final(self).last_instant() == Some(nanos_or_min(timestamp_nanos)),
    {
        let replace = self.detector.should_replace(timestamp_nanos);
        if replace {
            self.history.pop_back();
        }
        self.history.push_back((instant_or_max(timestamp_nanos), value));
        let target = cutoff_at(instant_or_min(timestamp_nanos), span_of(&self.duration));
        let ghost appended = self.history@;
        let ghost duration = self.duration;
        let ghost detector = self.detector;
        while self.history.len() > 1 && self.history[1].0 <= target
            invariant
                self.duration == duration,
                self.detector == detector,
                self.history@.len() >= 1,
                prune_history(appended, target) == prune_history(self.history@, target),
            decreases self.history@.len(),
        {
            self.history.pop_front();
        }
        proof {
            let k = lemma_prune_is_suffix(appended, target);
            let h0 = old(self).history@;
            let kept = if replace && h0.len() > 0 {
                h0.drop_last()
            } else {
                h0
            };
            assert(appended =~= kept.push((nanos_or_max(timestamp_nanos), value)));
            assert(self.history@ == kept.push((nanos_or_max(timestamp_nanos), value)).skip(k));
            let full = kept.push((nanos_or_max(timestamp_nanos), value));
            let n = self.history@.len();
            assert(n >= 1);
            assert forall|i: int| 0 <= i < n - 1 implies #[trigger] self.history@[i] == kept[kept.len() + 1 - n + i] by {
                assert(self.history@[i] == full[k + i]);
            }
            assert(self.history@[n - 1] == full[k + n - 1]);
        }
        if self.history[0].0 <= target {
            Some(self.history[0].1)
        } else {
            None
        }
    }

    /// Forgets every observation.
    pub fn reset(&mut self)
        ensures
            final(self).duration_spec() == old(self).duration_spec(),
            final(self).frequency_spec() == old(self).frequency_spec(),
            final(self).history() == Seq::<(i64, V)>::empty(),
            final(self).last_instant() is None,
    {
        self.history.clear();
        self.detector.reset();
    }
}

} // verus!
