//! The minimum over an elapsed-time window, in amortized O(1) per update.
//!
//! Observations carry an order key: an integer whose order is the order of
//! the values the caller compares. The window keeps a stamp (the caller's own
//! timestamp value), the instant in nanoseconds, and the key of each
//! observation.
use std::collections::VecDeque;
use std::time::Duration;

use vstd::prelude::*;

use crate::errors::TaError;
use crate::indicators::adaptive::{frequency_for, same_bucket, AdaptiveTimeDetector, DetectedFrequency};
use crate::indicators::monotone::{
    drop_before, drop_candidates_before, is_min_key, keyed_nondecreasing, lemma_candidates_expire,
    lemma_candidates_front_is_min, lemma_candidates_push, min_candidates, pop_not_below,
    seal_candidate, Keyed,
};
use crate::indicators::thinning::{lemma_thin_bounds_growth, lemma_thin_sources, thin, thin_source, thinned, MAX_WINDOW_SIZE};
use crate::indicators::time_window::{lemma_filter_all, lemma_filter_none};
use crate::time::{duration_as_nanos, duration_nanos, instant_or_min, nanos_or_min};

verus! {

/// The instants and keys of a stamped window.
pub open spec fn observations<S>(w: Seq<(S, i64, i64)>) -> Seq<Keyed> {
    w.map_values(|e: (S, i64, i64)| (e.1, e.2))
}

/// Every observation but the newest: the ones no revision can change.
pub open spec fn sealed(obs: Seq<Keyed>) -> Seq<Keyed> {
    if obs.len() > 0 {
        obs.drop_last()
    } else {
        obs
    }
}

/// The window after expiry at `cutoff`, revision or append of the
/// observation, and thinning.
pub open spec fn minimum_step<S>(
    w: Seq<(S, i64, i64)>,
    cutoff: i64,
    replace: bool,
    stamp: S,
    instant: i64,
    key: i64,
) -> Seq<(S, i64, i64)> {
    let kept = w.filter(|e: (S, i64, i64)| e.1 >= cutoff);
    let revised = if replace && kept.len() > 0 {
        kept.drop_last()
    } else {
        kept
    };
    thin(revised.push((stamp, instant, key)))
}

proof fn lemma_sorted_skip_is_filter<S>(w: Seq<(S, i64, i64)>, k: int, cutoff: i64)
    requires
        keyed_nondecreasing(observations(w)),
        0 <= k <= w.len(),
        forall|i: int| 0 <= i < k ==> #[trigger] w[i].1 < cutoff,
        k < w.len() ==> w[k].1 >= cutoff,
    ensures
        w.skip(k) == w.filter(|e: (S, i64, i64)| e.1 >= cutoff),
{
    let pred = |e: (S, i64, i64)| e.1 >= cutoff;
    let head = w.take(k);
    let tail = w.skip(k);
    assert(w =~= head + tail);
    Seq::filter_distributes_over_add(head, tail, pred);
    assert forall|i: int| 0 <= i < head.len() implies !pred(#[trigger] head[i]) by {
        assert(head[i] == w[i]);
    }
    assert forall|i: int| 0 <= i < tail.len() implies pred(#[trigger] tail[i]) by {
        assert(tail[i] == w[i + k]);
        assert(observations(w)[k].0 <= observations(w)[i + k].0);
    }
    lemma_filter_none(head, pred);
    lemma_filter_all(tail, pred);
    assert(Seq::<(S, i64, i64)>::empty() + tail =~= tail);
}

proof fn lemma_sorted_thin<S>(w: Seq<(S, i64, i64)>)
    requires
        keyed_nondecreasing(observations(w)),
    ensures
        keyed_nondecreasing(observations(thin(w))),
        w.len() > 0 ==> thin(w).len() > 0 && thin(w).last() == w.last(),
{
    lemma_thin_sources(w);
    let t = thin(w);
    let o = observations(t);
    assert forall|i: int, j: int| 0 <= i <= j < o.len() implies #[trigger] o[i].0 <= #[trigger] o[j].0 by {
        let a = thin_source(w.len(), i);
        let b = thin_source(w.len(), j);
        if i < j {
            assert(a < b);
        }
        assert(t[i] == w[a] && t[j] == w[b]);
        assert(observations(w)[a].0 <= observations(w)[b].0);
    }
}

/// Bounded storage: a window within `MAX_WINDOW_SIZE` observations stays
/// within it after any update.
pub proof fn lemma_minimum_storage_bounded<S>(
    w: Seq<(S, i64, i64)>,
    cutoff: i64,
    replace: bool,
    stamp: S,
    instant: i64,
    key: i64,
)
    requires
        w.len() <= MAX_WINDOW_SIZE,
    ensures
        minimum_step(w, cutoff, replace, stamp, instant, key).len() <= MAX_WINDOW_SIZE,
{
    let kept = w.filter(|e: (S, i64, i64)| e.1 >= cutoff);
    w.lemma_filter_len(|e: (S, i64, i64)| e.1 >= cutoff);
    let revised = if replace && kept.len() > 0 {
        kept.drop_last()
    } else {
        kept
    };
    lemma_thin_bounds_growth(revised.push((stamp, instant, key)));
}

/// The reported minimum never falls below the least key ever observed: when
/// every key in the window and the new key are at least `floor`, so is every
/// key the window keeps after the update, thinned or not.
pub proof fn lemma_minimum_never_below_observed<S>(
    w: Seq<(S, i64, i64)>,
    cutoff: i64,
    replace: bool,
    stamp: S,
    instant: i64,
    key: i64,
    floor: i64,
)
    requires
        forall|i: int| 0 <= i < w.len() ==> floor <= #[trigger] w[i].2,
        floor <= key,
    ensures
        forall|p: int|
            0 <= p < minimum_step(w, cutoff, replace, stamp, instant, key).len() ==> floor
                <= #[trigger] minimum_step(w, cutoff, replace, stamp, instant, key)[p].2,
{
    let pred = |e: (S, i64, i64)| e.1 >= cutoff;
    let kept = w.filter(pred);
    assert forall|i: int| 0 <= i < kept.len() implies floor <= #[trigger] kept[i].2 by {
        assert(kept.contains(kept[i]));
        w.lemma_filter_contains_rev(pred, kept[i]);
        let j = choose|j: int| 0 <= j < w.len() && w[j] == kept[i];
        assert(floor <= w[j].2);
    }
    let revised = if replace && kept.len() > 0 {
        kept.drop_last()
    } else {
        kept
    };
    let pushed = revised.push((stamp, instant, key));
    assert forall|i: int| 0 <= i < pushed.len() implies floor <= #[trigger] pushed[i].2 by {
        if i < revised.len() {
            assert(pushed[i] == revised[i]);
            assert(revised[i] == kept[i]);
        }
    }
    lemma_thin_sources(pushed);
    let t = thin(pushed);
    assert(t == minimum_step(w, cutoff, replace, stamp, instant, key));
    assert forall|p: int| 0 <= p < t.len() implies floor <= #[trigger] t[p].2 by {
        assert(t[p] == pushed[thin_source(pushed.len(), p)]);
    }
}

/// A revision replaces the live observation and a new bucket appends one:
/// when nothing expires and the window is within its size limit, a revision
/// keeps the window's length and every older observation and puts the new
/// observation in place of the newest one, so the superseded value leaves the
/// window; an observation in a new bucket goes after every older one.
pub proof fn lemma_minimum_revision_replaces<S>(
    w: Seq<(S, i64, i64)>,
    cutoff: i64,
    stamp: S,
    instant: i64,
    key: i64,
)
    requires
        w.len() <= MAX_WINDOW_SIZE,
        forall|i: int| 0 <= i < w.len() ==> #[trigger] w[i].1 >= cutoff,
    ensures
        w.len() > 0 ==> {
            let revised = minimum_step(w, cutoff, true, stamp, instant, key);
            &&& revised.len() == w.len()
            &&& revised.last() == (stamp, instant, key)
            &&& forall|i: int| 0 <= i < w.len() - 1 ==> #[trigger] revised[i] == w[i]
        },
        w.len() < MAX_WINDOW_SIZE ==> {
            let appended = minimum_step(w, cutoff, false, stamp, instant, key);
            &&& appended.len() == w.len() + 1
            &&& appended.last() == (stamp, instant, key)
            &&& forall|i: int| 0 <= i < w.len() ==> #[trigger] appended[i] == w[i]
        },
{
    let pred = |e: (S, i64, i64)| e.1 >= cutoff;
    lemma_filter_all(w, pred);
    assert(w.filter(pred) == w);
}

/// Candidates of the sealed prefix of a stamped window.
fn rebuild_candidates<S: Copy>(w: &VecDeque<(S, i64, i64)>) -> (r: VecDeque<Keyed>)
    ensures
        r@ == min_candidates(sealed(observations(w@))),
{
    let len = w.len();
    let sealed_len = if len > 0 {
        len - 1
    } else {
        0
    };
    let ghost obs = observations(w@);
    let mut mono: VecDeque<Keyed> = VecDeque::new();
    let mut i: usize = 0;
    proof {
        assert(obs.take(0) =~= Seq::<Keyed>::empty());
    }
    while i < sealed_len
        invariant
            len == w@.len(),
            obs == observations(w@),
            sealed_len <= len,
            sealed_len == if len > 0 { len - 1 } else { 0 },
            i <= sealed_len,
            mono@ == min_candidates(obs.take(i as int)),
        decreases sealed_len - i,
    {
        let entry = w[i];
        proof {
            lemma_candidates_push(obs.take(i as int), obs[i as int]);
            assert(obs.take(i + 1) =~= obs.take(i as int).push(obs[i as int]));
        }
        seal_candidate(&mut mono, (entry.1, entry.2));
        i = i + 1;
    }
    proof {
        if len > 0 {
            assert(obs.take(sealed_len as int) =~= obs.drop_last());
        } else {
            assert(obs.take(0) =~= obs);
        }
    }
    mono
}

/// The least order key over an elapsed-time window of observations.
///
/// Revisions in the current adaptive time bucket replace the newest
/// observation. Past `MAX_WINDOW_SIZE` observations the window is thinned.
#[derive(Debug, Clone)]
pub struct MinimumWindow<S> {
    duration: Duration,
    span: i64,
    window: VecDeque<(S, i64, i64)>,
    detector: AdaptiveTimeDetector,
    mono: VecDeque<Keyed>,
}

impl<S: Copy> MinimumWindow<S> {
    /// The configured window.
    pub closed spec fn duration_spec(&self) -> Duration {
        self.duration
    }

    /// The retained observations: stamp, instant and key, oldest first.
    pub closed spec fn entries(&self) -> Seq<(S, i64, i64)> {
        self.window@
    }

    /// The replacement policy in force.
    pub closed spec fn frequency_spec(&self) -> DetectedFrequency {
        self.detector.frequency_spec()
    }

    /// The instant of the latest observation, if any.
    pub closed spec fn last_instant(&self) -> Option<i64> {
        self.detector.last_instant()
    }

    /// The window's span as the `i64` it is compared in: the nanoseconds of
    /// `duration`, truncated to 64 bits.
    pub open spec fn span_spec(&self) -> i64 {
        duration_nanos(self.duration_spec()) as i64
    }

    /// Instants never decrease along the window, and the candidate deque
    /// holds the candidates of every observation but the newest.
    pub closed spec fn wf(&self) -> bool {
        &&& keyed_nondecreasing(observations(self.window@))
        &&& self.mono@ == min_candidates(sealed(observations(self.window@)))
        &&& self.span == duration_nanos(self.duration) as i64
    }

    /// Whether an observation at `timestamp_nanos` keeps instants
    /// nondecreasing and its expiry cutoff fits in an `i64`.
    pub open spec fn accepts_spec(&self, timestamp_nanos: Option<i64>) -> bool {
        let now = nanos_or_min(timestamp_nanos);
        let obs = observations(self.entries());
        &&& obs.len() > 0 ==> now >= obs.last().0
        &&& i64::MIN <= now - self.span_spec() <= i64::MAX
    }

    /// An empty window of `duration`; a zero duration is refused.
    pub fn new(duration: Duration) -> (r: Result<Self, TaError>)
        ensures
            duration_nanos(duration) == 0 <==> r is Err,
            r matches Err(e) ==> e == TaError::InvalidParameter,
            r matches Ok(m) ==> {
                &&& m.wf()
                &&& m.duration_spec() == duration
                &&& m.entries() == Seq::<(S, i64, i64)>::empty()
                &&& m.frequency_spec() == frequency_for(duration_nanos(duration))
                &&& m.last_instant() is None
            },
    {
        let nanos = duration_as_nanos(&duration);
        if nanos == 0 {
            return Err(TaError::InvalidParameter);
        }
        let m = MinimumWindow {
            duration,
            span: nanos as i64,
            window: VecDeque::new(),
            detector: AdaptiveTimeDetector::new(duration),
            mono: VecDeque::new(),
        };
        proof {
            assert(observations(m.window@) =~= Seq::<Keyed>::empty());
        }
        Ok(m)
    }

    /// A window resumed from its duration, retained observations and
    /// detector; `None` when the instants of `window` decrease somewhere.
    pub fn restore(duration: Duration, window: VecDeque<(S, i64, i64)>, detector: AdaptiveTimeDetector) -> (r: Option<Self>)
        ensures
            r is Some <==> keyed_nondecreasing(observations(window@)),
            r matches Some(m) ==> {
                &&& m.wf()
                &&& m.duration_spec() == duration
                &&& m.entries() == window@
                &&& m.frequency_spec() == detector.frequency_spec()
                &&& m.last_instant() == detector.last_instant()
            },
    {
        let len = window.len();
        let mut i: usize = 1;
        while i < len
            invariant
                len == window@.len(),
                1 <= i,
                forall|a: int, b: int| 0 <= a <= b < i && b < len ==> #[trigger] observations(window@)[a].0
                    <= #[trigger] observations(window@)[b].0,
            decreases len - i,
        {
            if window[i - 1].1 > window[i].1 {
                proof {
                    assert(observations(window@)[i - 1].0 > observations(window@)[i as int].0);
                }
                return None;
            }
            proof {
                let o = observations(window@);
                assert forall|a: int, b: int| 0 <= a <= b < i + 1 && b < len implies #[trigger] o[a].0 <= #[trigger] o[b].0 by {
                    if b == i && a < b {
                        assert(o[a].0 <= o[i - 1].0);
                    }
                }
            }
            i = i + 1;
        }
        let mono = rebuild_candidates(&window);
        let nanos = duration_as_nanos(&duration);
        Some(MinimumWindow { duration, span: nanos as i64, window, detector, mono })
    }

    /// The configured window.
    pub fn duration(&self) -> (r: Duration)
        ensures
            r == self.duration_spec(),
    {
        self.duration
    }

    /// The detector that decides revisions.
    pub fn detector(&self) -> (r: &AdaptiveTimeDetector)
        ensures
            r.frequency_spec() == self.frequency_spec(),
            r.last_instant() == self.last_instant(),
    {
        &self.detector
    }

    /// The retained observations, oldest first.
    pub fn entries_ref(&self) -> (r: &VecDeque<(S, i64, i64)>)
        ensures
            r@ == self.entries(),
    {
        &self.window
    }

    /// The retained stamps and keys, oldest first.
    pub fn get_window(&self) -> (r: VecDeque<(S, i64)>)
        ensures
            r@ == self.entries().map_values(|e: (S, i64, i64)| (e.0, e.2)),
    {
        let mut out: VecDeque<(S, i64)> = VecDeque::new();
        let len = self.window.len();
        let mut i: usize = 0;
        while i < len
            invariant
                len == self.window@.len(),
                i <= len,
                out@ == self.window@.take(i as int).map_values(|e: (S, i64, i64)| (e.0, e.2)),
            decreases len - i,
        {
            let e = self.window[i];
            out.push_back((e.0, e.2));
            proof {
                assert(self.window@.take(i + 1) =~= self.window@.take(i as int).push(e));
                assert(self.window@.take(i + 1).map_values(|e: (S, i64, i64)| (e.0, e.2)) =~= self.window@.take(
                    i as int,
                ).map_values(|e: (S, i64, i64)| (e.0, e.2)).push((e.0, e.2)));
            }
            i = i + 1;
        }
        proof {
            assert(self.window@.take(len as int) =~= self.window@);
        }
        out
    }

    /// Whether `next` accepts an observation at `timestamp_nanos`.
    pub fn accepts(&self, timestamp_nanos: Option<i64>) -> (r: bool)
        requires
            self.wf(),
        ensures
            r == self.accepts_spec(timestamp_nanos),
    {
        let now = instant_or_min(timestamp_nanos);
        let len = self.window.len();
        if len > 0 && now < self.window[len - 1].1 {
            return false;
        }
        now.checked_sub(self.span).is_some()
    }

    /// Expires observations before `timestamp - duration`, revises or appends
    /// the observation (stamp, instant, key), thins the window past its size
    /// limit, and returns the least key left in it.
    pub fn next(&mut self, stamp: S, timestamp_nanos: Option<i64>, key: i64) -> (r: i64)
        requires
            old(self).wf(),
            old(self).accepts_spec(timestamp_nanos),
        ensures
            final(self).wf(),
            final(self).duration_spec() == old(self).duration_spec(),
            final(self).frequency_spec() == old(self).frequency_spec(),
            final(self).last_instant() == Some(nanos_or_min(timestamp_nanos)),
            final(self).entries() == minimum_step(
                old(self).entries(),
                (nanos_or_min(timestamp_nanos) - old(self).span_spec()) as i64,
                match old(self).last_instant() {
                    None => false,
                    Some(p) => same_bucket(old(self).frequency_spec(), p, nanos_or_min(timestamp_nanos)),
                },
                stamp,
                nanos_or_min(timestamp_nanos),
                key,
            ),
            is_min_key(observations(final(self).entries()), r),
            ({
                let now = nanos_or_min(timestamp_nanos);
                let before = old(self).entries();
                let after = final(self).entries();
                let replace = match old(self).last_instant() {
                    None => false,
                    Some(p) => same_bucket(old(self).frequency_spec(), p, now),
                };
                (before.len() <= MAX_WINDOW_SIZE && forall|i: int|
                    0 <= i < before.len() ==> #[trigger] before[i].1 >= now - old(self).span_spec()) ==> {
                    &&& replace && before.len() > 0 ==> {
                        &&& after.len() == before.len()
                        &&& after.last() == (stamp, now, key)
                        &&& forall|i: int| 0 <= i < before.len() - 1 ==> #[trigger] after[i] == before[i]
                    }
                    &&& !replace && before.len() < MAX_WINDOW_SIZE ==> {
                        &&& after.len() == before.len() + 1
                        &&& after.last() == (stamp, now, key)
                        &&& forall|i: int| 0 <= i < before.len() ==> #[trigger] after[i] == before[i]
                    }
                }
            }),
    {
        proof {
            let now = nanos_or_min(timestamp_nanos);
            let before = self.window@;
            if before.len() <= MAX_WINDOW_SIZE && forall|i: int|
                0 <= i < before.len() ==> #[trigger] before[i].1 >= now - self.span_spec() {
                lemma_minimum_revision_replaces(before, (now - self.span_spec()) as i64, stamp, now, key);
            }
        }
        let replace = self.detector.should_replace(timestamp_nanos);
        let now = instant_or_min(timestamp_nanos);
        let cutoff = now - self.span;
        self.expire_before(cutoff);
        self.take_observation(replace, stamp, now, key);
        self.thin_if_needed();
        self.current_min()
    }

    /// Removes the observations before `cutoff` from the window and from the
    /// candidate deque.
    fn expire_before(&mut self, cutoff: i64)
        requires
            old(self).wf(),
        ensures
            final(self).wf(),
            final(self).duration == old(self).duration,
            final(self).detector == old(self).detector,
            final(self).window@ == old(self).window@.filter(|e: (S, i64, i64)| e.1 >= cutoff),
            final(self).window@.len() > 0 ==> final(self).window@.last() == old(self).window@.last(),
    {
        let ghost start = self.window@;
        let ghost obs0 = observations(start);
        let ghost mono0 = self.mono@;
        let ghost span0 = self.span;
        let ghost duration0 = self.duration;
        let ghost detector0 = self.detector;
        let initial_len = self.window.len();
        let mut k: usize = 0;
        while self.window.len() > 0 && self.window[0].1 < cutoff
            invariant
                k <= start.len(),
                start.len() == initial_len,
                self.mono@ == mono0,
                self.span == span0,
                self.duration == duration0,
                self.detector == detector0,
                self.window@ == start.skip(k as int),
                forall|i: int| 0 <= i < k ==> #[trigger] start[i].1 < cutoff,
            decreases self.window@.len(),
        {
            let ghost before = self.window@;
            self.window.pop_front();
            proof {
                assert(before[0] == start[k as int]);
                assert(self.window@ =~= start.skip(k + 1));
            }
            k = k + 1;
        }
        drop_candidates_before(&mut self.mono, cutoff);
        proof {
            if (k as int) < start.len() {
                assert(self.window@[0] == start[k as int]);
            }
            lemma_sorted_skip_is_filter(start, k as int, cutoff);
            let sealed0 = sealed(obs0);
            let k2: int = if (k as int) < obs0.len() { k as int } else if obs0.len() > 0 { obs0.len() - 1 } else { 0 };
            assert(keyed_nondecreasing(sealed0)) by {
                assert forall|a: int, b: int| 0 <= a <= b < sealed0.len() implies #[trigger] sealed0[a].0
                    <= #[trigger] sealed0[b].0 by {
                    assert(sealed0[a] == obs0[a] && sealed0[b] == obs0[b]);
                }
            }
            assert forall|i: int| 0 <= i < k2 implies #[trigger] sealed0[i].0 < cutoff by {
                assert(sealed0[i] == obs0[i]);
                assert(obs0[i].0 == start[i].1);
            }
            assert forall|i: int| k2 <= i < sealed0.len() implies #[trigger] sealed0[i].0 >= cutoff by {
                assert(sealed0[i] == obs0[i]);
                assert(obs0[k as int].0 == start[k as int].1);
                assert(obs0[k as int].0 <= obs0[i].0);
            }
            lemma_candidates_expire(sealed0, k2, cutoff);
            assert(observations(self.window@) =~= obs0.skip(k as int));
            assert(sealed(observations(self.window@)) =~= sealed0.skip(k2));
            let o1 = observations(self.window@);
            assert(keyed_nondecreasing(o1)) by {
                assert forall|a: int, b: int| 0 <= a <= b < o1.len() implies #[trigger] o1[a].0
                    <= #[trigger] o1[b].0 by {
                    assert(o1[a] == obs0[a + k] && o1[b] == obs0[b + k]);
                }
            }
        }
    }

    /// Revises the newest observation (`replace`) or seals it, then appends
    /// (stamp, now, key).
    fn take_observation(&mut self, replace: bool, stamp: S, now: i64, key: i64)
        requires
            old(self).wf(),
            observations(old(self).window@).len() > 0 ==> now >= observations(old(self).window@).last().0,
        ensures
            final(self).wf(),
            final(self).duration == old(self).duration,
            final(self).detector == old(self).detector,
            final(self).window@ == (if replace && old(self).window@.len() > 0 {
                old(self).window@.drop_last()
            } else {
                old(self).window@
            }).push((stamp, now, key)),
    {
        let ghost kept = self.window@;
        let len = self.window.len();
        if replace {
            if len > 0 {
                self.window.pop_back();
            }
        } else if len > 0 {
            let last = self.window[len - 1];
            proof {
                let o1 = observations(kept);
                lemma_candidates_push(sealed(o1), (last.1, last.2));
                assert(sealed(o1).push((last.1, last.2)) =~= o1);
            }
            seal_candidate(&mut self.mono, (last.1, last.2));
        }
        let ghost revised = self.window@;
        self.window.push_back((stamp, now, key));
        proof {
            let o2 = observations(self.window@);
            assert(o2 =~= observations(revised).push((now, key)));
            assert(sealed(o2) =~= observations(revised));
            if replace && len > 0 {
                assert(observations(revised) =~= sealed(observations(kept)));
            } else if len > 0 {
                assert(observations(revised) =~= observations(kept));
            } else {
                assert(observations(revised) =~= Seq::<Keyed>::empty());
                assert(sealed(observations(kept)) =~= Seq::<Keyed>::empty());
                assert(min_candidates(Seq::<Keyed>::empty()) =~= Seq::<Keyed>::empty());
            }
            let o1 = observations(kept);
            assert(keyed_nondecreasing(o2)) by {
                assert forall|a: int, b: int| 0 <= a <= b < o2.len() implies #[trigger] o2[a].0
                    <= #[trigger] o2[b].0 by {
                    if b == o2.len() - 1 && a < b {
                        assert(o2[a] == o1[a]);
                        assert(o1[a].0 <= o1.last().0);
                    } else if a < b {
                        assert(o2[a] == o1[a] && o2[b] == o1[b]);
                    }
                }
            }
        }
    }

    /// Thins the window past its size limit and rebuilds the candidates.
    fn thin_if_needed(&mut self)
        requires
            old(self).wf(),
        ensures
            final(self).wf(),
            final(self).duration == old(self).duration,
            final(self).detector == old(self).detector,
            final(self).window@ == thin(old(self).window@),
    {
        if self.window.len() > MAX_WINDOW_SIZE {
            let thin_window = thinned(&self.window);
            proof {
                lemma_sorted_thin(self.window@);
            }
            self.window = thin_window;
            self.mono = rebuild_candidates(&self.window);
        }
    }

    /// The least key in a nonempty window.
    fn current_min(&self) -> (r: i64)
        requires
            self.wf(),
            self.window@.len() > 0,
        ensures
            is_min_key(observations(self.window@), r),
    {
        let wlen = self.window.len();
        let current = self.window[wlen - 1].2;
        let ghost obs = observations(self.window@);
        let ghost sealed_obs = sealed(obs);
        proof {
            assert(obs[obs.len() - 1].1 == current);
        }
        if self.mono.len() > 0 {
            let best = self.mono[0].1;
            proof {
                if sealed_obs.len() == 0 {
                    assert(min_candidates(sealed_obs) =~= sealed_obs);
                }
                lemma_candidates_front_is_min(sealed_obs);
                let i0 = choose|i: int| 0 <= i < sealed_obs.len() && #[trigger] sealed_obs[i].1 == best;
                assert(sealed_obs[i0] == obs[i0]);
                assert forall|i: int| 0 <= i < obs.len() implies (if best < current { best } else { current }) <= #[trigger] obs[i].1 by {
                    if i < obs.len() - 1 {
                        assert(sealed_obs[i] == obs[i]);
                    }
                }
            }
            if best < current {
                best
            } else {
                current
            }
        } else {
            proof {
                if sealed_obs.len() > 0 {
                    lemma_candidates_front_is_min(sealed_obs);
                }
                assert(obs.len() == 1);
            }
            current
        }
    }

    /// Forgets every observation.
    pub fn reset(&mut self)
        requires
            old(self).wf(),
        ensures
            final(self).wf(),
            final(self).duration_spec() == old(self).duration_spec(),
            final(self).frequency_spec() == old(self).frequency_spec(),
            final(self).entries() == Seq::<(S, i64, i64)>::empty(),
            final(self).last_instant() is None,
    {
        self.window.clear();
        self.mono.clear();
        self.detector.reset();
        proof {
            assert(observations(self.window@) =~= Seq::<Keyed>::empty());
        }
    }
}

} // verus!
