//! Highest high and lowest low over committed bars of an elapsed-time window,
//! with the live bar folded in at query time.
use std::collections::VecDeque;

use vstd::prelude::*;

use crate::indicators::monotone::{
    drop_before, drop_candidates_before, is_min_key, keyed_nondecreasing, lemma_candidates_expire,
    lemma_candidates_front_is_min, lemma_candidates_last, lemma_candidates_push, min_candidates, seal_candidate, Keyed,
};

verus! {

/// A committed bar: its instant, the order key of its high and of its low.
pub type BarKeys = (i64, i64, i64);

/// The order-reversing bijection on `i64` keys used to find maxima as minima.
pub open spec fn reverse_key(k: i64) -> i64 {
    (-1 - k) as i64
}

/// The lows of `bars` as keyed observations.
pub open spec fn low_keys(bars: Seq<BarKeys>) -> Seq<Keyed> {
    bars.map_values(|b: BarKeys| (b.0, b.2))
}

/// The highs of `bars`, key-reversed, as keyed observations.
pub open spec fn reversed_high_keys(bars: Seq<BarKeys>) -> Seq<Keyed> {
    bars.map_values(|b: BarKeys| (b.0, reverse_key(b.1)))
}

/// Whether the instants of `bars` never decrease.
pub open spec fn bars_nondecreasing(bars: Seq<BarKeys>) -> bool {
    forall|i: int, j: int| 0 <= i <= j < bars.len() ==> #[trigger] bars[i].0 <= #[trigger] bars[j].0
}

/// `m` is the greatest high key among `bars` and `live`.
pub open spec fn is_highest(bars: Seq<BarKeys>, live: i64, m: i64) -> bool {
    &&& (m == live || exists|i: int| 0 <= i < bars.len() && #[trigger] bars[i].1 == m)
    &&& live <= m
    &&& forall|i: int| 0 <= i < bars.len() ==> #[trigger] bars[i].1 <= m
}

/// `m` is the least low key among `bars` and `live`.
pub open spec fn is_lowest(bars: Seq<BarKeys>, live: i64, m: i64) -> bool {
    &&& (m == live || exists|i: int| 0 <= i < bars.len() && #[trigger] bars[i].2 == m)
    &&& m <= live
    &&& forall|i: int| 0 <= i < bars.len() ==> m <= #[trigger] bars[i].2
}

/// Sliding extremes over committed bars.
#[derive(Clone)]
pub struct SlidingExtrema {
    highs: VecDeque<Keyed>,
    lows: VecDeque<Keyed>,
    bars: Ghost<Seq<BarKeys>>,
}

proof fn lemma_sorted_projections(bars: Seq<BarKeys>)
    requires
        bars_nondecreasing(bars),
    ensures
        keyed_nondecreasing(low_keys(bars)),
        keyed_nondecreasing(reversed_high_keys(bars)),
{
    let l = low_keys(bars);
    let h = reversed_high_keys(bars);
    assert forall|i: int, j: int| 0 <= i <= j < l.len() implies #[trigger] l[i].0 <= #[trigger] l[j].0 by {
        assert(l[i].0 == bars[i].0 && l[j].0 == bars[j].0);
    }
    assert forall|i: int, j: int| 0 <= i <= j < h.len() implies #[trigger] h[i].0 <= #[trigger] h[j].0 by {
        assert(h[i].0 == bars[i].0 && h[j].0 == bars[j].0);
    }
}

impl SlidingExtrema {
    /// The committed bars still in the window, oldest first.
    pub closed spec fn committed(&self) -> Seq<BarKeys> {
        self.bars@
    }

    /// The candidate deques mirror the committed bars, whose instants never
    /// decrease.
    pub closed spec fn wf(&self) -> bool {
        &&& bars_nondecreasing(self.bars@)
        &&& self.lows@ == min_candidates(low_keys(self.bars@))
        &&& self.highs@ == min_candidates(reversed_high_keys(self.bars@))
    }

    /// No committed bars.
    pub fn new() -> (r: Self)
        ensures
            r.wf(),
            r.committed() == Seq::<BarKeys>::empty(),
    {
        let r = SlidingExtrema { highs: VecDeque::new(), lows: VecDeque::new(), bars: Ghost(Seq::empty()) };
        proof {
            assert(low_keys(Seq::<BarKeys>::empty()) =~= Seq::<Keyed>::empty());
            assert(reversed_high_keys(Seq::<BarKeys>::empty()) =~= Seq::<Keyed>::empty());
        }
        r
    }

    /// Forgets every committed bar.
    pub fn clear(&mut self)
        ensures
            final(self).wf(),
            final(self).committed() == Seq::<BarKeys>::empty(),
    {
        self.highs.clear();
        self.lows.clear();
        self.bars = Ghost(Seq::empty());
        proof {
            assert(low_keys(Seq::<BarKeys>::empty()) =~= Seq::<Keyed>::empty());
            assert(reversed_high_keys(Seq::<BarKeys>::empty()) =~= Seq::<Keyed>::empty());
        }
    }

    /// Whether a bar at `instant` may be committed: it is not older than the
    /// newest committed bar.
    pub fn accepts_commit(&self, instant: i64) -> (r: bool)
        requires
            self.wf(),
        ensures
            r == (self.committed().len() > 0 ==> self.committed().last().0 <= instant),
    {
        proof {
            let l = low_keys(self.bars@);
            if l.len() > 0 {
                lemma_candidates_last(l);
                assert(l.last().0 == self.bars@.last().0);
            } else {
                assert(min_candidates(l) =~= l);
            }
        }
        let len = self.lows.len();
        if len == 0 {
            true
        } else {
            self.lows[len - 1].0 <= instant
        }
    }

    /// Commits a sealed bar at `instant` with the given high and low keys.
    pub fn commit(&mut self, instant: i64, high: i64, low: i64)
        requires
            old(self).wf(),
            old(self).committed().len() > 0 ==> old(self).committed().last().0 <= instant,
        ensures
            final(self).wf(),
            final(self).committed() == old(self).committed().push((instant, high, low)),
    {
        let ghost bars0 = self.bars@;
        let bar = (instant, high, low);
        proof {
            lemma_candidates_push(low_keys(bars0), (instant, low));
            lemma_candidates_push(reversed_high_keys(bars0), (instant, reverse_key(high)));
            assert(low_keys(bars0.push(bar)) =~= low_keys(bars0).push((instant, low)));
            assert(reversed_high_keys(bars0.push(bar)) =~= reversed_high_keys(bars0).push((instant, reverse_key(high))));
        }
        seal_candidate(&mut self.lows, (instant, low));
        seal_candidate(&mut self.highs, (instant, -1 - high));
        self.bars = Ghost(bars0.push(bar));
        proof {
            let b = self.bars@;
            assert forall|i: int, j: int| 0 <= i <= j < b.len() implies #[trigger] b[i].0 <= #[trigger] b[j].0 by {
                if j == b.len() - 1 && i < j {
                    assert(b[i] == bars0[i]);
                    assert(bars0[i].0 <= bars0.last().0);
                } else if i < j {
                    assert(b[i] == bars0[i] && b[j] == bars0[j]);
                }
            }
        }
    }

    /// Expires the committed bars at or before `cutoff`.
    pub fn expire_through(&mut self, cutoff: i64)
        requires
            old(self).wf(),
        ensures
            final(self).wf(),
            final(self).committed() == old(self).committed().filter(|b: BarKeys| b.0 > cutoff),
    {
        let ghost bars0 = self.bars@;
        if cutoff == i64::MAX {
            self.highs.clear();
            self.lows.clear();
            self.bars = Ghost(Seq::empty());
            proof {
                assert(low_keys(Seq::<BarKeys>::empty()) =~= Seq::<Keyed>::empty());
                assert(reversed_high_keys(Seq::<BarKeys>::empty()) =~= Seq::<Keyed>::empty());
                crate::indicators::time_window::lemma_filter_none(bars0, |b: BarKeys| b.0 > cutoff);
            }
            return;
        }
        let bound = cutoff + 1;
        drop_candidates_before(&mut self.lows, bound);
        drop_candidates_before(&mut self.highs, bound);
        let ghost k = expired_count(bars0, cutoff);
        proof {
            lemma_expired_count(bars0, cutoff);
            lemma_sorted_projections(bars0);
            let l = low_keys(bars0);
            let h = reversed_high_keys(bars0);
            assert forall|i: int| 0 <= i < k implies #[trigger] l[i].0 < bound by {
                assert(l[i].0 == bars0[i].0);
            }
            assert forall|i: int| k <= i < l.len() implies #[trigger] l[i].0 >= bound by {
                assert(l[i].0 == bars0[i].0);
            }
            assert forall|i: int| 0 <= i < k implies #[trigger] h[i].0 < bound by {
                assert(h[i].0 == bars0[i].0);
            }
            assert forall|i: int| k <= i < h.len() implies #[trigger] h[i].0 >= bound by {
                assert(h[i].0 == bars0[i].0);
            }
            lemma_candidates_expire(l, k, bound);
            lemma_candidates_expire(h, k, bound);
            assert(low_keys(bars0.skip(k)) =~= l.skip(k));
            assert(reversed_high_keys(bars0.skip(k)) =~= h.skip(k));
        }
        self.bars = Ghost(bars0.skip(k));
        proof {
            let b = self.bars@;
            assert forall|i: int, j: int| 0 <= i <= j < b.len() implies #[trigger] b[i].0 <= #[trigger] b[j].0 by {
                assert(b[i] == bars0[i + k] && b[j] == bars0[j + k]);
            }
        }
    }

    /// The highest high key and lowest low key over the committed bars and the
    /// live bar's keys.
    pub fn extremes(&self, live_high: i64, live_low: i64) -> (r: (i64, i64))
        requires
            self.wf(),
        ensures
            is_highest(self.committed(), live_high, r.0),
            is_lowest(self.committed(), live_low, r.1),
    {
        let ghost bars = self.bars@;
        let highest = if self.highs.len() > 0 {
            let best = -1 - self.highs[0].1;
            proof {
                let h = reversed_high_keys(bars);
                if h.len() == 0 {
                    assert(min_candidates(h) =~= h);
                }
                lemma_candidates_front_is_min(h);
                let i0 = choose|i: int| 0 <= i < h.len() && #[trigger] h[i].1 == self.highs@[0].1;
                assert(bars[i0].1 == best);
                assert forall|i: int| 0 <= i < bars.len() implies #[trigger] bars[i].1 <= best by {
                    assert(h[i].1 == reverse_key(bars[i].1));
                }
            }
            if best > live_high {
                best
            } else {
                live_high
            }
        } else {
            proof {
                let h = reversed_high_keys(bars);
                if h.len() > 0 {
                    lemma_candidates_front_is_min(h);
                }
            }
            live_high
        };
        let lowest = if self.lows.len() > 0 {
            let best = self.lows[0].1;
            proof {
                let l = low_keys(bars);
                if l.len() == 0 {
                    assert(min_candidates(l) =~= l);
                }
                lemma_candidates_front_is_min(l);
                let i0 = choose|i: int| 0 <= i < l.len() && #[trigger] l[i].1 == best;
                assert(bars[i0].2 == best);
                assert forall|i: int| 0 <= i < bars.len() implies best <= #[trigger] bars[i].2 by {
                    assert(l[i].1 == bars[i].2);
                }
            }
            if best < live_low {
                best
            } else {
                live_low
            }
        } else {
            proof {
                let l = low_keys(bars);
                if l.len() > 0 {
                    lemma_candidates_front_is_min(l);
                }
            }
            live_low
        };
        (highest, lowest)
    }
}

/// The number of leading committed bars at or before `cutoff`.
spec fn expired_count(bars: Seq<BarKeys>, cutoff: i64) -> int
    decreases bars.len(),
{
    if bars.len() > 0 && bars[0].0 <= cutoff {
        1 + expired_count(bars.drop_first(), cutoff)
    } else {
        0
    }
}

proof fn lemma_expired_count(bars: Seq<BarKeys>, cutoff: i64)
    requires
        bars_nondecreasing(bars),
    ensures
        0 <= expired_count(bars, cutoff) <= bars.len(),
        forall|i: int| 0 <= i < expired_count(bars, cutoff) ==> #[trigger] bars[i].0 <= cutoff,
        forall|i: int| expired_count(bars, cutoff) <= i < bars.len() ==> #[trigger] bars[i].0 > cutoff,
        bars.skip(expired_count(bars, cutoff)) == bars.filter(|b: BarKeys| b.0 > cutoff),
    decreases bars.len(),
{
    let k = expired_count(bars, cutoff);
    if bars.len() > 0 && bars[0].0 <= cutoff {
        let t = bars.drop_first();
        assert(bars_nondecreasing(t)) by {
            assert forall|i: int, j: int| 0 <= i <= j < t.len() implies #[trigger] t[i].0 <= #[trigger] t[j].0 by {
                assert(t[i] == bars[i + 1] && t[j] == bars[j + 1]);
            }
        }
        lemma_expired_count(t, cutoff);
        assert forall|i: int| 0 <= i < k implies #[trigger] bars[i].0 <= cutoff by {
            if i > 0 {
                assert(bars[i] == t[i - 1]);
            }
        }
        assert forall|i: int| k <= i < bars.len() implies #[trigger] bars[i].0 > cutoff by {
            assert(bars[i] == t[i - 1]);
        }
        assert(bars.skip(k) =~= t.skip(k - 1));
        t.lemma_filter_prepend(bars[0], |b: BarKeys| b.0 > cutoff);
        let joined = seq![bars[0]] + t;
        assert forall|i: int| 0 <= i < bars.len() implies #[trigger] joined[i] == bars[i] by {
            if i > 0 {
                assert(joined[i] == t[i - 1]);
            }
        }
        assert(bars =~= joined);
        assert(Seq::<BarKeys>::empty() + t.filter(|b: BarKeys| b.0 > cutoff) =~= t.filter(|b: BarKeys| b.0 > cutoff));
    } else {
        assert forall|i: int| 0 <= i < bars.len() implies #[trigger] bars[i].0 > cutoff by {
            assert(bars[0].0 <= bars[i].0);
        }
        assert(bars.skip(0) =~= bars);
        crate::indicators::time_window::lemma_filter_all(bars, |b: BarKeys| b.0 > cutoff);
    }
}

} // verus!
