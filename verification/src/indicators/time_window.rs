//! A deque of timestamped observations that expires by elapsed time and lets
//! the newest observation be revised.
use std::collections::VecDeque;

use vstd::prelude::*;

verus! {

/// Whether the instants of `s` never decrease.
pub open spec fn instants_nondecreasing<V>(s: Seq<(i64, V)>) -> bool {
    forall|i: int, j: int| 0 <= i <= j < s.len() ==> #[trigger] s[i].0 <= #[trigger] s[j].0
}

/// The number of leading observations of `s` at or before `cutoff`.
pub open spec fn expired_prefix_len<V>(s: Seq<(i64, V)>, cutoff: i64) -> nat
    decreases s.len(),
{
    if s.len() == 0 {
        0
    } else if s[0].0 <= cutoff {
        1 + expired_prefix_len(s.drop_first(), cutoff)
    } else {
        0
    }
}

/// The values of a run of observations, oldest first.
pub open spec fn values_of<V>(s: Seq<(i64, V)>) -> Seq<V> {
    s.map_values(|e: (i64, V)| e.1)
}

/// The window after expiry at `cutoff`, an optional revision of the newest
/// observation, and the append of `(instant, value)`.
pub open spec fn window_advance<V>(w: Seq<(i64, V)>, cutoff: i64, replace: bool, instant: i64, value: V) -> Seq<(i64, V)> {
    let kept = w.skip(expired_prefix_len(w, cutoff) as int);
    let revised = if replace && kept.len() > 0 {
        kept.drop_last()
    } else {
        kept
    };
    revised.push((instant, value))
}

/// A revision of the live observation replaces it instead of adding a second
/// one: appending `first` and then revising it to `second` at the same
/// instant and cutoff leaves the window that appending `second` alone would.
pub proof fn lemma_revision_replaces<V>(w: Seq<(i64, V)>, cutoff: i64, instant: i64, first: V, second: V)
    requires
        instant > cutoff,
    ensures
        window_advance(window_advance(w, cutoff, false, instant, first), cutoff, true, instant, second)
            == window_advance(w, cutoff, false, instant, second),
{
    let k = expired_prefix_len(w, cutoff);
    lemma_expired_prefix_bounds(w, cutoff);
    let kept = w.skip(k as int);
    let once = kept.push((instant, first));
    lemma_expired_prefix_bounds(once, cutoff);
    lemma_nothing_more_expires(kept, (instant, first), cutoff);
    assert(once.skip(0) =~= once);
    assert(once.drop_last() =~= kept);
}

proof fn lemma_nothing_more_expires<V>(kept: Seq<(i64, V)>, last: (i64, V), cutoff: i64)
    requires
        kept.len() > 0 ==> kept[0].0 > cutoff,
        last.0 > cutoff,
    ensures
        expired_prefix_len(kept.push(last), cutoff) == 0,
{
    let s = kept.push(last);
    if kept.len() > 0 {
        assert(s[0] == kept[0]);
    } else {
        assert(s[0] == last);
    }
}

/// Observations with their instants in nanoseconds, oldest at the front.
#[derive(Debug, Clone)]
pub struct TimeWindow<V> {
    entries: VecDeque<(i64, V)>,
}

impl<V> View for TimeWindow<V> {
    type V = Seq<(i64, V)>;

    closed spec fn view(&self) -> Seq<(i64, V)> {
        self.entries@
    }
}

pub proof fn lemma_expired_prefix_bounds<V>(s: Seq<(i64, V)>, cutoff: i64)
    ensures
        expired_prefix_len(s, cutoff) <= s.len(),
        forall|i: int| 0 <= i < expired_prefix_len(s, cutoff) ==> #[trigger] s[i].0 <= cutoff,
        expired_prefix_len(s, cutoff) < s.len() ==> s[expired_prefix_len(s, cutoff) as int].0
            > cutoff,
    decreases s.len(),
{
    if s.len() > 0 && s[0].0 <= cutoff {
        lemma_expired_prefix_bounds(s.drop_first(), cutoff);
        assert forall|i: int| 0 <= i < expired_prefix_len(s, cutoff) implies #[trigger] s[i].0
            <= cutoff by {
            if i > 0 {
                assert(s[i] == s.drop_first()[i - 1]);
            }
        }
    }
}

/// On nondecreasing instants, expiry keeps exactly the observations after the
/// cutoff, in order, and drops exactly those at or before it.
pub proof fn lemma_expiry_keeps_exactly_later<V>(s: Seq<(i64, V)>, cutoff: i64)
    requires
        instants_nondecreasing(s),
    ensures
        s.skip(expired_prefix_len(s, cutoff) as int) == s.filter(|e: (i64, V)| e.0 > cutoff),
        s.take(expired_prefix_len(s, cutoff) as int) == s.filter(|e: (i64, V)| e.0 <= cutoff),
    decreases s.len(),
{
    let k = expired_prefix_len(s, cutoff);
    lemma_expired_prefix_bounds(s, cutoff);
    if s.len() == 0 {
        assert(s.skip(0) =~= s);
        assert(s.filter(|e: (i64, V)| e.0 > cutoff) =~= Seq::<(i64, V)>::empty());
        assert(s.filter(|e: (i64, V)| e.0 <= cutoff) =~= Seq::<(i64, V)>::empty());
        assert(s.take(0) =~= Seq::<(i64, V)>::empty());
    } else if s[0].0 <= cutoff {
        let t = s.drop_first();
        assert(instants_nondecreasing(t)) by {
            assert forall|i: int, j: int| 0 <= i <= j < t.len() implies #[trigger] t[i].0
                <= #[trigger] t[j].0 by {
                assert(t[i] == s[i + 1] && t[j] == s[j + 1]);
            }
        }
        lemma_expiry_keeps_exactly_later(t, cutoff);
        assert(s =~= seq![s[0]] + t);
        t.lemma_filter_prepend(s[0], |e: (i64, V)| e.0 > cutoff);
        t.lemma_filter_prepend(s[0], |e: (i64, V)| e.0 <= cutoff);
        assert(Seq::<(i64, V)>::empty() + t.filter(|e: (i64, V)| e.0 > cutoff) =~= t.filter(|e: (i64, V)| e.0 > cutoff));
        assert(s.skip(k as int) =~= t.skip(expired_prefix_len(t, cutoff) as int));
        assert(s.take(k as int) =~= seq![s[0]] + t.take(expired_prefix_len(t, cutoff) as int));
    } else {
        // Nothing expires; every observation is after the cutoff.
        assert(k == 0);
        assert forall|i: int| 0 <= i < s.len() implies #[trigger] s[i].0 > cutoff by {
            assert(s[0].0 <= s[i].0);
        }
        assert(s.skip(0) =~= s);
        assert(s.take(0) =~= Seq::<(i64, V)>::empty());
        assert(s.filter(|e: (i64, V)| e.0 > cutoff) =~= s) by {
            lemma_filter_all(s, |e: (i64, V)| e.0 > cutoff);
        }
        assert(s.filter(|e: (i64, V)| e.0 <= cutoff) =~= Seq::<(i64, V)>::empty()) by {
            lemma_filter_none(s, |e: (i64, V)| e.0 <= cutoff);
        }
    }
}

pub proof fn lemma_filter_all<A>(s: Seq<A>, p: spec_fn(A) -> bool)
    requires
        forall|i: int| 0 <= i < s.len() ==> p(#[trigger] s[i]),
    ensures
        s.filter(p) == s,
    decreases s.len(),
{
    reveal(Seq::filter);
    if s.len() > 0 {
        let d = s.drop_last();
        assert forall|i: int| 0 <= i < d.len() implies p(#[trigger] d[i]) by {
            assert(d[i] == s[i]);
        }
        lemma_filter_all(d, p);
        assert(p(s[s.len() - 1]));
        assert(s.filter(p) == d.filter(p).push(s.last()));
        assert(d.push(s.last()) =~= s);
    } else {
        assert(s.filter(p) =~= s);
    }
}

pub proof fn lemma_filter_none<A>(s: Seq<A>, p: spec_fn(A) -> bool)
    requires
        forall|i: int| 0 <= i < s.len() ==> !p(#[trigger] s[i]),
    ensures
        s.filter(p) == Seq::<A>::empty(),
    decreases s.len(),
{
    reveal(Seq::filter);
    if s.len() > 0 {
        let d = s.drop_last();
        assert forall|i: int| 0 <= i < d.len() implies !p(#[trigger] d[i]) by {
            assert(d[i] == s[i]);
        }
        lemma_filter_none(d, p);
        assert(!p(s[s.len() - 1]));
        assert(s.filter(p) == d.filter(p));
    } else {
        assert(s.filter(p) =~= Seq::<A>::empty());
    }
}

impl<V> TimeWindow<V> {
    /// An empty window.
    pub fn new() -> (r: Self)
        ensures
            r@ == Seq::<(i64, V)>::empty(),
    {
        TimeWindow { entries: VecDeque::new() }
    }

    /// A window holding `entries`, oldest first.
    pub fn from_entries(entries: VecDeque<(i64, V)>) -> (r: Self)
        ensures
            r@ == entries@,
    {
        TimeWindow { entries }
    }

    /// The number of retained observations.
    pub fn len(&self) -> (r: usize)
        ensures
            r == self@.len(),
    {
        self.entries.len()
    }

    /// The retained observations, oldest first.
    pub fn entries(&self) -> (r: &VecDeque<(i64, V)>)
        ensures
            r@ == self@,
    {
        &self.entries
    }

    /// Drops every observation.
    pub fn clear(&mut self)
        ensures
            final(self)@ == Seq::<(i64, V)>::empty(),
    {
        self.entries.clear();
    }

    /// Appends an observation at `instant` as the newest.
    pub fn push(&mut self, instant: i64, value: V)
        ensures
            final(self)@ == old(self)@.push((instant, value)),
    {
        self.entries.push_back((instant, value));
    }

    /// Removes the newest observation and hands its value back.
    pub fn pop_newest(&mut self) -> (r: Option<V>)
        ensures
            old(self)@.len() == 0 ==> r is None && final(self)@ == old(self)@,
            old(self)@.len() > 0 ==> r == Some(old(self)@.last().1) && final(self)@
                == old(self)@.drop_last(),
    {
        match self.entries.pop_back() {
            Some(entry) => {
                let (_, value) = entry;
                Some(value)
            },
            None => None,
        }
    }

    /// Removes the oldest observation and hands its value back.
    pub fn pop_oldest(&mut self) -> (r: Option<V>)
        ensures
            old(self)@.len() == 0 ==> r is None && final(self)@ == old(self)@,
            old(self)@.len() > 0 ==> r == Some(old(self)@[0].1) && final(self)@
                == old(self)@.drop_first(),
    {
        match self.entries.pop_front() {
            Some(entry) => {
                let (_, value) = entry;
                Some(value)
            },
            None => None,
        }
    }

    /// Removes the leading observations at or before `cutoff` and hands their
    /// values back, oldest first.
    pub fn expire_through(&mut self, cutoff: i64) -> (r: Vec<V>)
        ensures
            final(self)@ == old(self)@.skip(expired_prefix_len(old(self)@, cutoff) as int),
            r@ == values_of(old(self)@.take(expired_prefix_len(old(self)@, cutoff) as int)),
    {
        let ghost start = self.entries@;
        let initial_len = self.entries.len();
        let mut expired: Vec<V> = Vec::new();
        let mut count: usize = 0;
        proof {
            lemma_expired_prefix_bounds(start, cutoff);
        }
        while self.entries.len() > 0 && self.entries[0].0 <= cutoff
            invariant
                count <= start.len(),
                start.len() == initial_len,
                self.entries@ == start.skip(count as int),
                expired@ == values_of(start.take(count as int)),
                expired_prefix_len(start, cutoff) == count + expired_prefix_len(
                    self.entries@,
                    cutoff,
                ),
            decreases self.entries@.len(),
        {
            let ghost before = self.entries@;
            let entry = self.entries.pop_front();
            match entry {
                Some(e) => {
                    let (_, value) = e;
                    expired.push(value);
                },
                None => {},
            }
            proof {
                assert(before.drop_first() =~= start.skip(count + 1));
                assert(start.take(count + 1) =~= start.take(count as int).push(before[0]));
                assert(values_of(start.take(count + 1)) =~= values_of(start.take(count as int)).push(before[0].1));
            }
            count = count + 1;
        }
        expired
    }

    /// Expires the observations at or before `cutoff`, removes the newest one
    /// when `replace` (a revision of the live bar), and appends
    /// `(instant, value)`. Returns the expired values, oldest first, and the
    /// revised value.
    pub fn advance(&mut self, cutoff: i64, replace: bool, instant: i64, value: V) -> (r: (Vec<V>, Option<V>))
        ensures
            final(self)@ == window_advance(old(self)@, cutoff, replace, instant, value),
            r.0@ == values_of(old(self)@.take(expired_prefix_len(old(self)@, cutoff) as int)),
            ({
                let kept = old(self)@.skip(expired_prefix_len(old(self)@, cutoff) as int);
                r.1 == if replace && kept.len() > 0 {
                    Some(kept.last().1)
                } else {
                    None
                }
            }),
    {
        let expired = self.expire_through(cutoff);
        let revised = if replace {
            self.pop_newest()
        } else {
            None
        };
        self.push(instant, value);
        (expired, revised)
    }
}

} // verus!
