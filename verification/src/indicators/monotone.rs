//! Candidate sequences for sliding minima: the observations that no later
//! observation undercuts. Their front is the minimum of the whole run, they
//! are updated at the back in amortized O(1), and expiry removes them from the
//! front.
use std::collections::VecDeque;

use vstd::prelude::*;

verus! {

/// An observation: its instant and its order key.
pub type Keyed = (i64, i64);

/// Whether some later observation of `s` has a key at most that of `s[0]`.
pub open spec fn front_undercut(s: Seq<Keyed>) -> bool {
    exists|j: int| 1 <= j < s.len() && #[trigger] s[j].1 <= s[0].1
}

/// The observations of `s` that no later observation undercuts, in order.
pub open spec fn min_candidates(s: Seq<Keyed>) -> Seq<Keyed>
    decreases s.len(),
{
    if s.len() == 0 {
        s
    } else if front_undercut(s) {
        min_candidates(s.drop_first())
    } else {
        seq![s[0]] + min_candidates(s.drop_first())
    }
}

/// `c` without the trailing observations whose key is at least `key`.
pub open spec fn pop_not_below(c: Seq<Keyed>, key: i64) -> Seq<Keyed>
    decreases c.len(),
{
    if c.len() > 0 && c.last().1 >= key {
        pop_not_below(c.drop_last(), key)
    } else {
        c
    }
}

/// `c` without the leading observations before `cutoff`.
pub open spec fn drop_before(c: Seq<Keyed>, cutoff: i64) -> Seq<Keyed>
    decreases c.len(),
{
    if c.len() > 0 && c[0].0 < cutoff {
        drop_before(c.drop_first(), cutoff)
    } else {
        c
    }
}

/// `m` is the least key among the observations of `s`.
pub open spec fn is_min_key(s: Seq<Keyed>, m: i64) -> bool {
    &&& exists|i: int| 0 <= i < s.len() && #[trigger] s[i].1 == m
    &&& forall|i: int| 0 <= i < s.len() ==> m <= #[trigger] s[i].1
}

/// Whether the instants of `s` never decrease.
pub open spec fn keyed_nondecreasing(s: Seq<Keyed>) -> bool {
    forall|i: int, j: int| 0 <= i <= j < s.len() ==> #[trigger] s[i].0 <= #[trigger] s[j].0
}

/// Every candidate is an observation of the run.
pub proof fn lemma_candidates_from_run(s: Seq<Keyed>)
    ensures
        forall|i: int| 0 <= i < min_candidates(s).len() ==> exists|j: int| 0 <= j < s.len() && #[trigger] min_candidates(s)[i] == s[j],
        min_candidates(s).len() <= s.len(),
    decreases s.len(),
{
    if s.len() > 0 {
        let t = s.drop_first();
        lemma_candidates_from_run(t);
        let c = min_candidates(s);
        let ct = min_candidates(t);
        assert forall|i: int| 0 <= i < c.len() implies exists|j: int| 0 <= j < s.len() && #[trigger] c[i] == s[j] by {
            if front_undercut(s) {
                let j = choose|j: int| 0 <= j < t.len() && #[trigger] ct[i] == t[j];
                assert(c[i] == s[j + 1]);
            } else if i == 0 {
                assert(c[0] == s[0]);
            } else {
                assert(c[i] == ct[i - 1]);
                let j = choose|j: int| 0 <= j < t.len() && #[trigger] ct[i - 1] == t[j];
                assert(c[i] == s[j + 1]);
            }
        }
    }
}

/// A run with an observation has a candidate, and the first candidate holds
/// the least key of the run.
pub proof fn lemma_candidates_front_is_min(s: Seq<Keyed>)
    requires
        s.len() > 0,
    ensures
        min_candidates(s).len() > 0,
        is_min_key(s, min_candidates(s)[0].1),
    decreases s.len(),
{
    let t = s.drop_first();
    if front_undercut(s) {
        let j = choose|j: int| 1 <= j < s.len() && #[trigger] s[j].1 <= s[0].1;
        lemma_candidates_front_is_min(t);
        let m = min_candidates(t)[0].1;
        assert(t[j - 1] == s[j]);
        assert forall|i: int| 0 <= i < s.len() implies m <= #[trigger] s[i].1 by {
            if i > 0 {
                assert(t[i - 1] == s[i]);
            }
        }
        let i0 = choose|i: int| 0 <= i < t.len() && #[trigger] t[i].1 == m;
        assert(s[i0 + 1] == t[i0]);
    } else {
        assert(min_candidates(s)[0] == s[0]);
        assert forall|i: int| 0 <= i < s.len() implies s[0].1 <= #[trigger] s[i].1 by {
            if i > 0 && s[i].1 < s[0].1 {
                assert(front_undercut(s));
            }
        }
    }
}

/// Candidate keys strictly increase from front to back.
pub proof fn lemma_candidates_increasing(s: Seq<Keyed>)
    ensures
        forall|i: int, j: int| 0 <= i < j < min_candidates(s).len() ==> #[trigger] min_candidates(s)[i].1 < #[trigger] min_candidates(s)[j].1,
    decreases s.len(),
{
    if s.len() > 0 {
        let t = s.drop_first();
        lemma_candidates_increasing(t);
        lemma_candidates_from_run(t);
        let c = min_candidates(s);
        let ct = min_candidates(t);
        if !front_undercut(s) {
            assert forall|i: int, j: int| 0 <= i < j < c.len() implies #[trigger] c[i].1 < #[trigger] c[j].1 by {
                if i == 0 {
                    assert(c[j] == ct[j - 1]);
                    let k = choose|k: int| 0 <= k < t.len() && #[trigger] ct[j - 1] == t[k];
                    assert(s[k + 1] == t[k]);
                    if !(s[0].1 < s[k + 1].1) {
                        assert(front_undercut(s));
                    }
                } else {
                    assert(c[i] == ct[i - 1] && c[j] == ct[j - 1]);
                }
            }
        }
    }
}

proof fn lemma_pop_all(c: Seq<Keyed>, key: i64)
    requires
        forall|i: int| 0 <= i < c.len() ==> #[trigger] c[i].1 >= key,
    ensures
        pop_not_below(c, key) == Seq::<Keyed>::empty(),
    decreases c.len(),
{
    if c.len() > 0 {
        let d = c.drop_last();
        assert forall|i: int| 0 <= i < d.len() implies #[trigger] d[i].1 >= key by {
            assert(d[i] == c[i]);
        }
        assert(c.last().1 >= key);
        lemma_pop_all(d, key);
    } else {
        assert(c =~= Seq::<Keyed>::empty());
    }
}

proof fn lemma_pop_prepend(a: Keyed, c: Seq<Keyed>, key: i64)
    requires
        a.1 < key,
    ensures
        pop_not_below(seq![a] + c, key) == seq![a] + pop_not_below(c, key),
    decreases c.len(),
{
    let ac = seq![a] + c;
    if c.len() > 0 && c.last().1 >= key {
        assert(ac.last() == c.last());
        assert(ac.drop_last() =~= seq![a] + c.drop_last());
        lemma_pop_prepend(a, c.drop_last(), key);
    } else if c.len() > 0 {
        assert(ac.last() == c.last());
    } else {
        assert(ac.last() == a);
        assert(ac =~= seq![a] + c);
    }
}

/// Sealing an observation at the back: dropping the candidates it undercuts
/// and appending it gives the candidates of the extended run.
pub proof fn lemma_candidates_push(s: Seq<Keyed>, x: Keyed)
    ensures
        min_candidates(s.push(x)) == pop_not_below(min_candidates(s), x.1).push(x),
    decreases s.len(),
{
    let sx = s.push(x);
    if s.len() == 0 {
        assert(sx =~= seq![x]);
        assert(!front_undercut(sx));
        assert(sx.drop_first() =~= Seq::<Keyed>::empty());
        assert(sx[0] == x);
        assert(min_candidates(sx.drop_first()) =~= Seq::<Keyed>::empty());
        assert(min_candidates(sx) =~= seq![x] + Seq::<Keyed>::empty());
        assert(min_candidates(sx) =~= seq![x]);
        assert(pop_not_below(Seq::<Keyed>::empty(), x.1) =~= Seq::<Keyed>::empty());
        assert(Seq::<Keyed>::empty().push(x) =~= seq![x]);
    } else {
        let a = s[0];
        let t = s.drop_first();
        assert(sx.drop_first() =~= t.push(x));
        assert(sx[0] == a);
        lemma_candidates_push(t, x);
        if front_undercut(s) {
            let j = choose|j: int| 1 <= j < s.len() && #[trigger] s[j].1 <= s[0].1;
            assert(sx[j] == s[j]);
            assert(front_undercut(sx));
        } else if x.1 <= a.1 {
            assert(sx[s.len() as int] == x);
            assert(front_undercut(sx));
            lemma_candidates_from_run(t);
            let ct = min_candidates(t);
            assert forall|i: int| 0 <= i < ct.len() implies #[trigger] ct[i].1 >= x.1 by {
                let k = choose|k: int| 0 <= k < t.len() && #[trigger] ct[i] == t[k];
                assert(s[k + 1] == t[k]);
                if s[k + 1].1 <= s[0].1 {
                    assert(front_undercut(s));
                }
            }
            lemma_pop_all(ct, x.1);
            let c = min_candidates(s);
            assert(c == seq![a] + ct);
            assert forall|i: int| 0 <= i < c.len() implies #[trigger] c[i].1 >= x.1 by {
                if i > 0 {
                    assert(c[i] == ct[i - 1]);
                }
            }
            lemma_pop_all(c, x.1);
        } else {
            assert forall|j: int| 1 <= j < sx.len() implies !(#[trigger] sx[j].1 <= sx[0].1) by {
                if j < s.len() {
                    assert(sx[j] == s[j]);
                    if s[j].1 <= s[0].1 {
                        assert(front_undercut(s));
                    }
                } else {
                    assert(sx[j] == x);
                }
            }
            assert(!front_undercut(sx));
            lemma_pop_prepend(a, min_candidates(t), x.1);
            assert(seq![a] + pop_not_below(min_candidates(t), x.1).push(x) =~= (seq![a]
                + pop_not_below(min_candidates(t), x.1)).push(x));
        }
    }
}

/// On nondecreasing instants, expiring a leading run before `cutoff` removes
/// exactly the leading candidates before `cutoff`.
pub proof fn lemma_candidates_expire(s: Seq<Keyed>, k: int, cutoff: i64)
    requires
        keyed_nondecreasing(s),
        0 <= k <= s.len(),
        forall|i: int| 0 <= i < k ==> #[trigger] s[i].0 < cutoff,
        forall|i: int| k <= i < s.len() ==> #[trigger] s[i].0 >= cutoff,
    ensures
        min_candidates(s.skip(k)) == drop_before(min_candidates(s), cutoff),
    decreases k,
{
    if k == 0 {
        assert(s.skip(0) =~= s);
        let c = min_candidates(s);
        if c.len() > 0 {
            lemma_candidates_from_run(s);
            let j = choose|j: int| 0 <= j < s.len() && #[trigger] c[0] == s[j];
            assert(s[j].0 >= cutoff);
        }
    } else {
        let t = s.drop_first();
        assert(keyed_nondecreasing(t)) by {
            assert forall|i: int, j: int| 0 <= i <= j < t.len() implies #[trigger] t[i].0
                <= #[trigger] t[j].0 by {
                assert(t[i] == s[i + 1] && t[j] == s[j + 1]);
            }
        }
        assert forall|i: int| 0 <= i < k - 1 implies #[trigger] t[i].0 < cutoff by {
            assert(t[i] == s[i + 1]);
        }
        assert forall|i: int| k - 1 <= i < t.len() implies #[trigger] t[i].0 >= cutoff by {
            assert(t[i] == s[i + 1]);
        }
        lemma_candidates_expire(t, k - 1, cutoff);
        assert(t.skip(k - 1) =~= s.skip(k));
        assert(s[0].0 < cutoff);
        if !front_undercut(s) {
            let c = min_candidates(s);
            assert(c[0] == s[0]);
            assert(c.drop_first() =~= min_candidates(t));
        }
    }
}

/// The newest observation is never undercut: it is the last candidate.
pub proof fn lemma_candidates_last(s: Seq<Keyed>)
    requires
        s.len() > 0,
    ensures
        min_candidates(s).len() > 0,
        min_candidates(s).last() == s.last(),
    decreases s.len(),
{
    let t = s.drop_first();
    if s.len() == 1 {
        assert(!front_undercut(s));
        assert(t =~= Seq::<Keyed>::empty());
        assert(min_candidates(t) =~= Seq::<Keyed>::empty());
        assert(min_candidates(s) =~= seq![s[0]] + min_candidates(t));
    } else {
        lemma_candidates_last(t);
        assert(t.last() == s.last());
        if !front_undercut(s) {
            let c = min_candidates(s);
            assert(c =~= seq![s[0]] + min_candidates(t));
            assert(c.last() == min_candidates(t).last());
        }
    }
}

/// Seals `x` into the candidate deque `c`: drops the trailing candidates whose
/// key is at least `x`'s, then appends `x`.
pub fn seal_candidate(c: &mut VecDeque<Keyed>, x: Keyed)
    ensures
        final(c)@ == pop_not_below(old(c)@, x.1).push(x),
{
    let ghost start = c@;
    while c.len() > 0 && c[c.len() - 1].1 >= x.1
        invariant
            pop_not_below(start, x.1) == pop_not_below(c@, x.1),
        decreases c@.len(),
    {
        let ghost before = c@;
        c.pop_back();
        proof {
            assert(c@ =~= before.drop_last());
        }
    }
    c.push_back(x);
}

/// Drops the leading candidates before `cutoff`.
pub fn drop_candidates_before(c: &mut VecDeque<Keyed>, cutoff: i64)
    ensures
        final(c)@ == drop_before(old(c)@, cutoff),
{
    let ghost start = c@;
    while c.len() > 0 && c[0].0 < cutoff
        invariant
            drop_before(start, cutoff) == drop_before(c@, cutoff),
        decreases c@.len(),
    {
        let ghost before = c@;
        c.pop_front();
        proof {
            assert(c@ =~= before.drop_first());
        }
    }
}

} // verus!
