//! Sparse sampling that bounds a window's memory: past a size limit, keep the
//! oldest few and the most recent run, and every other observation between.
use std::collections::VecDeque;

use vstd::prelude::*;

verus! {

/// Windows longer than this are thinned.
pub const MAX_WINDOW_SIZE: usize = 500;

/// Leading observations a thinned window keeps.
pub const KEEP_OLDEST: usize = 10;

/// Trailing observations a thinned window keeps.
pub const KEEP_RECENT: usize = 100;

/// Every other element of `m`, starting with the first.
pub open spec fn every_other<T>(m: Seq<T>) -> Seq<T> {
    Seq::new(((m.len() + 1) / 2) as nat, |i: int| m[2 * i])
}

/// The thinned form of `s`: unchanged up to the size limit; beyond it the
/// first `KEEP_OLDEST`, every other one of the middle, and the last
/// `KEEP_RECENT` observations.
pub open spec fn thin<T>(s: Seq<T>) -> Seq<T> {
    if s.len() <= MAX_WINDOW_SIZE {
        s
    } else {
        let middle_end = s.len() - KEEP_RECENT;
        s.take(KEEP_OLDEST as int) + every_other(s.subrange(KEEP_OLDEST as int, middle_end))
            + s.skip(middle_end)
    }
}

/// The position in `s` that position `p` of `thin(s)` was taken from.
pub open spec fn thin_source(len: nat, p: int) -> int {
    if len <= MAX_WINDOW_SIZE {
        p
    } else {
        let middle_end = len - KEEP_RECENT;
        let kept_middle = (middle_end - KEEP_OLDEST + 1) / 2;
        if p < KEEP_OLDEST {
            p
        } else if p < KEEP_OLDEST + kept_middle {
            KEEP_OLDEST + 2 * (p - KEEP_OLDEST)
        } else {
            middle_end + (p - KEEP_OLDEST - kept_middle)
        }
    }
}

/// Thinning keeps a subsequence: each kept element comes from a strictly later
/// position than the one before it, and the last element stays last.
pub proof fn lemma_thin_sources<T>(s: Seq<T>)
    ensures
        thin(s).len() <= s.len(),
        forall|p: int| 0 <= p < thin(s).len() ==> 0 <= #[trigger] thin_source(s.len(), p) < s.len()
            && thin(s)[p] == s[thin_source(s.len(), p)],
        forall|p: int, q: int| 0 <= p < q < thin(s).len() ==> #[trigger] thin_source(s.len(), p)
            < #[trigger] thin_source(s.len(), q),
        s.len() > 0 ==> thin(s).len() > 0 && thin_source(s.len(), thin(s).len() - 1) == s.len() - 1,
{
    if s.len() > MAX_WINDOW_SIZE {
        let middle_end = s.len() - KEEP_RECENT;
        let m = s.subrange(KEEP_OLDEST as int, middle_end);
        let e = every_other(m);
        let kept_middle = (middle_end - KEEP_OLDEST + 1) / 2;
        assert(e.len() == kept_middle);
        let t = thin(s);
        assert(t.len() == KEEP_OLDEST + kept_middle + KEEP_RECENT);
        assert forall|p: int| 0 <= p < t.len() implies 0 <= #[trigger] thin_source(s.len(), p) < s.len()
            && t[p] == s[thin_source(s.len(), p)] by {
            if p < KEEP_OLDEST {
            } else if p < KEEP_OLDEST + kept_middle {
                assert(t[p] == e[p - KEEP_OLDEST]);
                assert(e[p - KEEP_OLDEST] == m[2 * (p - KEEP_OLDEST)]);
            } else {
                assert(t[p] == s.skip(middle_end)[p - KEEP_OLDEST - kept_middle]);
            }
        }
    }
}

/// Bounded storage: a window at most one observation past the size limit
/// is thinned back within it, so a window that grows one observation at a
/// time and is thinned after each never exceeds `MAX_WINDOW_SIZE`.
pub proof fn lemma_thin_bounds_growth<T>(s: Seq<T>)
    requires
        s.len() <= MAX_WINDOW_SIZE + 1,
    ensures
        thin(s).len() <= MAX_WINDOW_SIZE,
{
    if s.len() > MAX_WINDOW_SIZE {
        let middle_end = s.len() - KEEP_RECENT;
        let m = s.subrange(KEEP_OLDEST as int, middle_end);
        assert(m.len() == MAX_WINDOW_SIZE + 1 - KEEP_RECENT - KEEP_OLDEST);
        assert(every_other(m).len() == (m.len() + 1) / 2);
    }
}

/// Thinned copy of a window longer than `MAX_WINDOW_SIZE`.
pub fn thinned<T: Copy>(w: &VecDeque<T>) -> (r: VecDeque<T>)
    requires
        w@.len() > MAX_WINDOW_SIZE,
    ensures
        r@ == thin(w@),
{
    let len = w.len();
    let middle_end = len - KEEP_RECENT;
    let ghost s = w@;
    let ghost m = s.subrange(KEEP_OLDEST as int, middle_end as int);
    let mut out: VecDeque<T> = VecDeque::new();
    let mut i: usize = 0;
    while i < KEEP_OLDEST
        invariant
            len == s.len(),
            s == w@,
            len > MAX_WINDOW_SIZE,
            i <= KEEP_OLDEST,
            out@ == s.take(i as int),
        decreases KEEP_OLDEST - i,
    {
        out.push_back(w[i]);
        proof {
            assert(s.take(i + 1) =~= s.take(i as int).push(s[i as int]));
        }
        i = i + 1;
    }
    let mut keep = true;
    while i < middle_end
        invariant
            len == s.len(),
            s == w@,
            middle_end == len - KEEP_RECENT,
            m == s.subrange(KEEP_OLDEST as int, middle_end as int),
            KEEP_OLDEST <= i <= middle_end,
            keep == ((i - KEEP_OLDEST) % 2 == 0),
            out@ == s.take(KEEP_OLDEST as int) + every_other(s.subrange(KEEP_OLDEST as int, i as int)),
        decreases middle_end - i,
    {
        let ghost before = every_other(s.subrange(KEEP_OLDEST as int, i as int));
        let ghost after = every_other(s.subrange(KEEP_OLDEST as int, i + 1));
        if keep {
            out.push_back(w[i]);
            proof {
                let d = i - KEEP_OLDEST;
                assert(after.len() == before.len() + 1);
                assert forall|j: int| 0 <= j < before.len() implies after[j] == before[j] by {}
                assert(after[before.len() as int] == s[i as int]);
                assert(after =~= before.push(s[i as int]));
                assert(s.take(KEEP_OLDEST as int) + after =~= (s.take(KEEP_OLDEST as int) + before).push(s[i as int]));
            }
        } else {
            proof {
                assert(after.len() == before.len());
                assert forall|j: int| 0 <= j < before.len() implies after[j] == before[j] by {}
                assert(after =~= before);
            }
        }
        keep = !keep;
        i = i + 1;
    }
    let ghost head = s.take(KEEP_OLDEST as int) + every_other(m);
    while i < len
        invariant
            len == s.len(),
            s == w@,
            middle_end == len - KEEP_RECENT,
            middle_end <= i <= len,
            m == s.subrange(KEEP_OLDEST as int, middle_end as int),
            head == s.take(KEEP_OLDEST as int) + every_other(m),
            out@ == head + s.subrange(middle_end as int, i as int),
        decreases len - i,
    {
        out.push_back(w[i]);
        proof {
            assert(s.subrange(middle_end as int, i + 1) =~= s.subrange(middle_end as int, i as int).push(s[i as int]));
            assert(head + s.subrange(middle_end as int, i + 1) =~= (head + s.subrange(middle_end as int, i as int)).push(s[i as int]));
        }
        i = i + 1;
    }
    proof {
        assert(s.subrange(middle_end as int, len as int) =~= s.skip(middle_end as int));
    }
    out
}

} // verus!
