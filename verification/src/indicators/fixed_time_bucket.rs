//! Fixed-width UTC buckets that tell a revision of the live bar from a new bar.
use std::time::Duration;

use vstd::prelude::*;

use crate::errors::TaError;
use crate::time::{duration_as_nanos, duration_nanos, instant_or_min, nanos_or_min, span_nanos, span_of};

verus! {

/// How an observation relates to the bucket before it.
#[derive(Debug, Clone, Copy, PartialEq, Eq, Structural)]
pub enum BucketUpdate {
    /// The first observation since construction or reset.
    First,
    /// Same bucket as the previous observation: it revises the live bar.
    Replace,
    /// A new bucket: the previous bar is sealed.
    Append,
}

/// The bucket index of an instant: `floor(instant / width)`.
pub open spec fn bucket_index(instant: i64, width: i64) -> int {
    instant as int / width as int
}

/// The transition an observation in `bucket` makes from `current`.
pub open spec fn bucket_transition(current: Option<i64>, bucket: int) -> BucketUpdate {
    match current {
        None => BucketUpdate::First,
        Some(c) => if c == bucket {
            BucketUpdate::Replace
        } else {
            BucketUpdate::Append
        },
    }
}

pub(crate) proof fn lemma_floor_div_in_range(x: i64, w: i64)
    requires
        w >= 1,
    ensures
        i64::MIN <= x as int / w as int <= i64::MAX,
{
    let q = (x as int) / (w as int);
    vstd::arithmetic::div_mod::lemma_fundamental_div_mod(x as int, w as int);
    vstd::arithmetic::div_mod::lemma_mod_bound(x as int, w as int);
    if x >= 0 {
        assert(0 <= q <= x) by (nonlinear_arith)
            requires x >= 0, w >= 1, (x as int) == (w as int) * q + (x as int) % (w as int),
                0 <= (x as int) % (w as int) < (w as int);
    } else {
        assert(x <= q < 0) by (nonlinear_arith)
            requires x < 0, w >= 1, (x as int) == (w as int) * q + (x as int) % (w as int),
                0 <= (x as int) % (w as int) < (w as int);
    }
}

/// Floor division by a positive width: `m` is the quotient of `x` exactly
/// when `x` lies in `[w * m, w * (m + 1))`.
pub proof fn lemma_floor_is_unique(x: int, w: int, m: int)
    requires
        w > 0,
    ensures
        (w * m <= x && x < w * (m + 1)) <==> x / w == m,
{
    vstd::arithmetic::div_mod::lemma_fundamental_div_mod(x, w);
    vstd::arithmetic::div_mod::lemma_mod_bound(x, w);
    let q = x / w;
    let r = x % w;
    if w * m <= x && x < w * (m + 1) {
        assert(q == m) by (nonlinear_arith)
            requires
                w > 0,
                w * m <= x,
                x < w * (m + 1),
                x == w * q + r,
                0 <= r < w,
        ;
    }
    if q == m {
        assert(w * m <= x && x < w * (m + 1)) by (nonlinear_arith)
            requires
                w > 0,
                q == m,
                x == w * q + r,
                0 <= r < w,
        ;
    }
}

/// Buckets are the UTC-aligned intervals of the configured width: every
/// instant lies in `[width * b, width * (b + 1))` for its bucket `b`, so two
/// instants share a bucket exactly when they fall in the same such interval,
/// whatever the width.
pub proof fn lemma_bucket_is_utc_floor(instant: i64, width: i64)
    requires
        width >= 1,
    ensures
        width * bucket_index(instant, width) <= instant,
        instant < width * (bucket_index(instant, width) + 1),
{
    lemma_floor_is_unique(instant as int, width as int, instant as int / width as int);
}

/// Two instants fall in the same bucket exactly when the second lies in the
/// width-aligned interval that holds the first.
pub proof fn lemma_same_bucket_same_interval(first: i64, second: i64, width: i64, b: int)
    requires
        width >= 1,
        width * b <= first < width * (b + 1),
    ensures
        bucket_index(first, width) == b,
        bucket_index(second, width) == b <==> (width * b <= second && second < width * (b + 1)),
{
    lemma_floor_is_unique(first as int, width as int, b);
    lemma_floor_is_unique(second as int, width as int, b);
}

/// Two instants in the same bucket: the second revises the first. In
/// different buckets: the second seals the first and appends.
pub proof fn lemma_bucket_revision(first: i64, second: i64, width: i64)
    requires
        width >= 1,
    ensures
        bucket_index(first, width) == bucket_index(second, width) ==> bucket_transition(
            Some(bucket_index(first, width) as i64),
            bucket_index(second, width),
        ) == BucketUpdate::Replace,
        bucket_index(first, width) != bucket_index(second, width) ==> bucket_transition(
            Some(bucket_index(first, width) as i64),
            bucket_index(second, width),
        ) == BucketUpdate::Append,
{
    lemma_floor_div_in_range(first, width);
    lemma_floor_div_in_range(second, width);
}

/// Nondecreasing instants give nondecreasing buckets.
pub proof fn lemma_buckets_nondecreasing(first: i64, second: i64, width: i64)
    requires
        width >= 1,
        first <= second,
    ensures
        bucket_index(first, width) <= bucket_index(second, width),
{
    vstd::arithmetic::div_mod::lemma_div_is_ordered(first as int, second as int, width as int);
}

/// Tracks fixed-width UTC buckets for indicators whose window does not imply a
/// sampling cadence, such as true range and crossovers.
#[derive(Debug)]
pub struct FixedTimeBucket {
    width: Duration,
    current: Option<i64>,
}

impl Clone for FixedTimeBucket {
    fn clone(&self) -> (r: Self)
        ensures
            r == *self,
    {
        proof {
            use_type_invariant(self);
        }
        FixedTimeBucket { width: self.width, current: self.current }
    }
}

impl FixedTimeBucket {
    #[verifier::type_invariant]
    spec fn positive_width(&self) -> bool {
        duration_nanos(self.width) > 0
    }

    /// The configured bucket width.
    pub closed spec fn width_spec(&self) -> Duration {
        self.width
    }

    /// The bucket of the latest observation, if any.
    pub closed spec fn current_bucket(&self) -> Option<i64> {
        self.current
    }

    /// The width in nanoseconds, clamped into `i64`.
    pub open spec fn width_nanos(&self) -> i64 {
        span_nanos(self.width_spec())
    }

    /// A tracker with no bucket yet; a zero width is refused.
    pub fn new(width: Duration) -> (r: Result<Self, TaError>)
        ensures
            duration_nanos(width) == 0 <==> r is Err,
            r matches Err(e) ==> e == TaError::InvalidParameter,
            r matches Ok(b) ==> b.width_spec() == width && b.current_bucket() is None,
    {
        if duration_as_nanos(&width) == 0 {
            return Err(TaError::InvalidParameter);
        }
        Ok(FixedTimeBucket { width, current: None })
    }

    /// A tracker resumed from its width and the bucket of its latest
    /// observation; a zero width is refused.
    pub fn from_parts(width: Duration, current: Option<i64>) -> (r: Result<Self, TaError>)
        ensures
            duration_nanos(width) == 0 <==> r is Err,
            r matches Err(e) ==> e == TaError::InvalidParameter,
            r matches Ok(b) ==> b.width_spec() == width && b.current_bucket() == current,
    {
        if duration_as_nanos(&width) == 0 {
            return Err(TaError::InvalidParameter);
        }
        Ok(FixedTimeBucket { width, current })
    }

    /// The bucket of the latest observation, if any.
    pub fn current(&self) -> (r: Option<i64>)
        ensures
            r == self.current_bucket(),
    {
        self.current
    }

    /// Classifies the instant `timestamp_nanos` against the previous bucket and makes its bucket
    /// current.
    pub fn update(&mut self, timestamp_nanos: Option<i64>) -> (r: BucketUpdate)
        ensures
            final(self).width_spec() == old(self).width_spec(),
            r == bucket_transition(
                old(self).current_bucket(),
                bucket_index(nanos_or_min(timestamp_nanos), old(self).width_nanos()),
            ),
            final(self).current_bucket() == Some(
                bucket_index(nanos_or_min(timestamp_nanos), old(self).width_nanos()) as i64,
            ),
            final(self).current_bucket() is Some,
            duration_nanos(old(self).width_spec()) <= i64::MAX ==> {
                &&& duration_nanos(old(self).width_spec()) * final(self).current_bucket()->0
                    <= nanos_or_min(timestamp_nanos)
                &&& nanos_or_min(timestamp_nanos)
                    < duration_nanos(old(self).width_spec()) * (final(self).current_bucket()->0 + 1)
            },
            r == BucketUpdate::First <==> old(self).current_bucket() is None,
            r == BucketUpdate::Replace <==> old(self).current_bucket() == final(self).current_bucket(),
    {
        proof {
            use_type_invariant(&*self);
        }
        let width = span_of(&self.width);
        let instant = instant_or_min(timestamp_nanos);
        proof {
            lemma_floor_div_in_range(instant, width);
            lemma_bucket_is_utc_floor(instant, width);
        }
        let bucket = match instant.checked_div_euclid(width) {
            Some(b) => b,
            None => 0,
        };
        let update = match self.current {
            None => BucketUpdate::First,
            Some(current) => if current == bucket {
                BucketUpdate::Replace
            } else {
                BucketUpdate::Append
            },
        };
        self.current = Some(bucket);
        update
    }

    /// Forgets the current bucket, so the next observation is `First` again.
    pub fn reset(&mut self)
        ensures
            final(self).width_spec() == old(self).width_spec(),
            final(self).current_bucket() is None,
    {
        proof {
            use_type_invariant(&*self);
        }
        self.current = None;
    }

    /// The configured bucket width.
    pub fn width(&self) -> (r: Duration)
        ensures
            r == self.width_spec(),
    {
        self.width
    }
}

} // verus!
