//! Nanosecond arithmetic shared by the windows.
//!
//! Instants arrive as `Option<i64>`: the nanoseconds since the Unix epoch
//! that `chrono::DateTime::timestamp_nanos_opt` reports, `None` for instants
//! outside the range of an `i64`. Spans arrive as `std::time::Duration`.
use std::time::Duration;

use vstd::prelude::*;

use crate::errors::TaError;

verus! {

/// The whole span of `d` in nanoseconds, as `Duration::as_nanos` reports it.
pub uninterp spec fn duration_nanos(d: Duration) -> u128;

/// `std::time::Duration::as_nanos`: the call's result is given the name
/// `duration_nanos`; nothing more of it is claimed.
#[verifier::external_body]
pub(crate) fn duration_as_nanos(d: &Duration) -> (r: u128)
    ensures
        r == duration_nanos(*d),
{
    d.as_nanos()
}

/// `<Duration as Clone>::clone`: `Duration` is `Copy`, so a clone is the same
/// span.
pub assume_specification[ <Duration as Clone>::clone ](d: &Duration) -> (r: Duration)
    ensures
        r == *d,
;

/// Checks the spans of a bucketed window: the window and the bucket are both
/// positive, and the bucket is no wider than the window.
pub fn check_bucketed_window(window: &Duration, bucket_width: &Duration) -> (r: Result<(), TaError>)
    ensures
        r is Ok <==> (duration_nanos(*window) > 0 && duration_nanos(*bucket_width) > 0
            && duration_nanos(*bucket_width) <= duration_nanos(*window)),
        r matches Err(e) ==> e == TaError::InvalidParameter,
{
    let span = duration_as_nanos(window);
    let width = duration_as_nanos(bucket_width);
    if span == 0 || width == 0 || width > span {
        Err(TaError::InvalidParameter)
    } else {
        Ok(())
    }
}

/// An instant's nanoseconds, with out-of-range instants read as `i64::MIN`.
pub open spec fn nanos_or_min(n: Option<i64>) -> i64 {
    match n {
        Some(x) => x,
        None => i64::MIN,
    }
}

/// An instant's nanoseconds, with out-of-range instants read as `i64::MAX`.
pub open spec fn nanos_or_max(n: Option<i64>) -> i64 {
    match n {
        Some(x) => x,
        None => i64::MAX,
    }
}

/// A nanosecond span clamped into `i64` (longer spans read as `i64::MAX`).
pub open spec fn clamp_nanos(n: u128) -> i64 {
    if n <= i64::MAX as u128 {
        n as i64
    } else {
        i64::MAX
    }
}

/// `a - b`, saturating at the bounds of `i64`.
pub open spec fn saturating_diff(a: i64, b: i64) -> i64 {
    if a - b < i64::MIN {
        i64::MIN
    } else if a - b > i64::MAX {
        i64::MAX
    } else {
        (a - b) as i64
    }
}

/// The span of `d` in nanoseconds, clamped into `i64`.
pub open spec fn span_nanos(d: Duration) -> i64 {
    clamp_nanos(duration_nanos(d))
}

/// The expiry cutoff `now - span`: observations at or before it are out of
/// the window.
pub open spec fn window_cutoff(now: i64, span: i64) -> i64 {
    saturating_diff(now, span)
}

/// `timestamp_nanos.unwrap_or(i64::MIN)`.
pub fn instant_or_min(timestamp_nanos: Option<i64>) -> (r: i64)
    ensures
        r == nanos_or_min(timestamp_nanos),
{
    match timestamp_nanos {
        Some(n) => n,
        None => i64::MIN,
    }
}

/// `timestamp_nanos.unwrap_or(i64::MAX)`.
pub fn instant_or_max(timestamp_nanos: Option<i64>) -> (r: i64)
    ensures
        r == nanos_or_max(timestamp_nanos),
{
    match timestamp_nanos {
        Some(n) => n,
        None => i64::MAX,
    }
}

/// `i64::try_from(d.as_nanos()).unwrap_or(i64::MAX)`.
pub fn span_of(d: &Duration) -> (r: i64)
    ensures
        r == span_nanos(*d),
        r >= 0,
        r == 0 <==> duration_nanos(*d) == 0,
{
    let n = duration_as_nanos(d);
    if n <= i64::MAX as u128 {
        n as i64
    } else {
        i64::MAX
    }
}

/// `a.saturating_sub(b)`.
pub fn saturating_sub(a: i64, b: i64) -> (r: i64)
    ensures
        r == saturating_diff(a, b),
{
    match a.checked_sub(b) {
        Some(d) => d,
        None => if b > 0 {
            i64::MIN
        } else {
            i64::MAX
        },
    }
}

/// `now.saturating_sub(span)`: the cutoff at or before which observations
/// have left a window of `span` nanoseconds.
pub fn cutoff_at(now: i64, span: i64) -> (r: i64)
    ensures
        r == window_cutoff(now, span),
{
    saturating_sub(now, span)
}

} // verus!
