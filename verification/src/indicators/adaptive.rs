//! Adaptive same-bucket detection for duration-windowed indicators.
//!
//! The bucket policy follows from the window's duration:
//! - windows shorter than five minutes use one-second UTC buckets;
//! - intraday windows (five minutes up to one day) use one-minute UTC buckets;
//! - windows of one day or longer use the daily-session gap rule: an
//!   observation less than 3.4 hours after the previous one revises it.
use std::time::Duration;

use vstd::prelude::*;

use crate::indicators::fixed_time_bucket::lemma_same_bucket_same_interval;
use crate::time::{duration_as_nanos, duration_nanos, instant_or_min, nanos_or_min};

verus! {

/// Nanoseconds in one second.
pub const SECOND_NANOS: i64 = 1_000_000_000;

/// Nanoseconds in one minute.
pub const MINUTE_NANOS: i64 = 60_000_000_000;

/// Windows shorter than this (five minutes) use one-second buckets.
pub const INTRADAY_WINDOW_NANOS: u128 = 300_000_000_000;

/// Windows at least this long (one day) use the daily-session gap rule.
pub const DAILY_WINDOW_NANOS: u128 = 86_400_000_000_000;

/// Largest gap (exclusive), 3.4 hours, at which a daily-session observation
/// still revises the previous one.
pub const SESSION_GAP_NANOS: i64 = 12_240_000_000_000;

/// The bucket policy chosen for a window.
#[derive(Debug, Clone, Copy, PartialEq, Eq, Structural)]
pub enum DetectedFrequency {
    /// One-second UTC buckets.
    Second,
    /// One-minute UTC buckets.
    Minute,
    /// Daily sessions: a revision arrives within 3.4 hours of its predecessor.
    DailySession,
}

/// The policy for a window whose span is `nanos`.
pub open spec fn frequency_for(nanos: u128) -> DetectedFrequency {
    if nanos < INTRADAY_WINDOW_NANOS {
        DetectedFrequency::Second
    } else if nanos < DAILY_WINDOW_NANOS {
        DetectedFrequency::Minute
    } else {
        DetectedFrequency::DailySession
    }
}

/// Whether an observation at `now` revises one at `previous` under `frequency`.
pub open spec fn same_bucket(frequency: DetectedFrequency, previous: i64, now: i64) -> bool {
    match frequency {
        DetectedFrequency::Second => previous as int / SECOND_NANOS as int == now as int
            / SECOND_NANOS as int,
        DetectedFrequency::Minute => previous as int / MINUTE_NANOS as int == now as int
            / MINUTE_NANOS as int,
        DetectedFrequency::DailySession => previous <= now && now - previous < SESSION_GAP_NANOS,
    }
}

/// An observation repeated at the same instant always revises the previous
/// one, whatever the policy.
pub proof fn lemma_repeat_revises(frequency: DetectedFrequency, instant: i64)
    ensures
        same_bucket(frequency, instant, instant),
{
}

/// Under the one-minute policy an observation revises the previous one
/// exactly when both fall in the same UTC minute
/// `[60 s * minute, 60 s * (minute + 1))`: instants in different minutes
/// never revise each other, however close they are.
pub proof fn lemma_minute_policy_is_utc_minutes(previous: i64, now: i64, minute: int)
    requires
        60_000_000_000 * minute <= previous < 60_000_000_000 * (minute + 1),
    ensures
        same_bucket(DetectedFrequency::Minute, previous, now) <==> (60_000_000_000 * minute <= now
            && now < 60_000_000_000 * (minute + 1)),
{
    lemma_same_bucket_same_interval(previous, now, MINUTE_NANOS, minute);
}

/// Under the one-second policy an observation revises the previous one
/// exactly when both fall in the same UTC second.
pub proof fn lemma_second_policy_is_utc_seconds(previous: i64, now: i64, second: int)
    requires
        1_000_000_000 * second <= previous < 1_000_000_000 * (second + 1),
    ensures
        same_bucket(DetectedFrequency::Second, previous, now) <==> (1_000_000_000 * second <= now
            && now < 1_000_000_000 * (second + 1)),
{
    lemma_same_bucket_same_interval(previous, now, SECOND_NANOS, second);
}

/// Under the daily-session policy an observation revises the previous one
/// exactly when it is not earlier and comes less than 3.4 hours after it.
pub proof fn lemma_session_policy_is_gap(previous: i64, now: i64)
    ensures
        same_bucket(DetectedFrequency::DailySession, previous, now) <==> (previous <= now && now
            < previous + 12_240_000_000_000int),
{
}

/// The policy follows the window: one-second buckets below five minutes,
/// one-minute buckets below one day, daily sessions from one day on.
pub proof fn lemma_policy_thresholds(nanos: u128)
    ensures
        nanos < 300_000_000_000 ==> frequency_for(nanos) == DetectedFrequency::Second,
        300_000_000_000 <= nanos < 86_400_000_000_000 ==> frequency_for(nanos)
            == DetectedFrequency::Minute,
        86_400_000_000_000 <= nanos ==> frequency_for(nanos) == DetectedFrequency::DailySession,
{
}

/// Decides whether each observation replaces the previous one.
#[derive(Debug, Clone)]
pub struct AdaptiveTimeDetector {
    frequency: DetectedFrequency,
    last: Option<i64>,
}

impl AdaptiveTimeDetector {
    /// The bucket policy in force.
    pub closed spec fn frequency_spec(&self) -> DetectedFrequency {
        self.frequency
    }

    /// The instant of the latest observation, if any.
    pub closed spec fn last_instant(&self) -> Option<i64> {
        self.last
    }

    /// A detector whose policy follows from `duration`.
    pub fn new(duration: Duration) -> (r: Self)
        ensures
            r.frequency_spec() == frequency_for(duration_nanos(duration)),
            r.last_instant() is None,
            duration_nanos(duration) < 300_000_000_000 ==> r.frequency_spec() == DetectedFrequency::Second,
            300_000_000_000 <= duration_nanos(duration) < 86_400_000_000_000 ==> r.frequency_spec()
                == DetectedFrequency::Minute,
            86_400_000_000_000 <= duration_nanos(duration) ==> r.frequency_spec()
                == DetectedFrequency::DailySession,
    {
        let nanos = duration_as_nanos(&duration);
        let frequency = if nanos < INTRADAY_WINDOW_NANOS {
            DetectedFrequency::Second
        } else if nanos < DAILY_WINDOW_NANOS {
            DetectedFrequency::Minute
        } else {
            DetectedFrequency::DailySession
        };
        AdaptiveTimeDetector { frequency, last: None }
    }

    /// A detector resumed from its policy and the instant of its latest
    /// observation.
    pub fn from_parts(frequency: DetectedFrequency, last: Option<i64>) -> (r: Self)
        ensures
            r.frequency_spec() == frequency,
            r.last_instant() == last,
    {
        AdaptiveTimeDetector { frequency, last }
    }

    /// The instant of the latest observation, if any.
    pub fn last(&self) -> (r: Option<i64>)
        ensures
            r == self.last_instant(),
    {
        self.last
    }

    /// The bucket policy in force.
    pub fn frequency(&self) -> (r: DetectedFrequency)
        ensures
            r == self.frequency_spec(),
    {
        self.frequency
    }

    /// Whether the observation at `timestamp_nanos` revises the previous one;
    /// it becomes the latest observation either way.
    pub fn should_replace(&mut self, timestamp_nanos: Option<i64>) -> (r: bool)
        ensures
            final(self).frequency_spec() == old(self).frequency_spec(),
            final(self).last_instant() == Some(nanos_or_min(timestamp_nanos)),
            r == match old(self).last_instant() {
                None => false,
                Some(previous) => same_bucket(
                    old(self).frequency_spec(),
                    previous,
                    nanos_or_min(timestamp_nanos),
                ),
            },
            old(self).last_instant() is None ==> !r,
            old(self).last_instant() is Some && old(self).frequency_spec() == DetectedFrequency::Second
                ==> (r <==> old(self).last_instant()->0 as int / 1_000_000_000int == nanos_or_min(
                timestamp_nanos,
            ) as int / 1_000_000_000int),
            old(self).last_instant() is Some && old(self).frequency_spec() == DetectedFrequency::Minute
                ==> (r <==> old(self).last_instant()->0 as int / 60_000_000_000int == nanos_or_min(
                timestamp_nanos,
            ) as int / 60_000_000_000int),
            old(self).last_instant() is Some && old(self).frequency_spec()
                == DetectedFrequency::DailySession ==> (r <==> (old(self).last_instant()->0
                <= nanos_or_min(timestamp_nanos) && nanos_or_min(timestamp_nanos)
                < old(self).last_instant()->0 + 12_240_000_000_000int)),
    {
        let now = instant_or_min(timestamp_nanos);
        let replace = match self.last {
            None => false,
            Some(previous) => match self.frequency {
                DetectedFrequency::Second => {
                    let a = previous.checked_div_euclid(SECOND_NANOS);
                    let b = now.checked_div_euclid(SECOND_NANOS);
                    proof {
                        lemma_div_in_range(previous, SECOND_NANOS);
                        lemma_div_in_range(now, SECOND_NANOS);
                    }
                    a == b
                },
                DetectedFrequency::Minute => {
                    let a = previous.checked_div_euclid(MINUTE_NANOS);
                    let b = now.checked_div_euclid(MINUTE_NANOS);
                    proof {
                        lemma_div_in_range(previous, MINUTE_NANOS);
                        lemma_div_in_range(now, MINUTE_NANOS);
                    }
                    a == b
                },
                DetectedFrequency::DailySession => {
                    previous <= now && (now as i128 - previous as i128) < SESSION_GAP_NANOS as i128
                },
            },
        };
        self.last = Some(now);
        replace
    }

    /// Forgets the latest observation.
    pub fn reset(&mut self)
        ensures
            final(self).frequency_spec() == old(self).frequency_spec(),
            final(self).last_instant() is None,
    {
        self.last = None;
    }
}

proof fn lemma_div_in_range(x: i64, w: i64)
    requires
        w >= 1,
    ensures
        i64::MIN <= x as int / w as int <= i64::MAX,
{
    crate::indicators::fixed_time_bucket::lemma_floor_div_in_range(x, w);
}

} // verus!
