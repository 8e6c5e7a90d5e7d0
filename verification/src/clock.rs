//! Spans of time and points in time, in whole nanoseconds.

use vstd::prelude::*;

verus! {

/// Nanoseconds in one second.
pub const NANOS_PER_SEC: u128 = 1_000_000_000;

/// A span of time.
#[derive(Clone, Copy, Debug, PartialEq, Eq, Structural)]
pub struct Duration {
    pub nanos: u128,
}

impl Duration {
    /// A span of whole seconds.
    pub open spec fn of_secs(secs: nat) -> Duration {
        Duration { nanos: (secs * 1_000_000_000) as u128 }
    }

    /// A span of whole seconds.
    pub fn from_secs(secs: u64) -> (span: Duration)
        ensures
            span == Self::of_secs(secs as nat),
            span.nanos == secs * 1_000_000_000,
    {
        Duration { nanos: secs as u128 * NANOS_PER_SEC }
    }

    /// A span of whole milliseconds.
    pub open spec fn of_millis(millis: nat) -> Duration {
        Duration { nanos: (millis * 1_000_000) as u128 }
    }

    /// A span of whole milliseconds.
    pub fn from_millis(millis: u64) -> (span: Duration)
        ensures
            span == Self::of_millis(millis as nat),
            span.nanos == millis * 1_000_000,
    {
        Duration { nanos: millis as u128 * 1_000_000 }
    }

    /// The longer of two spans.
    pub open spec fn spec_max(self, other: Duration) -> Duration {
        if self.nanos >= other.nanos {
            self
        } else {
            other
        }
    }

    /// The longer of two spans.
    pub fn max(self, other: Duration) -> (span: Duration)
        ensures
            span == self.spec_max(other),
    {
        if self.nanos >= other.nanos {
            self
        } else {
            other
        }
    }
}

/// A point in time, counted from the start of the run.
#[derive(Clone, Copy, Debug, PartialEq, Eq, Structural)]
pub struct Instant {
    pub nanos: u128,
}

impl Instant {
    /// The point `span` after the start of the run.
    pub fn after(span: Duration) -> (at: Instant)
        ensures
            at.nanos == span.nanos,
    {
        Instant { nanos: span.nanos }
    }
}

/// A second is a thousand million nanoseconds, and no span of seconds is cut off.
pub proof fn seconds_are_counted_in_nanoseconds(secs: u64)
    ensures
        Duration::of_secs(secs as nat).nanos == secs * 1_000_000_000,
{
}

/// A millisecond is a million nanoseconds, and no span of milliseconds is cut off.
pub proof fn milliseconds_are_counted_in_nanoseconds(millis: u64)
    ensures
        Duration::of_millis(millis as nat).nanos == millis * 1_000_000,
{
}

/// The longer of two spans is one of them and no shorter than either.
pub proof fn the_longer_span_outlasts_both(a: Duration, b: Duration)
    ensures
        a.spec_max(b) == a || a.spec_max(b) == b,
        a.spec_max(b).nanos >= a.nanos,
        a.spec_max(b).nanos >= b.nanos,
{
}

} // verus!
