//! Absolute-deadline pacing for a publisher.
//!
//! Deadlines are computed from the start rather than from the previous send, so one late wake-up
//! does not push every later message back. A run without a rate has no deadlines at all.

use crate::bench::Rate;
use crate::clock::{Duration, Instant};
use vstd::prelude::*;

verus! {

/// When a publisher sends its messages.
#[derive(Clone, Copy, Debug, PartialEq, Eq, Structural)]
pub struct Schedule {
    pub start: Instant,
    /// The time between two messages; none for an unthrottled run.
    pub interval: Option<Duration>,
}

impl Schedule {
    /// Whether the deadline of message `index` is a point in time.
    pub open spec fn in_time(&self, index: u64) -> bool {
        self.interval matches Some(interval) ==> self.start.nanos + interval.nanos * index
            <= u128::MAX
    }

    /// When message `index` should be sent: whole intervals after the start.
    pub open spec fn spec_deadline(&self, index: u64) -> Option<Instant> {
        match self.interval {
            Some(interval) => Some(
                Instant { nanos: (self.start.nanos + interval.nanos * index) as u128 },
            ),
            None => None,
        }
    }

    /// The time between two messages at a rate; none without a rate above zero.
    pub open spec fn interval_of(per_second: Option<Rate>) -> Option<Duration> {
        match per_second {
            Some(rate) => if rate.spec_is_positive() {
                rate.period
            } else {
                None
            },
            None => None,
        }
    }

    /// `per_second` is this publisher's share of the run's offered load. No rate, or one that is
    /// zero or negative, means send as fast as the connection allows.
    pub fn new(start: Instant, per_second: Option<Rate>) -> (schedule: Schedule)
        requires
            per_second matches Some(rate) ==> rate.spec_is_positive() ==> rate.period is Some,
        ensures
            schedule.start == start,
            schedule.interval == Self::interval_of(per_second),
    {
        let interval = match per_second {
            Some(rate) => if rate.is_positive() {
                rate.period
            } else {
                None
            },
            None => None,
        };
        Schedule { start, interval }
    }

    /// Whether the deadline of message `index` is a point in time.
    pub fn reaches(&self, index: u64) -> (res: bool)
        ensures
            res == self.in_time(index),
    {
        match self.interval {
            Some(interval) => {
                assert(interval.nanos * index >= 0) by (nonlinear_arith);
                match interval.nanos.checked_mul(index as u128) {
                    Some(offset) => self.start.nanos.checked_add(offset).is_some(),
                    None => false,
                }
            },
            None => true,
        }
    }

    /// When message `index` should be sent, or `None` for an unthrottled run.
    pub fn deadline(&self, index: u64) -> (at: Option<Instant>)
        requires
            self.in_time(index),
        ensures
            at == self.spec_deadline(index),
    {
        match self.interval {
            Some(interval) => {
                assert(interval.nanos * index >= 0) by (nonlinear_arith);
                let offset: u128 = interval.nanos * index as u128;
                Some(Instant { nanos: self.start.nanos + offset })
            },
            None => None,
        }
    }
}

/// A deadline depends on the message's number alone: however late the others were, messages
/// `index` and `index + more` are due exactly `more` intervals apart, and none is due before the
/// start.
pub proof fn a_late_message_shifts_no_other(schedule: Schedule, index: u64, more: u64)
    requires
        schedule.interval is Some,
        index + more <= u64::MAX,
        schedule.in_time((index + more) as u64),
    ensures
        schedule.in_time(index),
        schedule.spec_deadline((index + more) as u64)->0.nanos == schedule.spec_deadline(
            index,
        )->0.nanos + schedule.interval->0.nanos * more,
        schedule.spec_deadline(index)->0.nanos >= schedule.start.nanos,
        schedule.spec_deadline(0) == Some(schedule.start),
{
    let interval = schedule.interval->0.nanos;
    assert(interval * (index + more) == interval * index + interval * more) by (nonlinear_arith);
    assert(interval * index >= 0) by (nonlinear_arith);
    assert(interval * more >= 0) by (nonlinear_arith);
    assert(interval * 0 == 0);
}

/// Messages are paced exactly when there is a rate above zero, and then by its period.
pub proof fn only_a_positive_rate_paces(rate: Rate)
    ensures
        Schedule::interval_of(None) is None,
        rate.bits == 0 ==> Schedule::interval_of(Some(rate)) is None,
        rate.bits >= 0x8000_0000_0000_0000 ==> Schedule::interval_of(Some(rate)) is None,
        rate.spec_is_positive() ==> Schedule::interval_of(Some(rate)) == rate.period,
{
}

/// A run without a rate has no deadlines, and one with a rate has a deadline for every message
/// unless that falls beyond the end of time.
pub proof fn deadlines_go_with_a_rate(schedule: Schedule, index: u64)
    ensures
        schedule.spec_deadline(index) is Some <==> schedule.interval is Some,
        schedule.interval is None ==> schedule.in_time(index),
        schedule.interval matches Some(interval) ==> (schedule.in_time(index) <==> schedule.start.nanos
            + interval.nanos * index < 0x1_0000_0000_0000_0000_0000_0000_0000_0000),
{
}

} // verus!
