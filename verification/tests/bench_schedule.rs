use wispmq_cli::bench::schedule::Schedule;
use wispmq_cli::bench::Rate;
use wispmq_cli::clock::{Duration, Instant};

fn rate(per_second: f64) -> Option<Rate> {
    Some(Rate {
        bits: per_second.to_bits(),
        period: std::time::Duration::try_from_secs_f64(1.0 / per_second)
            .ok()
            .map(|d| Duration { nanos: d.as_nanos() }),
    })
}

fn after(start: Instant, millis: u128) -> Instant {
    Instant {
        nanos: start.nanos + millis * 1_000_000,
    }
}

const START: Instant = Instant { nanos: 123_456 };

#[test]
fn unthrottled_runs_have_no_deadlines() {
    let schedule = Schedule::new(START, None);
    assert_eq!(schedule.deadline(0), None);
    assert_eq!(schedule.deadline(1_000), None);
}

#[test]
fn deadlines_are_absolute_multiples_of_the_interval() {
    // 1000 messages per second: one every millisecond.
    let schedule = Schedule::new(START, rate(1000.0));
    assert_eq!(schedule.deadline(0), Some(START));
    assert_eq!(schedule.deadline(1), Some(after(START, 1)));
    assert_eq!(schedule.deadline(500), Some(after(START, 500)));
}

#[test]
fn a_late_message_does_not_shift_the_ones_after_it() {
    let schedule = Schedule::new(START, rate(100.0));
    let tenth = schedule.deadline(10).expect("a paced run has deadlines");
    assert_eq!(tenth, after(START, 100));
    assert_eq!(schedule.deadline(10), Some(tenth));
}

#[test]
fn a_rate_of_zero_or_less_is_treated_as_unthrottled() {
    assert_eq!(Schedule::new(START, rate(0.0)).deadline(1), None);
    assert_eq!(Schedule::new(START, rate(-1.0)).deadline(1), None);
    assert_eq!(Schedule::new(START, rate(f64::NAN)).deadline(1), None);
}

#[test]
fn deadlines_stay_exact_far_into_a_run() {
    let schedule = Schedule::new(Instant::after(Duration::from_secs(1)), rate(3.0));
    assert_eq!(
        schedule.deadline(3_000_000_000),
        Some(Instant {
            nanos: 1_000_000_000 + 333_333_333 * 3_000_000_000
        })
    );
}
