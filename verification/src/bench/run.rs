//! The order of a benchmark run: subscribers first, then the publishers, then a drain window before
//! the subscribers stop.

use crate::bench::{Config, SUBSCRIBER_SETTLE_MILLIS};
use crate::clock::Duration;
use vstd::prelude::*;

verus! {

/// How far a run has come.
#[derive(Clone, Copy, Debug, PartialEq, Eq, Structural)]
pub enum RunPhase {
    /// Waiting until every subscriber is subscribed, or has ended.
    Subscribing,
    /// Giving the subscriptions a moment to settle.
    Settling,
    /// The publishers are running.
    Publishing,
    /// Deliveries that are still in flight may arrive.
    Draining,
    /// The subscribers have been told to stop.
    Over,
}

/// What happens to a run.
#[derive(Clone, Copy, Debug, PartialEq, Eq, Structural)]
pub enum RunEvent {
    /// The subscriber of this number is subscribed.
    Subscribed(usize),
    /// The subscriber of this number has ended.
    SubscriberEnded(usize),
    /// The pause for the subscriptions to settle has passed.
    SettleOver,
    /// The deadline passed, or the user asked to stop.
    StopRequested,
    /// Every publisher has ended.
    PublishersDone,
    /// The drain window has passed.
    DrainOver,
}

/// What to do about an event.
#[derive(Clone, Copy, Debug, PartialEq, Eq, Structural)]
pub struct RunStep {
    /// Begin a pause of this length for the subscriptions to settle.
    pub settle: Option<Duration>,
    /// Start the publishers.
    pub start_publishers: bool,
    /// Tell the publishers to stop.
    pub stop_publishers: bool,
    /// Begin a drain window of this length.
    pub drain: Option<Duration>,
    /// Tell the subscribers to stop.
    pub stop_subscribers: bool,
}

/// How many subscribers are not accounted for.
pub open spec fn missing(accounted: Seq<bool>) -> nat
    decreases accounted.len(),
{
    if accounted.len() == 0 {
        0
    } else {
        missing(accounted.drop_last()) + (if accounted.last() {
            0nat
        } else {
            1nat
        })
    }
}

/// Whether an event accounts for subscriber `k`: it is subscribed, or will never be.
pub open spec fn accounts_for(event: RunEvent, k: int) -> bool {
    match event {
        RunEvent::Subscribed(n) => n == k,
        RunEvent::SubscriberEnded(n) => n == k,
        _ => false,
    }
}

/// Whether one of the first `n` events accounts for subscriber `k`.
pub open spec fn accounted_within(events: Seq<RunEvent>, n: int, k: int) -> bool {
    exists|j: int| 0 <= j < n && accounts_for(#[trigger] events[j], k)
}

/// The pause for the subscriptions to settle.
pub open spec fn settle_pause() -> Duration {
    Duration { nanos: (SUBSCRIBER_SETTLE_MILLIS * 1_000_000) as u128 }
}

/// What a run knows of itself.
#[verifier::ext_equal]
pub struct RunView {
    pub phase: RunPhase,
    /// Which subscribers are accounted for.
    pub accounted: Seq<bool>,
}

impl RunView {
    /// The run waits for subscribers exactly as long as one is missing.
    pub open spec fn wf(self, config: &Config) -> bool {
        &&& self.accounted.len() == config.subscribers
        &&& self.phase == RunPhase::Subscribing <==> missing(self.accounted) > 0
    }

    /// A run at its start: without subscribers there is nothing to wait for.
    pub open spec fn start(config: &Config) -> RunView {
        RunView {
            phase: if config.subscribers > 0 {
                RunPhase::Subscribing
            } else {
                RunPhase::Publishing
            },
            accounted: Seq::new(config.subscribers as nat, |k: int| false),
        }
    }

    /// Which subscribers are accounted for after an event.
    pub open spec fn accounted_after(self, event: RunEvent) -> Seq<bool> {
        Seq::new(
            self.accounted.len(),
            |k: int| self.accounted[k] || accounts_for(event, k),
        )
    }

    /// The phase after an event.
    pub open spec fn phase_after(self, event: RunEvent) -> RunPhase {
        match self.phase {
            RunPhase::Subscribing => if missing(self.accounted_after(event)) == 0 {
                RunPhase::Settling
            } else {
                RunPhase::Subscribing
            },
            RunPhase::Settling => if event == RunEvent::SettleOver {
                RunPhase::Publishing
            } else {
                RunPhase::Settling
            },
            RunPhase::Publishing => if event == RunEvent::PublishersDone {
                RunPhase::Draining
            } else {
                RunPhase::Publishing
            },
            RunPhase::Draining => if event == RunEvent::DrainOver {
                RunPhase::Over
            } else {
                RunPhase::Draining
            },
            RunPhase::Over => RunPhase::Over,
        }
    }

    /// The run after an event.
    pub open spec fn after(self, event: RunEvent) -> RunView {
        RunView { phase: self.phase_after(event), accounted: self.accounted_after(event) }
    }

    /// What to do about an event: what the phase that begins with it calls for. A request to stop
    /// ends the publishers alone, whenever it comes.
    pub open spec fn step(self, config: &Config, event: RunEvent) -> RunStep {
        let begins = |phase: RunPhase| self.phase != phase && self.phase_after(event) == phase;
        RunStep {
            settle: if begins(RunPhase::Settling) {
                Some(settle_pause())
            } else {
                None
            },
            start_publishers: begins(RunPhase::Publishing),
            stop_publishers: event == RunEvent::StopRequested,
            drain: if begins(RunPhase::Draining) {
                Some(config.drain)
            } else {
                None
            },
            stop_subscribers: begins(RunPhase::Over),
        }
    }

    /// The run after the first `n` of a history of events.
    pub open spec fn after_events(config: &Config, events: Seq<RunEvent>, n: nat) -> RunView
        decreases n,
    {
        if n == 0 || n > events.len() {
            Self::start(config)
        } else {
            Self::after_events(config, events, (n - 1) as nat).after(events[n - 1])
        }
    }

    /// What event `i` of a history calls for.
    pub open spec fn step_at(config: &Config, events: Seq<RunEvent>, i: int) -> RunStep {
        Self::after_events(config, events, i as nat).step(config, events[i])
    }
}

/// What to do when a run starts.
pub open spec fn first_step(config: &Config) -> RunStep {
    RunStep {
        settle: None,
        start_publishers: config.subscribers == 0,
        stop_publishers: false,
        drain: None,
        stop_subscribers: false,
    }
}

/// A benchmark run: who is started, and who is told to stop, when.
pub struct RunState {
    phase: RunPhase,
    accounted: Vec<bool>,
    missing: usize,
}

impl View for RunState {
    type V = RunView;

    closed spec fn view(&self) -> RunView {
        RunView { phase: self.phase, accounted: self.accounted@ }
    }
}

proof fn lemma_missing_bound(accounted: Seq<bool>)
    ensures
        missing(accounted) <= accounted.len(),
        missing(accounted) == 0 <==> forall|k: int| 0 <= k < accounted.len() ==> accounted[k],
    decreases accounted.len(),
{
    if accounted.len() > 0 {
        let shorter = accounted.drop_last();
        lemma_missing_bound(shorter);
        if missing(accounted) == 0 {
            assert forall|k: int| 0 <= k < accounted.len() implies accounted[k] by {
                if k < shorter.len() {
                    assert(shorter[k]);
                }
            }
        } else if forall|k: int| 0 <= k < accounted.len() ==> accounted[k] {
            assert forall|k: int| 0 <= k < shorter.len() implies shorter[k] by {
                assert(accounted[k]);
            }
            assert(accounted[accounted.len() - 1]);
        }
    }
}

proof fn lemma_missing_marked(accounted: Seq<bool>, k: int)
    requires
        0 <= k < accounted.len(),
        !accounted[k],
    ensures
        missing(accounted.update(k, true)) == missing(accounted) - 1,
    decreases accounted.len(),
{
    let shorter = accounted.drop_last();
    let marked = accounted.update(k, true);
    if k == accounted.len() - 1 {
        assert(marked.drop_last() =~= shorter);
    } else {
        lemma_missing_marked(shorter, k);
        assert(marked.drop_last() =~= shorter.update(k, true));
    }
}

impl RunState {
    /// The subscribers that are missing are counted.
    pub closed spec fn wf(&self, config: &Config) -> bool {
        self@.wf(config) && self.missing == missing(self.accounted@)
    }

    /// A run at its start, its subscribers on their way.
    pub fn start(config: &Config) -> (res: (RunState, RunStep))
        ensures
            res.0.wf(config),
            res.0@ == RunView::start(config),
            res.1 == first_step(config),
    {
        let mut accounted: Vec<bool> = Vec::new();
        let mut k: usize = 0;
        while k < config.subscribers
            invariant
                k <= config.subscribers,
                accounted@ == Seq::new(k as nat, |i: int| false),
                missing(accounted@) == k,
            decreases config.subscribers - k,
        {
            let ghost before = accounted@;
            accounted.push(false);
            assert(accounted@.drop_last() =~= before);
            k += 1;
            assert(accounted@ =~= Seq::new(k as nat, |i: int| false));
        }
        let phase = if config.subscribers > 0 {
            RunPhase::Subscribing
        } else {
            RunPhase::Publishing
        };
        (
            RunState { phase, accounted, missing: k },
            RunStep {
                settle: None,
                start_publishers: config.subscribers == 0,
                stop_publishers: false,
                drain: None,
                stop_subscribers: false,
            },
        )
    }

    fn account_for(&mut self, k: usize)
        requires
            old(self).missing == missing(old(self).accounted@),
        ensures
            final(self).phase == old(self).phase,
            final(self).accounted@ == old(self)@.accounted_after(RunEvent::Subscribed(k)),
            final(self).accounted@ == old(self)@.accounted_after(RunEvent::SubscriberEnded(k)),
            final(self).missing == missing(final(self).accounted@),
    {
        if k < self.accounted.len() && !self.accounted[k] {
            proof {
                lemma_missing_marked(self.accounted@, k as int);
            }
            self.accounted.set(k, true);
            self.missing = self.missing - 1;
        }
        assert(self.accounted@ =~= old(self)@.accounted_after(RunEvent::Subscribed(k)));
        assert(self.accounted@ =~= old(self)@.accounted_after(RunEvent::SubscriberEnded(k)));
    }

    /// Something happened. The publishers start when every subscriber is subscribed, or has ended,
    /// and the subscriptions have settled: a message published before is delivered to nobody. The
    /// subscribers go on after the publishers until the drain window has passed: deliveries still
    /// in flight are late, not lost.
    pub fn on_event(&mut self, config: &Config, event: RunEvent) -> (step: RunStep)
        requires
            old(self).wf(config),
        ensures
            final(self).wf(config),
            final(self)@ == old(self)@.after(event),
            step == old(self)@.step(config, event),
    {
        match event {
            RunEvent::Subscribed(k) => {
                self.account_for(k);
            },
            RunEvent::SubscriberEnded(k) => {
                self.account_for(k);
            },
            _ => {
                assert(self.accounted@ =~= old(self)@.accounted_after(event));
            },
        }
        proof {
            lemma_accounting_goes_on(old(self)@, event);
        }
        let mut step = RunStep {
            settle: None,
            start_publishers: false,
            stop_publishers: matches!(event, RunEvent::StopRequested),
            drain: None,
            stop_subscribers: false,
        };
        match (self.phase, event) {
            (RunPhase::Subscribing, _) => {
                if self.missing == 0 {
                    self.phase = RunPhase::Settling;
                    step.settle = Some(Duration::from_millis(SUBSCRIBER_SETTLE_MILLIS));
                }
            },
            (RunPhase::Settling, RunEvent::SettleOver) => {
                self.phase = RunPhase::Publishing;
                step.start_publishers = true;
            },
            (RunPhase::Publishing, RunEvent::PublishersDone) => {
                self.phase = RunPhase::Draining;
                step.drain = Some(config.drain);
            },
            (RunPhase::Draining, RunEvent::DrainOver) => {
                self.phase = RunPhase::Over;
                step.stop_subscribers = true;
            },
            _ => {},
        }
        step
    }
}

proof fn lemma_accounting_goes_on(run: RunView, event: RunEvent)
    ensures
        missing(run.accounted) == 0 ==> missing(run.accounted_after(event)) == 0,
{
    lemma_missing_bound(run.accounted);
    lemma_missing_bound(run.accounted_after(event));
}

/// Whether event `j` of a history began the pause, every subscriber accounted for by then.
pub open spec fn settles_at(config: &Config, events: Seq<RunEvent>, j: int) -> bool {
    &&& RunView::step_at(config, events, j).settle == Some(settle_pause())
    &&& forall|k: int|
        0 <= k < config.subscribers ==> #[trigger] accounted_within(events, j + 1, k)
}

proof fn lemma_history(config: &Config, events: Seq<RunEvent>, n: nat)
    requires
        n <= events.len(),
    ensures
        ({
            let run = RunView::after_events(config, events, n);
            &&& run.wf(config)
            &&& forall|k: int|
                0 <= k < run.accounted.len() && #[trigger] run.accounted[k] ==> accounted_within(
                    events,
                    n as int,
                    k,
                )
            &&& run.phase == RunPhase::Settling ==> exists|j: int|
                0 <= j < n && #[trigger] settles_at(config, events, j)
            &&& run.phase == RunPhase::Draining ==> exists|j: int|
                0 <= j < n && events[j] == RunEvent::PublishersDone && (
                #[trigger] RunView::step_at(config, events, j)).drain == Some(config.drain)
        }),
    decreases n,
{
    let run = RunView::after_events(config, events, n);
    if n == 0 {
        lemma_missing_bound(run.accounted);
        if config.subscribers > 0 {
            assert(!run.accounted[0]);
        }
    } else {
        let last = n - 1;
        let before = RunView::after_events(config, events, last as nat);
        let event = events[last];
        lemma_history(config, events, last as nat);
        lemma_accounting_goes_on(before, event);
        assert forall|k: int|
            0 <= k < run.accounted.len() && #[trigger] run.accounted[k] implies accounted_within(
            events,
            n as int,
            k,
        ) by {
            if before.accounted[k] {
                assert(accounted_within(events, last, k));
            } else {
                assert(accounts_for(events[last], k));
            }
        }
        let step = RunView::step_at(config, events, last);
        if run.phase == RunPhase::Settling {
            if before.phase == RunPhase::Settling {
                let j = choose|j: int| 0 <= j < last && #[trigger] settles_at(config, events, j);
                assert(settles_at(config, events, j));
            } else {
                lemma_missing_bound(run.accounted);
                assert forall|k: int| 0 <= k < config.subscribers implies #[trigger] accounted_within(
                    events,
                    last + 1,
                    k,
                ) by {
                    assert(run.accounted[k]);
                }
                assert(settles_at(config, events, last));
            }
        }
        if run.phase == RunPhase::Draining {
            if before.phase == RunPhase::Draining {
                let j = choose|j: int|
                    0 <= j < last && events[j] == RunEvent::PublishersDone && (
                    #[trigger] RunView::step_at(config, events, j)).drain == Some(config.drain);
                assert(RunView::step_at(config, events, j).drain == Some(config.drain));
            } else {
                assert(step.drain == Some(config.drain));
            }
        }
    }
}

/// Subscribers subscribe before any publisher starts: whatever happens to a run, the publishers
/// are started only after each subscriber was subscribed or has ended, and after the pause for the
/// subscriptions to settle, which the last of them begins, has passed. Only a run without
/// subscribers starts them at once.
pub proof fn publishers_start_after_the_subscribers(
    config: &Config,
    events: Seq<RunEvent>,
    i: int,
)
    requires
        0 <= i < events.len(),
        RunView::step_at(config, events, i).start_publishers,
    ensures
        events[i] == RunEvent::SettleOver,
        forall|k: int|
            0 <= k < config.subscribers ==> #[trigger] accounted_within(events, i, k),
        exists|j: int| 0 <= j < i && #[trigger] settles_at(config, events, j),
        first_step(config).start_publishers <==> config.subscribers == 0,
{
    let run = RunView::after_events(config, events, i as nat);
    lemma_history(config, events, i as nat);
    lemma_missing_bound(run.accounted);
    assert forall|k: int| 0 <= k < config.subscribers implies #[trigger] accounted_within(
        events,
        i,
        k,
    ) by {
        assert(run.accounted[k]);
    }
}

/// Once every subscriber is accounted for and the pause has passed, the publishers do start: the
/// last subscriber begins the pause, and its end starts them.
pub proof fn the_publishers_are_started(config: &Config, run: RunView, event: RunEvent)
    requires
        run.wf(config),
        run.phase == RunPhase::Subscribing,
        forall|k: int|
            0 <= k < config.subscribers ==> #[trigger] run.accounted[k] || accounts_for(event, k),
    ensures
        run.step(config, event).settle == Some(settle_pause()),
        run.after(event).wf(config),
        run.after(event).step(config, RunEvent::SettleOver).start_publishers,
{
    lemma_missing_bound(run.accounted_after(event));
}

/// Deliveries in flight get the drain window: whatever happens to a run, the subscribers are told
/// to stop only after the publishers have ended, and a drain window of the configured length was
/// begun then and has passed. A request to stop never reaches them.
pub proof fn deliveries_get_the_drain_window(config: &Config, events: Seq<RunEvent>, i: int)
    requires
        0 <= i < events.len(),
        RunView::step_at(config, events, i).stop_subscribers,
    ensures
        events[i] == RunEvent::DrainOver,
        exists|j: int|
            0 <= j < i && events[j] == RunEvent::PublishersDone && (#[trigger] RunView::step_at(
                config,
                events,
                j,
            )).drain == Some(config.drain),
{
    lemma_history(config, events, i as nat);
}

/// A subscriber is accounted for by its own subscription or its own end, and by nothing else.
pub proof fn only_its_own_events_account_for_a_subscriber(run: RunView, event: RunEvent, k: usize)
    requires
        k < run.accounted.len(),
    ensures
        accounts_for(event, k as int) <==> event == RunEvent::Subscribed(k) || event
            == RunEvent::SubscriberEnded(k),
        run.after(event).accounted.len() == run.accounted.len(),
        run.after(event).accounted[k as int] <==> run.accounted[k as int] || accounts_for(
            event,
            k as int,
        ),
{
}

/// Whatever a run does has its own cause, and that cause is always acted on: the pause begins with
/// the last subscriber that is accounted for, the publishers start at the end of the pause, the
/// drain window, of the configured length, begins when they are done, the subscribers stop at its
/// end, and only a request to stop stops the publishers.
pub proof fn every_step_has_its_cause(config: &Config, run: RunView, event: RunEvent)
    ensures
        ({
            let step = run.step(config, event);
            &&& step.settle is Some <==> run.phase == RunPhase::Subscribing && forall|k: int|
                0 <= k < run.accounted.len() ==> #[trigger] run.accounted_after(event)[k]
            &&& step.settle matches Some(pause) ==> pause.nanos == 200_000_000
            &&& step.start_publishers <==> run.phase == RunPhase::Settling && event
                == RunEvent::SettleOver
            &&& step.drain is Some <==> run.phase == RunPhase::Publishing && event
                == RunEvent::PublishersDone
            &&& step.drain matches Some(window) ==> window == config.drain
            &&& step.stop_subscribers <==> run.phase == RunPhase::Draining && event
                == RunEvent::DrainOver
            &&& step.stop_publishers <==> event == RunEvent::StopRequested
        }),
{
    lemma_missing_bound(run.accounted_after(event));
}

/// A run begins with no subscriber accounted for. With subscribers it waits for them and does
/// nothing yet; without any it starts the publishers, and nothing else.
pub proof fn a_run_begins_with_its_subscribers(config: &Config, k: int)
    ensures
        RunView::start(config).accounted.len() == config.subscribers,
        0 <= k < config.subscribers ==> !RunView::start(config).accounted[k],
        config.subscribers > 0 ==> RunView::start(config).phase == RunPhase::Subscribing,
        config.subscribers == 0 ==> RunView::start(config).phase == RunPhase::Publishing,
        ({
            let step = first_step(config);
            &&& step.start_publishers <==> config.subscribers == 0
            &&& step.settle is None
            &&& !step.stop_publishers
            &&& step.drain is None
            &&& !step.stop_subscribers
        }),
{
}

/// Where a phase stands in the order of a run.
pub open spec fn phase_number(phase: RunPhase) -> nat {
    match phase {
        RunPhase::Subscribing => 0,
        RunPhase::Settling => 1,
        RunPhase::Publishing => 2,
        RunPhase::Draining => 3,
        RunPhase::Over => 4,
    }
}

/// A run never goes back, and no event takes it further than to the next phase.
pub proof fn a_run_goes_phase_by_phase(run: RunView, event: RunEvent)
    ensures
        phase_number(run.phase) <= phase_number(run.after(event).phase) <= phase_number(run.phase)
            + 1,
        run.phase == RunPhase::Over ==> run.after(event).phase == RunPhase::Over,
{
}

} // verus!
