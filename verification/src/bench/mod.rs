//! Broker performance testing: the resolved configuration of a run, and what becomes of its tasks.

use crate::bench::stats::{CounterTotals, Figure, Figures, Report, ReportConfig, Samples};
use crate::cli::BenchArgs;
use crate::clock::Duration;
use crate::error::{Error, ErrorView};
use crate::json;
use crate::mqtt::types::QoS;
use crate::text;
use vstd::prelude::*;

pub mod payload;
pub mod publisher;
pub mod run;
pub mod schedule;
pub mod stats;
pub mod subscriber;

verus! {

/// The largest offered rate, ten million messages per second, as an IEEE 754 binary64 pattern.
/// Above it, scheduling single messages stops being meaningful.
pub const MAX_RATE_BITS: u64 = 0x4163_12D0_0000_0000;

/// The pattern of positive infinity: the patterns from 1 up to it are the positive numbers, in
/// their order.
pub const INFINITY_BITS: u64 = 0x7FF0_0000_0000_0000;

/// Messages to send when neither a count nor a duration is given.
pub const DEFAULT_COUNT: u64 = 10_000;

/// Milliseconds to let subscribers settle before the first publish: that the broker took down the
/// last subscription does not say that it already delivers to every one of them.
pub const SUBSCRIBER_SETTLE_MILLIS: u64 = 200;

/// A rate in messages per second.
#[derive(Clone, Copy, Debug, PartialEq, Eq, Structural)]
pub struct Rate {
    /// The rate as an IEEE 754 binary64 pattern.
    pub bits: u64,
    /// The time between two messages at this rate, when a span of time can hold it.
    pub period: Option<Duration>,
}

impl Rate {
    /// Whether the rate is above zero.
    pub open spec fn spec_is_positive(self) -> bool {
        0 < self.bits <= INFINITY_BITS
    }

    /// Whether the rate is above zero.
    pub fn is_positive(self) -> (res: bool)
        ensures
            res == self.spec_is_positive(),
    {
        0 < self.bits && self.bits <= INFINITY_BITS
    }
}

/// The load a run offers.
pub struct OfferedRate {
    /// Messages per second over the whole run, as an IEEE 754 binary64 pattern.
    pub bits: u64,
    /// The number as messages and tables show it.
    pub shown: String,
    /// The number as JSON writes it.
    pub json: String,
    /// Each publisher's share.
    pub share: Rate,
}

/// What an `OfferedRate` holds.
#[verifier::ext_equal]
pub struct OfferedRateView {
    pub bits: u64,
    pub shown: Seq<char>,
    pub json: Seq<char>,
    pub share: Rate,
}

impl View for OfferedRate {
    type V = OfferedRateView;

    open spec fn view(&self) -> OfferedRateView {
        OfferedRateView {
            bits: self.bits,
            shown: self.shown@,
            json: self.json@,
            share: self.share,
        }
    }
}

/// What an optional rate holds.
pub open spec fn rate_view(rate: Option<OfferedRate>) -> Option<OfferedRateView> {
    match rate {
        Some(r) => Some(r@),
        None => None,
    }
}

impl OfferedRate {
    /// Whether the rate is a finite number above zero and at most the largest offered rate.
    pub open spec fn in_range(&self) -> bool {
        0 < self.bits <= MAX_RATE_BITS
    }

    fn duplicate(&self) -> (res: OfferedRate)
        ensures
            res@ == self@,
    {
        OfferedRate {
            bits: self.bits,
            shown: self.shown.clone(),
            json: self.json.clone(),
            share: self.share,
        }
    }
}

/// What ends the run.
#[derive(Clone, Copy, Debug, PartialEq, Eq, Structural)]
pub enum Stop {
    /// Send exactly this many messages, however long it takes.
    Count(u64),
    /// Send for this long, however many that turns out to be.
    Duration(Duration),
    /// Send this many, giving up if the duration expires first.
    CountWithin(u64, Duration),
}

/// The resolved run configuration. Every "which option wins" decision is made here, so the tasks
/// never make one again.
pub struct Config {
    pub publishers: usize,
    pub subscribers: usize,
    pub topic_prefix: String,
    pub qos: QoS,
    pub payload_size: usize,
    pub stop: Stop,
    pub rate: Option<OfferedRate>,
    pub inflight: usize,
    pub warmup: Duration,
    pub drain: Duration,
    pub json: bool,
}

/// What ends a run with these arguments.
pub open spec fn chosen_stop(count: Option<u64>, secs: Option<u64>) -> Stop {
    match (count, secs) {
        (Some(n), Some(s)) => Stop::CountWithin(n, Duration::of_secs(s as nat)),
        (Some(n), None) => Stop::Count(n),
        (None, Some(s)) => Stop::Duration(Duration::of_secs(s as nat)),
        (None, None) => Stop::Count(DEFAULT_COUNT),
    }
}

/// What is wrong with the arguments of a run, if anything: the first fault counts.
pub open spec fn args_fault(args: &BenchArgs) -> Option<ErrorView> {
    if args.publishers == 0 {
        Some(ErrorView::Usage("--publishers must be at least 1"@))
    } else if args.rate matches Some(rate) && !rate.in_range() {
        Some(
            ErrorView::Usage(
                "--rate must be a finite number greater than 0 and at most 10000000, got "@
                    + args.rate->0.shown@,
            ),
        )
    } else if args.rate matches Some(rate) && rate.share.period is None {
        Some(
            ErrorView::Usage(
                "--rate "@ + args.rate->0.shown@ + " split across "@ + text::decimal_text(
                    args.publishers as nat,
                ) + " publisher(s) is too small: the resulting period does not fit"@,
            ),
        )
    } else if QoS::of(args.qos) is None {
        Some(ErrorView::Mqtt(QoS::invalid(args.qos)))
    } else {
        None
    }
}

/// How many messages publisher `k` of `publishers` sends of a total: an even share, the remainder
/// going to the first publishers.
pub open spec fn quota(total: nat, publishers: nat, k: nat) -> nat {
    total / publishers + (if k < total % publishers {
        1nat
    } else {
        0nat
    })
}

/// What the first `k` publishers send of a total.
pub open spec fn quotas(total: nat, publishers: nat, k: nat) -> nat
    decreases k,
{
    if k == 0 {
        0
    } else {
        quotas(total, publishers, (k - 1) as nat) + quota(total, publishers, (k - 1) as nat)
    }
}

impl Config {
    /// A configuration a run can start from: at least one publisher, and a rate that can be
    /// scheduled.
    pub open spec fn wf(&self) -> bool {
        &&& self.publishers > 0
        &&& self.rate matches Some(rate) ==> rate.in_range() && rate.share.period is Some
    }

    /// Whether this is what the arguments ask for.
    pub open spec fn resolves(&self, args: &BenchArgs) -> bool {
        &&& self.publishers == args.publishers
        &&& self.subscribers == args.subscribers
        &&& self.topic_prefix@ == args.topic_prefix@
        &&& QoS::of(args.qos) == Some(self.qos)
        &&& self.payload_size == args.payload_size
        &&& self.stop == chosen_stop(args.count, args.duration)
        &&& rate_view(self.rate) == rate_view(args.rate)
        &&& self.inflight == args.inflight
        &&& self.warmup == Duration::of_secs(args.warmup as nat)
        &&& self.drain == Duration::of_secs(args.drain as nat)
        &&& self.json == args.json
    }

    /// Resolve the arguments of a run.
    pub fn from_args(args: &BenchArgs) -> (res: Result<Config, Error>)
        ensures
            match res {
                Ok(config) => args_fault(args) is None && config.resolves(args) && config.wf(),
                Err(e) => args_fault(args) == Some(e@),
            },
    {
        if args.publishers == 0 {
            return Err(Error::usage("--publishers must be at least 1"));
        }
        let mut rate: Option<OfferedRate> = None;
        if let Some(asked) = &args.rate {
            if asked.bits == 0 || asked.bits > MAX_RATE_BITS {
                let mut message = String::from_str(
                    "--rate must be a finite number greater than 0 and at most 10000000, got ",
                );
                message.append(asked.shown.as_str());
                return Err(Error::Usage(message));
            }
            if asked.share.period.is_none() {
                let mut message = String::from_str("--rate ");
                message.append(asked.shown.as_str());
                message.append(" split across ");
                message.append(text::decimal(args.publishers as u64).as_str());
                message.append(
                    " publisher(s) is too small: the resulting period does not fit",
                );
                return Err(Error::Usage(message));
            }
            rate = Some(asked.duplicate());
        }
        let stop = match (args.count, args.duration) {
            (Some(count), Some(secs)) => Stop::CountWithin(count, Duration::from_secs(secs)),
            (Some(count), None) => Stop::Count(count),
            (None, Some(secs)) => Stop::Duration(Duration::from_secs(secs)),
            (None, None) => Stop::Count(DEFAULT_COUNT),
        };
        let qos = match QoS::from_u8(args.qos) {
            Ok(qos) => qos,
            Err(e) => {
                return Err(Error::from(e));
            },
        };
        Ok(
            Config {
                publishers: args.publishers,
                subscribers: args.subscribers,
                topic_prefix: args.topic_prefix.clone(),
                qos,
                payload_size: args.payload_size,
                stop,
                rate,
                inflight: args.inflight,
                warmup: Duration::from_secs(args.warmup),
                drain: Duration::from_secs(args.drain),
                json: args.json,
            },
        )
    }

    /// Whether end-to-end latency can be measured: someone receives, and the header fits.
    pub open spec fn spec_measures_end_to_end(&self) -> bool {
        self.subscribers > 0 && self.payload_size >= payload::HEADER_LEN
    }

    /// End-to-end latency needs the measurement header to fit in the payload.
    pub fn measures_end_to_end(&self) -> (res: bool)
        ensures
            res == self.spec_measures_end_to_end(),
    {
        self.subscribers > 0 && self.payload_size >= payload::HEADER_LEN
    }

    /// Each publisher's share of the offered load, if the run has one.
    pub open spec fn spec_per_publisher_rate(&self) -> Option<Rate> {
        match self.rate {
            Some(r) => Some(r.share),
            None => None,
        }
    }

    /// The offered load is stated for the run; each publisher takes a share.
    pub fn per_publisher_rate(&self) -> (rate: Option<Rate>)
        ensures
            rate == self.spec_per_publisher_rate(),
    {
        match &self.rate {
            Some(r) => Some(r.share),
            None => None,
        }
    }

    /// The topic publisher `publisher` publishes to.
    pub open spec fn spec_topic_for(&self, publisher: u32) -> Seq<char> {
        self.topic_prefix@ + "/"@ + text::decimal_text(publisher as nat)
    }

    /// The topic publisher `publisher` publishes to.
    pub fn topic_for(&self, publisher: u32) -> (topic: String)
        ensures
            topic@ == self.spec_topic_for(publisher),
    {
        let mut topic = self.topic_prefix.clone();
        topic.append("/");
        topic.append(text::decimal(publisher as u64).as_str());
        topic
    }

    /// The filter that takes every publisher's topic.
    pub open spec fn spec_subscribe_filter(&self) -> Seq<char> {
        self.topic_prefix@ + "/#"@
    }

    /// The filter that takes every publisher's topic.
    pub fn subscribe_filter(&self) -> (filter: String)
        ensures
            filter@ == self.spec_subscribe_filter(),
    {
        let mut filter = self.topic_prefix.clone();
        filter.append("/#");
        filter
    }

    /// Messages publisher `publisher` is responsible for, when the run is count-limited.
    pub open spec fn spec_quota_for(&self, publisher: nat) -> Option<nat> {
        match self.stop {
            Stop::Count(n) => Some(quota(n as nat, self.publishers as nat, publisher)),
            Stop::CountWithin(n, _) => Some(quota(n as nat, self.publishers as nat, publisher)),
            Stop::Duration(_) => None,
        }
    }

    /// Messages this publisher is responsible for, when the run is count-limited. The remainder
    /// goes to the first publishers.
    pub fn quota_for(&self, publisher: usize) -> (res: Option<u64>)
        requires
            self.publishers > 0,
        ensures
            match res {
                Some(n) => self.spec_quota_for(publisher as nat) == Some(n as nat),
                None => self.spec_quota_for(publisher as nat) is None,
            },
    {
        let total: u64 = match self.stop {
            Stop::Count(n) => n,
            Stop::CountWithin(n, _) => n,
            Stop::Duration(_) => {
                return None;
            },
        };
        let publishers: u64 = self.publishers as u64;
        let base: u64 = total / publishers;
        let remainder: u64 = total % publishers;
        proof {
            vstd::arithmetic::div_mod::lemma_fundamental_div_mod(total as int, publishers as int);
            assert(base <= total - remainder) by (nonlinear_arith)
                requires
                    total == publishers * base + remainder,
                    publishers >= 1,
                    base >= 0,
            ;
        }
        if (publisher as u64) < remainder {
            Some(base + 1)
        } else {
            Some(base)
        }
    }

    /// The limit on the sending phase, if any.
    pub open spec fn spec_deadline(&self) -> Option<Duration> {
        match self.stop {
            Stop::Duration(d) => Some(d),
            Stop::CountWithin(_, d) => Some(d),
            Stop::Count(_) => None,
        }
    }

    /// The limit on the sending phase, if any.
    pub fn deadline(&self) -> (limit: Option<Duration>)
        ensures
            limit == self.spec_deadline(),
    {
        match self.stop {
            Stop::Duration(d) => Some(d),
            Stop::CountWithin(_, d) => Some(d),
            Stop::Count(_) => None,
        }
    }
}

proof fn lemma_quotas(total: nat, publishers: nat, k: nat)
    requires
        publishers > 0,
        k <= publishers,
    ensures
        quotas(total, publishers, k) == k * (total / publishers) + (if k < total % publishers {
            k
        } else {
            total % publishers
        }),
    decreases k,
{
    let base = total / publishers;
    if k > 0 {
        lemma_quotas(total, publishers, (k - 1) as nat);
        let before = (k - 1) as nat;
        assert(k * base == before * base + base) by (nonlinear_arith)
            requires
                k == before + 1,
        ;
    } else {
        assert(0 * base == 0);
    }
}

/// The quotas of all publishers add up to the total, and no two differ by more than one.
pub proof fn quotas_share_the_total(total: nat, publishers: nat, a: nat, b: nat)
    requires
        publishers > 0,
        a <= b < publishers,
    ensures
        quotas(total, publishers, publishers) == total,
        quota(total, publishers, b) <= quota(total, publishers, a) <= quota(total, publishers, b)
            + 1,
{
    lemma_quotas(total, publishers, publishers);
    vstd::arithmetic::div_mod::lemma_fundamental_div_mod(total as int, publishers as int);
    vstd::arithmetic::div_mod::lemma_mod_bound(total as int, publishers as int);
}

/// The window a publisher may keep in flight.
pub open spec fn window_of(requested: usize, broker_receive_maximum: Option<u16>) -> usize {
    let capped = match broker_receive_maximum {
        Some(cap) => if requested > cap {
            cap as usize
        } else {
            requested
        },
        None => requested,
    };
    if capped == 0 {
        1
    } else {
        capped
    }
}

/// The window a publisher may keep in flight: what was asked for, capped by what the broker said
/// it will accept in CONNACK, and never zero.
pub fn effective_inflight(requested: usize, broker_receive_maximum: Option<u16>) -> (window: usize)
    ensures
        window == window_of(requested, broker_receive_maximum),
{
    let mut window: usize = requested;
    if let Some(cap) = broker_receive_maximum {
        if window > cap as usize {
            window = cap as usize;
        }
    }
    if window == 0 {
        1
    } else {
        window
    }
}

/// The window is never zero, and exceeds neither what was asked for nor what the broker accepts
/// unless that is zero.
pub proof fn window_is_bounded(requested: usize, broker_receive_maximum: Option<u16>)
    ensures
        window_of(requested, broker_receive_maximum) >= 1,
        requested >= 1 ==> window_of(requested, broker_receive_maximum) <= requested,
        broker_receive_maximum matches Some(cap) ==> cap >= 1 ==> window_of(
            requested,
            broker_receive_maximum,
        ) <= cap,
{
}

/// What a task's result says: nothing on success, the error otherwise.
pub open spec fn fault_of(result: Result<(), Error>) -> Option<ErrorView> {
    match result {
        Ok(_) => None,
        Err(e) => Some(e@),
    }
}

/// How the report names the failure of task `index`.
pub open spec fn failure_text(role: Seq<char>, index: nat, fault: ErrorView) -> Seq<char> {
    role + " "@ + text::decimal_text(index) + ": "@ + fault.text()
}

/// The failures among the first `n` results, in order, each labelled with its task.
pub open spec fn failures(results: Seq<Result<(), Error>>, role: Seq<char>, n: nat) -> Seq<
    Seq<char>,
>
    decreases n,
{
    if n == 0 || n > results.len() {
        Seq::empty()
    } else {
        let before = failures(results, role, (n - 1) as nat);
        match fault_of(results[n - 1]) {
            Some(fault) => before.push(failure_text(role, (n - 1) as nat, fault)),
            None => before,
        }
    }
}

/// Turn per-task results into the report's failure list, labelled so a reader knows which
/// connection died.
pub fn collect_failures(results: Vec<Result<(), Error>>, role: &str) -> (res: Vec<String>)
    ensures
        text::list_view(res@) == failures(results@, role@, results@.len()),
{
    let mut res: Vec<String> = Vec::new();
    let mut i: usize = 0;
    assert(text::list_view(res@) =~= failures(results@, role@, 0));
    while i < results.len()
        invariant
            i <= results.len(),
            text::list_view(res@) == failures(results@, role@, i as nat),
        decreases results.len() - i,
    {
        let ghost before = res@;
        if let Err(e) = &results[i] {
            let mut failure = String::from_str(role);
            failure.append(" ");
            failure.append(text::decimal(i as u64).as_str());
            failure.append(": ");
            failure.append(e.message().as_str());
            assert(failure@ =~= failure_text(role@, i as nat, e@));
            res.push(failure);
            assert(text::list_view(res@) =~= text::list_view(before).push(failure@));
        }
        i += 1;
    }
    res
}

/// The failure list is empty exactly when every task succeeded.
pub proof fn failures_name_every_failed_task(
    results: Seq<Result<(), Error>>,
    role: Seq<char>,
    n: nat,
)
    requires
        n <= results.len(),
    ensures
        failures(results, role, n).len() == 0 <==> (forall|i: int|
            0 <= i < n ==> #[trigger] results[i] is Ok),
        failures(results, role, n).len() <= n,
    decreases n,
{
    if n > 0 {
        failures_name_every_failed_task(results, role, (n - 1) as nat);
        let last = results[n - 1];
        if fault_of(last) is Some {
            assert(last is Err);
        }
        if forall|i: int| 0 <= i < n - 1 ==> #[trigger] results[i] is Ok {
            if last is Ok {
                assert forall|i: int| 0 <= i < n implies #[trigger] results[i] is Ok by {
                    if i < n - 1 {
                        assert(results[i] is Ok);
                    }
                }
            }
        }
    }
}

/// How a task ended.
pub enum TaskOutcome {
    /// It finished with these samples.
    Finished(Samples),
    Failed(Error),
    /// It panicked; holds what the runtime says of it.
    Panicked(String),
}

/// What a task's end says: nothing when it finished, the error otherwise.
pub open spec fn outcome_fault(outcome: TaskOutcome) -> Option<ErrorView> {
    match outcome {
        TaskOutcome::Finished(_) => None,
        TaskOutcome::Failed(e) => Some(e@),
        TaskOutcome::Panicked(m) => Some(ErrorView::Usage("task panicked: "@ + m@)),
    }
}

/// The samples of the first `n` tasks, those that finished, in order.
pub open spec fn merged_samples(outcomes: Seq<TaskOutcome>, n: nat) -> Seq<u64>
    decreases n,
{
    if n == 0 || n > outcomes.len() {
        Seq::empty()
    } else {
        let before = merged_samples(outcomes, (n - 1) as nat);
        match outcomes[n - 1] {
            TaskOutcome::Finished(samples) => before + samples@,
            _ => before,
        }
    }
}

/// Merge the samples of the tasks that finished and record a result per task so the report can
/// name what failed.
///
/// A panicking task is a failure of that connection, not of the run: the others still count.
pub fn join_tasks(outcomes: Vec<TaskOutcome>) -> (res: (Samples, Vec<Result<(), Error>>))
    ensures
        res.0.wf(),
        res.0@ == merged_samples(outcomes@, outcomes@.len()),
        res.1@.len() == outcomes@.len(),
        forall|i: int|
            0 <= i < outcomes@.len() ==> fault_of(#[trigger] res.1@[i]) == outcome_fault(
                outcomes@[i],
            ),
{
    let ghost all = outcomes@;
    let mut merged = Samples::new();
    let mut results: Vec<Result<(), Error>> = Vec::new();
    for outcome in it: outcomes
        invariant
            it.seq() == all,
            merged.wf(),
            merged@ == merged_samples(all, it.index() as nat),
            results@.len() == it.index(),
            forall|i: int|
                0 <= i < it.index() ==> fault_of(#[trigger] results@[i]) == outcome_fault(all[i]),
    {
        match outcome {
            TaskOutcome::Finished(samples) => {
                merged.merge(samples);
                results.push(Ok(()));
            },
            TaskOutcome::Failed(e) => {
                results.push(Err(e));
            },
            TaskOutcome::Panicked(m) => {
                let mut message = String::from_str("task panicked: ");
                message.append(m.as_str());
                results.push(Err(Error::Usage(message)));
            },
        }
    }
    (merged, results)
}

/// The table figure for an offered rate.
fn rate_figure(rate: &Option<OfferedRate>) -> (res: Option<Figure>)
    ensures
        match (res, *rate) {
            (Some(f), Some(r)) => f.shown@ == r.shown@ && f.json@ == r.json@,
            (None, None) => true,
            _ => false,
        },
{
    match rate {
        Some(r) => Some(Figure { shown: r.shown.clone(), json: r.json.clone() }),
        None => None,
    }
}

/// Whether a report is about a run of this configuration.
pub open spec fn reports_on(report: ReportConfig, config: &Config) -> bool {
    &&& report.publishers == config.publishers
    &&& report.subscribers == config.subscribers
    &&& QoS::of(report.qos) == Some(config.qos)
    &&& report.payload_size == config.payload_size
    &&& report.inflight == config.inflight
    &&& match (report.rate, config.rate) {
        (Some(f), Some(r)) => f.shown@ == r.shown@ && f.json@ == r.json@,
        (None, None) => true,
        _ => false,
    }
    &&& report.topic_prefix@ == config.topic_prefix@
}

/// The failures of a run, those of its publishers first.
pub open spec fn run_failures(
    publishers: Seq<Result<(), Error>>,
    subscribers: Seq<Result<(), Error>>,
) -> Seq<Seq<char>> {
    failures(publishers, "publisher"@, publishers.len()) + failures(
        subscribers,
        "subscriber"@,
        subscribers.len(),
    )
}

/// Whether a run was to time its deliveries but its payloads are too small for it.
pub open spec fn cannot_time(config: &Config) -> bool {
    config.subscribers > 0 && !config.spec_measures_end_to_end()
}

/// Whether a report is put together from what a run left behind: its measured time, its counters,
/// its failures, and the samples of its acknowledgements and of its deliveries.
pub open spec fn is_report_of(
    report: Report,
    config: &Config,
    elapsed: Duration,
    totals: CounterTotals,
    failed: Seq<Seq<char>>,
    ack: Seq<u64>,
    end_to_end: Seq<u64>,
) -> bool {
    &&& reports_on(report.config, config)
    &&& report.elapsed == elapsed
    &&& report.totals == totals
    &&& text::list_view(report.task_failures@) == failed
    &&& report.ack == stats::summary_of(ack)
    &&& report.end_to_end == stats::summary_of(end_to_end)
    &&& report.end_to_end_disabled == cannot_time(config)
}

/// Put a report together from what the run left behind.
pub fn report(
    config: &Config,
    elapsed: Duration,
    totals: CounterTotals,
    publishers: Vec<Result<(), Error>>,
    subscribers: Vec<Result<(), Error>>,
    ack: &mut Samples,
    end_to_end: &mut Samples,
) -> (res: Report)
    requires
        old(ack).wf(),
        old(end_to_end).wf(),
    ensures
        is_report_of(
            res,
            config,
            elapsed,
            totals,
            run_failures(publishers@, subscribers@),
            old(ack)@,
            old(end_to_end)@,
        ),
        final(ack).wf(),
        final(end_to_end).wf(),
        final(ack)@.to_multiset() == old(ack)@.to_multiset(),
        final(end_to_end)@.to_multiset() == old(end_to_end)@.to_multiset(),
{
    let mut task_failures = collect_failures(publishers, "publisher");
    let mut more = collect_failures(subscribers, "subscriber");
    let ghost first = task_failures@;
    let ghost second = more@;
    task_failures.append(&mut more);
    assert(text::list_view(task_failures@) =~= text::list_view(first) + text::list_view(second));
    Report {
        config: ReportConfig {
            publishers: config.publishers,
            subscribers: config.subscribers,
            qos: config.qos.as_u8(),
            payload_size: config.payload_size,
            inflight: config.inflight,
            rate: rate_figure(&config.rate),
            topic_prefix: config.topic_prefix.clone(),
        },
        elapsed,
        totals,
        task_failures,
        ack: ack.summary(),
        end_to_end: end_to_end.summary(),
        end_to_end_disabled: config.subscribers > 0 && !config.measures_end_to_end(),
    }
}

/// What the run prints: the report as JSON or as a table.
pub open spec fn output_text(json: bool, report: &Report, figures: Figures) -> Seq<char> {
    if json {
        json::pretty_text(crate::json::JsonView::Object(report.document_members(figures)))
            + "\n"@
    } else {
        report.table(figures)
    }
}

/// What the run prints: the report as JSON or as a table.
pub fn output(json: bool, report: &Report, figures: &Figures) -> (res: String)
    ensures
        res@ == output_text(json, report, *figures),
{
    if json {
        let mut res = report.to_json(figures);
        res.append("\n");
        res
    } else {
        report.to_table(figures)
    }
}

/// What the command reports after printing, if the run was no success.
pub open spec fn verdict_fault(report: &Report) -> Option<ErrorView> {
    if report.spec_success() {
        None
    } else {
        Some(
            ErrorView::Usage(
                "the run completed with failures or refused messages; see the report above"@,
            ),
        )
    }
}

/// What the command reports after printing: an error unless the run was a success.
pub fn verdict(report: &Report) -> (res: Result<(), Error>)
    ensures
        fault_of(res) == verdict_fault(report),
{
    if report.success() {
        Ok(())
    } else {
        Err(
            Error::usage(
                "the run completed with failures or refused messages; see the report above",
            ),
        )
    }
}

/// A run succeeds exactly when every task succeeded, every message could be written and the broker
/// refused none.
pub proof fn success_means_nothing_failed(
    report: Report,
    publishers: Seq<Result<(), Error>>,
    subscribers: Seq<Result<(), Error>>,
)
    requires
        text::list_view(report.task_failures@) == run_failures(publishers, subscribers),
    ensures
        report.spec_success() <==> {
            &&& forall|i: int| 0 <= i < publishers.len() ==> #[trigger] publishers[i] is Ok
            &&& forall|i: int| 0 <= i < subscribers.len() ==> #[trigger] subscribers[i] is Ok
            &&& report.totals@.publish_errors == 0
            &&& report.totals@.refused == Map::<u8, u64>::empty()
        },
{
    failures_name_every_failed_task(publishers, "publisher"@, publishers.len());
    failures_name_every_failed_task(subscribers, "subscriber"@, subscribers.len());
    assert(text::list_view(report.task_failures@).len() == report.task_failures@.len());
}

/// What the first `k` publishers of a run are responsible for together.
pub open spec fn responsible(config: &Config, k: nat) -> nat
    decreases k,
{
    if k == 0 {
        0
    } else {
        responsible(config, (k - 1) as nat) + (match config.spec_quota_for((k - 1) as nat) {
            Some(n) => n,
            None => 0,
        })
    }
}

proof fn lemma_responsible(config: &Config, total: nat, k: nat)
    requires
        config.publishers > 0,
        forall|i: nat| #[trigger] config.spec_quota_for(i) == Some(
            quota(total, config.publishers as nat, i),
        ),
    ensures
        responsible(config, k) == quotas(total, config.publishers as nat, k),
    decreases k,
{
    if k > 0 {
        lemma_responsible(config, total, (k - 1) as nat);
    }
}

/// A count that was asked for is sent, no more and no less: with a time limit or without one, every
/// publisher has a quota, no two of them differ by more than one, and all of them together come to
/// the count, which is ten thousand when nothing was asked for. Only a run that was given a time
/// alone has no quotas.
pub proof fn the_count_is_shared_out(config: &Config, args: &BenchArgs, a: nat, b: nat)
    requires
        config.resolves(args),
        config.wf(),
        a <= b < config.publishers,
    ensures
        args.count matches Some(n) ==> responsible(config, config.publishers as nat) == n,
        args.count is None && args.duration is None ==> responsible(
            config,
            config.publishers as nat,
        ) == 10_000,
        config.spec_quota_for(a) is None <==> args.count is None && args.duration is Some,
        config.spec_quota_for(a) matches Some(first) ==> (config.spec_quota_for(b) matches Some(
            second,
        ) && second <= first <= second + 1),
{
    let publishers = config.publishers as nat;
    let total = match args.count {
        Some(n) => n as nat,
        None => 10_000,
    };
    if args.count is Some || args.duration is None {
        lemma_responsible(config, total, publishers);
        quotas_share_the_total(total, publishers, a, b);
    }
}

/// A time that was asked for limits the sending, with a count or without one, and without it
/// nothing does.
pub proof fn the_time_limits_the_sending(config: &Config, args: &BenchArgs)
    requires
        config.resolves(args),
    ensures
        config.spec_deadline() is Some <==> args.duration is Some,
        args.duration matches Some(secs) ==> config.spec_deadline() == Some(
            Duration { nanos: (secs * 1_000_000_000) as u128 },
        ),
        config.spec_deadline() matches Some(limit) ==> limit.nanos == args.duration->0
            * 1_000_000_000,
{
}

/// A run does what its arguments ask for: each number is taken as it was given, and the seconds of
/// the warm-up and of the drain window are counted out.
pub proof fn a_run_does_what_was_asked(config: &Config, args: &BenchArgs)
    requires
        config.resolves(args),
    ensures
        config.publishers == args.publishers,
        config.subscribers == args.subscribers,
        config.topic_prefix@ == args.topic_prefix@,
        args.qos == 0 <==> config.qos == QoS::AtMostOnce,
        args.qos == 1 <==> config.qos == QoS::AtLeastOnce,
        args.qos == 2 <==> config.qos == QoS::ExactlyOnce,
        config.payload_size == args.payload_size,
        config.inflight == args.inflight,
        config.warmup.nanos == args.warmup * 1_000_000_000,
        config.drain.nanos == args.drain * 1_000_000_000,
        config.json == args.json,
        config.rate is Some <==> args.rate is Some,
        args.rate matches Some(asked) ==> {
            &&& config.rate->0.bits == asked.bits
            &&& config.rate->0.shown@ == asked.shown@
            &&& config.rate->0.json@ == asked.json@
            &&& config.spec_per_publisher_rate() == Some(asked.share)
        },
        args.rate is None ==> config.spec_per_publisher_rate() is None,
{
    if let Some(asked) = args.rate {
        assert(config.rate->0@ == asked@);
    }
}

/// A rate is accepted exactly when it is a number above zero and at most ten million: its sign is
/// plus, it is not zero, and it is below 2^23 or, scaled by 2^29 as a whole number, no more than
/// ten million times that. The exponent field of the numbers from 2^23 up to 2^24 is 1046.
pub proof fn an_accepted_rate_is_at_most_ten_million(rate: &OfferedRate)
    ensures
        ({
            let negative = rate.bits / 0x8000_0000_0000_0000 == 1;
            let exponent = rate.bits / 0x10_0000_0000_0000 % 2048;
            let fraction = rate.bits % 0x10_0000_0000_0000;
            rate.in_range() <==> {
                &&& !negative
                &&& exponent > 0 || fraction > 0
                &&& exponent < 1046 || (exponent == 1046 && fraction + 0x10_0000_0000_0000
                    <= 10_000_000 * 0x2000_0000)
            }
        }),
{
}

/// A rate is positive exactly when its sign is plus, it is not zero, and it is a number: infinity is
/// one here, what is no number is not.
pub proof fn a_positive_rate_is_above_zero(rate: Rate)
    ensures
        ({
            let negative = rate.bits / 0x8000_0000_0000_0000 == 1;
            let exponent = rate.bits / 0x10_0000_0000_0000 % 2048;
            let fraction = rate.bits % 0x10_0000_0000_0000;
            rate.spec_is_positive() <==> {
                &&& !negative
                &&& exponent > 0 || fraction > 0
                &&& exponent < 2047 || fraction == 0
            }
        }),
{
}

/// The arguments of a run are refused exactly when there is no publisher, the rate is out of range
/// or cannot be scheduled, or there is no such quality of service, and for the first of these.
pub proof fn a_benchmark_is_refused_for_its_first_fault(args: &BenchArgs)
    ensures
        args_fault(args) is None <==> {
            &&& args.publishers >= 1
            &&& args.rate matches Some(rate) ==> rate.in_range() && rate.share.period is Some
            &&& args.qos <= 2
        },
        args.publishers == 0 ==> args_fault(args) == Some(
            ErrorView::Usage("--publishers must be at least 1"@),
        ),
        args.publishers > 0 ==> (args.rate matches Some(rate) ==> {
            &&& !rate.in_range() ==> (args_fault(args) matches Some(ErrorView::Usage(m))
                && text::holds(m, rate.shown@))
            &&& rate.in_range() && rate.share.period is None ==> (args_fault(args) matches Some(
                ErrorView::Usage(m),
            ) && text::holds(m, rate.shown@) && text::holds(
                m,
                text::decimal_text(args.publishers as nat),
            ))
        }),
        args_fault(args) matches Some(ErrorView::Mqtt(e)) ==> args.qos > 2 && e == QoS::invalid(
            args.qos,
        ),
{
    if let Some(rate) = args.rate {
        let shown = rate.shown@;
        let number = text::decimal_text(args.publishers as nat);
        text::lemma_holds_appended(
            "--rate must be a finite number greater than 0 and at most 10000000, got "@,
            shown,
            shown,
        );
        let named = "--rate "@ + shown + " split across "@ + number;
        text::lemma_four_held("--rate "@, shown, " split across "@, number);
        let tail = " publisher(s) is too small: the resulting period does not fit"@;
        text::lemma_holds_appended(named, shown, tail);
        text::lemma_holds_appended(named, number, tail);
    }
}

/// Every publisher has a topic of its own under the run's prefix, named by its number, and the one
/// filter of the subscribers is that prefix with a wildcard for everything below it.
pub proof fn every_topic_falls_under_the_filter(config: &Config, a: u32, b: u32)
    ensures
        config.spec_topic_for(a) == config.spec_topic_for(b) ==> a == b,
        ({
            let topic = config.spec_topic_for(a);
            let filter = config.spec_subscribe_filter();
            let prefix = config.topic_prefix@;
            &&& filter.len() == prefix.len() + 2
            &&& filter.last() == '#'
            &&& filter.drop_last() == prefix.push('/')
            &&& filter.drop_last().is_prefix_of(topic)
            &&& topic.skip(prefix.len() as int + 1) == text::decimal_text(a as nat)
        }),
{
    reveal_strlit("/");
    reveal_strlit("/#");
    let prefix = config.topic_prefix@;
    let first = config.spec_topic_for(a);
    let second = config.spec_topic_for(b);
    let at = prefix.len() as int + 1;
    assert(first.skip(at) =~= text::decimal_text(a as nat));
    assert(second.skip(at) =~= text::decimal_text(b as nat));
    if first == second {
        text::decimal_texts_are_told_apart(a as nat, b as nat);
    }
    let filter = config.spec_subscribe_filter();
    assert(filter.drop_last() =~= prefix.push('/'));
    assert(filter.drop_last() =~= first.take(at));
}

/// Deliveries can be timed exactly when someone receives them and a payload of the size asked for
/// has room for the measurement header: when what is built is as large as was asked for.
pub proof fn timing_needs_room_for_the_header(config: &Config, header: payload::Header)
    ensures
        config.spec_measures_end_to_end() <==> config.subscribers > 0 && payload::payload_bytes(
            config.payload_size as nat,
            header,
        ).len() == config.payload_size,
        cannot_time(config) <==> config.subscribers > 0 && payload::payload_bytes(
            config.payload_size as nat,
            header,
        ).len() > config.payload_size,
{
    payload::a_payload_is_filled_up_with_zeros(config.payload_size as nat, header, 0);
}

/// The window is what was asked for where the broker accepts as much, else what it accepts; asking
/// for none, or a broker that says none, still leaves room for one.
pub proof fn the_window_is_the_smaller_of_two(requested: usize, accepted: Option<u16>)
    ensures
        requested >= 1 && accepted is None ==> window_of(requested, accepted) == requested,
        requested >= 1 ==> (accepted matches Some(cap) ==> {
            &&& 1 <= requested <= cap ==> window_of(requested, accepted) == requested
            &&& 1 <= cap <= requested ==> window_of(requested, accepted) == cap
        }),
        requested == 0 ==> window_of(requested, accepted) == 1,
        accepted == Some(0u16) ==> window_of(requested, accepted) == 1,
{
}

/// Whether entry `i` of the results is a failure that this text names.
pub open spec fn names_failure(
    results: Seq<Result<(), Error>>,
    role: Seq<char>,
    i: int,
    named: Seq<char>,
) -> bool {
    results[i] matches Err(e) && named == failure_text(role, i as nat, e@)
}

/// Every failed task is in the failure list, named by its role and number, and nothing else is.
pub proof fn the_failure_list_is_the_failed_tasks(
    results: Seq<Result<(), Error>>,
    role: Seq<char>,
    n: nat,
    named: Seq<char>,
)
    requires
        n <= results.len(),
    ensures
        failures(results, role, n).contains(named) <==> exists|i: int|
            0 <= i < n && #[trigger] names_failure(results, role, i, named),
    decreases n,
{
    let all = failures(results, role, n);
    if n > 0 {
        let before = failures(results, role, (n - 1) as nat);
        the_failure_list_is_the_failed_tasks(results, role, (n - 1) as nat, named);
        if before.contains(named) {
            let i = choose|i: int| 0 <= i < before.len() && before[i] == named;
            assert(all[i] == named);
            let j = choose|j: int|
                0 <= j < n - 1 && #[trigger] names_failure(results, role, j, named);
            assert(0 <= j < n && names_failure(results, role, j, named));
        }
        if names_failure(results, role, n - 1, named) {
            assert(all[all.len() - 1] == named);
        }
        if all.contains(named) && !before.contains(named) {
            let i = choose|i: int| 0 <= i < all.len() && all[i] == named;
            if i < before.len() {
                assert(before[i] == named);
            }
            assert(names_failure(results, role, n - 1, named));
        }
        if exists|i: int| 0 <= i < n && #[trigger] names_failure(results, role, i, named) {
            let i = choose|i: int| 0 <= i < n && #[trigger] names_failure(results, role, i, named);
            if i < n - 1 {
                assert(0 <= i < n - 1 && names_failure(results, role, i, named));
            }
        }
    }
}

/// A failure is named by the role and the number of its task, and ends with what went wrong.
pub proof fn a_failure_names_its_task(role: Seq<char>, index: nat, fault: ErrorView)
    ensures
        role.is_prefix_of(failure_text(role, index, fault)),
        text::holds(failure_text(role, index, fault), text::decimal_text(index)),
        failure_text(role, index, fault).skip(
            failure_text(role, index, fault).len() - fault.text().len(),
        ) == fault.text(),
{
    let number = text::decimal_text(index);
    let named = failure_text(role, index, fault);
    let head = role + " "@ + number + ": "@;
    text::lemma_four_held(role, " "@, number, ": "@);
    text::lemma_holds_appended(head, number, fault.text());
    assert(role =~= named.take(role.len() as int));
    assert(named.skip(named.len() - fault.text().len()) =~= fault.text());
}

/// The failures of a run are those of its publishers, each named a publisher, and after them those
/// of its subscribers, each named a subscriber.
pub proof fn both_roles_report_their_failures(
    publishers: Seq<Result<(), Error>>,
    subscribers: Seq<Result<(), Error>>,
)
    ensures
        ({
            let first = failures(publishers, "publisher"@, publishers.len());
            let second = failures(subscribers, "subscriber"@, subscribers.len());
            let all = run_failures(publishers, subscribers);
            &&& all.len() == first.len() + second.len()
            &&& all.take(first.len() as int) == first
            &&& all.skip(first.len() as int) == second
        }),
{
    let first = failures(publishers, "publisher"@, publishers.len());
    let second = failures(subscribers, "subscriber"@, subscribers.len());
    let all = run_failures(publishers, subscribers);
    assert(all.take(first.len() as int) =~= first);
    assert(all.skip(first.len() as int) =~= second);
}

proof fn lemma_merged_prefix(outcomes: Seq<TaskOutcome>, more: TaskOutcome, n: nat)
    requires
        n <= outcomes.len(),
    ensures
        merged_samples(outcomes.push(more), n) == merged_samples(outcomes, n),
    decreases n,
{
    if n > 0 {
        lemma_merged_prefix(outcomes, more, (n - 1) as nat);
    }
}

/// Each task that finished adds its samples to the run's, behind those of the tasks before it; one
/// that failed adds none and takes none away.
pub proof fn every_finished_task_adds_its_samples(
    outcomes: Seq<TaskOutcome>,
    samples: Samples,
    error: Error,
    panic: String,
)
    ensures
        merged_samples(Seq::empty(), 0) == Seq::<u64>::empty(),
        ({
            let n = outcomes.len();
            let before = merged_samples(outcomes, n);
            &&& merged_samples(outcomes.push(TaskOutcome::Finished(samples)), n + 1) == before
                + samples@
            &&& merged_samples(outcomes.push(TaskOutcome::Failed(error)), n + 1) == before
            &&& merged_samples(outcomes.push(TaskOutcome::Panicked(panic)), n + 1) == before
        }),
{
    let n = outcomes.len();
    lemma_merged_prefix(outcomes, TaskOutcome::Finished(samples), n);
    lemma_merged_prefix(outcomes, TaskOutcome::Failed(error), n);
    lemma_merged_prefix(outcomes, TaskOutcome::Panicked(panic), n);
}

/// A task that finished did not fail; one that failed reports its own error, and one that panicked
/// what the runtime says of it.
pub proof fn only_an_unfinished_task_fails(outcome: TaskOutcome)
    ensures
        outcome_fault(outcome) is None <==> outcome is Finished,
        outcome matches TaskOutcome::Failed(e) ==> outcome_fault(outcome) == Some(e@),
        outcome matches TaskOutcome::Panicked(said) ==> (outcome_fault(outcome) matches Some(
            ErrorView::Usage(m),
        ) && m.len() >= said@.len() && m.skip(m.len() - said@.len()) == said@),
{
    if let TaskOutcome::Panicked(said) = outcome {
        let m = "task panicked: "@ + said@;
        assert(m.skip(m.len() - said@.len()) =~= said@);
    }
}

/// A report repeats the configuration of its run, number by number.
pub proof fn a_report_repeats_the_configuration(report: ReportConfig, config: &Config)
    requires
        reports_on(report, config),
    ensures
        report.publishers == config.publishers,
        report.subscribers == config.subscribers,
        report.payload_size == config.payload_size,
        report.inflight == config.inflight,
        report.topic_prefix@ == config.topic_prefix@,
        config.qos == QoS::AtMostOnce ==> report.qos == 0,
        config.qos == QoS::AtLeastOnce ==> report.qos == 1,
        config.qos == QoS::ExactlyOnce ==> report.qos == 2,
        report.rate is Some <==> config.rate is Some,
        config.rate matches Some(rate) ==> {
            &&& report.rate->0.shown@ == rate.shown@
            &&& report.rate->0.json@ == rate.json@
        },
{
}

/// The report is printed as JSON, with a line end behind it, when that was asked for, and as a table
/// otherwise.
pub proof fn the_report_is_printed_as_asked(report: &Report, figures: Figures)
    ensures
        output_text(false, report, figures) == report.table(figures),
        output_text(true, report, figures).last() == '\n',
        output_text(true, report, figures).drop_last() == json::pretty_text(
            crate::json::JsonView::Object(report.document_members(figures)),
        ),
{
    reveal_strlit("\n");
    assert(output_text(true, report, figures).drop_last() =~= json::pretty_text(
        crate::json::JsonView::Object(report.document_members(figures)),
    ));
}

/// The command fails exactly when a task failed, a message was not written or one was refused.
pub proof fn the_command_fails_with_the_run(report: &Report)
    ensures
        verdict_fault(report) is Some <==> {
            ||| report.task_failures@.len() > 0
            ||| report.totals.publish_errors > 0
            ||| exists|byte: u8| #[trigger] report.totals.refused@.contains_key(byte)
        },
        verdict_fault(report) matches Some(fault) ==> fault is Usage,
{
    stats::success_goes_by_what_went_wrong(report);
}

/// A report holds the time that was measured, the counters as they stood and the failures, and its
/// two latency distributions are each made of their own samples: there is one exactly when there
/// were samples, and it counts them all.
pub proof fn a_report_is_made_of_its_own_run(
    report: Report,
    config: &Config,
    elapsed: Duration,
    totals: CounterTotals,
    failed: Seq<Seq<char>>,
    ack: Seq<u64>,
    end_to_end: Seq<u64>,
)
    requires
        is_report_of(report, config, elapsed, totals, failed, ack, end_to_end),
        ack.len() <= usize::MAX,
        end_to_end.len() <= usize::MAX,
    ensures
        reports_on(report.config, config),
        report.elapsed == elapsed,
        report.totals@ == totals@,
        report.task_failures@.len() == failed.len(),
        report.ack is Some <==> ack.len() > 0,
        report.ack matches Some(s) ==> s.count == ack.len() && ack.contains(s.min_ns)
            && ack.contains(s.max_ns),
        report.end_to_end is Some <==> end_to_end.len() > 0,
        report.end_to_end matches Some(s) ==> s.count == end_to_end.len() && end_to_end.contains(
            s.min_ns,
        ) && end_to_end.contains(s.max_ns),
        report.end_to_end_disabled <==> config.subscribers > 0 && config.payload_size < 16,
{
    if ack.len() > 0 {
        stats::summary_is_ordered(ack);
    }
    if end_to_end.len() > 0 {
        stats::summary_is_ordered(end_to_end);
    }
    assert(text::list_view(report.task_failures@).len() == report.task_failures@.len());
}

} // verus!
