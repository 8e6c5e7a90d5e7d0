//! Counters, latency samples and the summary of a run.

use crate::clock::Duration;
use crate::json;
use crate::json::{Json, JsonView, Members};
use crate::mqtt::types::ReasonCode;
use crate::text;
use std::collections::BTreeMap;
use vstd::prelude::*;

verus! {

broadcast use {vstd::std_specs::btree::group_btree_axioms, vstd::laws_cmp::group_laws_cmp};

/// Latency samples in nanoseconds, collected by one task.
pub struct Samples {
    values: Vec<u64>,
    sorted: bool,
}

/// The statistics of a set of samples.
#[derive(Clone, Copy, Debug, PartialEq, Eq, Structural)]
pub struct Summary {
    pub count: usize,
    pub min_ns: u64,
    pub p50_ns: u64,
    pub p95_ns: u64,
    pub p99_ns: u64,
    pub max_ns: u64,
    pub mean_ns: u64,
}

/// Whether samples stand in ascending order.
pub open spec fn ascending(values: Seq<u64>) -> bool {
    forall|i: int, j: int| 0 <= i <= j < values.len() ==> values[i] <= values[j]
}

/// The samples in ascending order.
pub open spec fn sorted_samples(values: Seq<u64>) -> Seq<u64> {
    values.sort_by(|a: u64, b: u64| a <= b)
}

/// The sum of the samples.
pub open spec fn total(values: Seq<u64>) -> nat
    decreases values.len(),
{
    if values.len() == 0 {
        0
    } else {
        total(values.drop_last()) + values.last() as nat
    }
}

/// How many samples are at or below `bound`.
pub open spec fn at_or_below(values: Seq<u64>, bound: u64) -> nat
    decreases values.len(),
{
    if values.len() == 0 {
        0
    } else {
        at_or_below(values.drop_last(), bound) + (if values.last() <= bound {
            1nat
        } else {
            0nat
        })
    }
}

/// Where the nearest-rank percentile stands among `len` ascending samples: the rank is
/// `percent * len / 100` rounded up, kept between the first sample and the last.
pub open spec fn nearest_rank_index(len: nat, percent: nat) -> int {
    let rank = (percent * len + 99) / 100;
    if rank == 0 {
        0
    } else if rank > len {
        len - 1
    } else {
        rank - 1
    }
}

/// The statistics of a set of samples; there are none of an empty set.
pub open spec fn summary_of(values: Seq<u64>) -> Option<Summary> {
    let sorted = sorted_samples(values);
    if values.len() == 0 {
        None
    } else {
        Some(
            Summary {
                count: values.len() as usize,
                min_ns: sorted.first(),
                p50_ns: sorted[nearest_rank_index(values.len(), 50)],
                p95_ns: sorted[nearest_rank_index(values.len(), 95)],
                p99_ns: sorted[nearest_rank_index(values.len(), 99)],
                max_ns: sorted.last(),
                mean_ns: (total(values) / values.len()) as u64,
            },
        )
    }
}

proof fn lemma_u64_order()
    ensures
        vstd::relations::total_ordering(|a: u64, b: u64| a <= b),
{
}

proof fn lemma_sorting_keeps_the_samples(values: Seq<u64>)
    ensures
        sorted_samples(values).to_multiset() == values.to_multiset(),
        sorted_samples(values).len() == values.len(),
        ascending(sorted_samples(values)),
{
    broadcast use vstd::seq_lib::group_to_multiset_ensures;

    lemma_u64_order();
    let leq = |a: u64, b: u64| a <= b;
    values.lemma_sort_by_ensures(leq);
    let sorted = sorted_samples(values);
    assert(sorted.to_multiset().len() == values.to_multiset().len());
    assert forall|i: int, j: int| 0 <= i <= j < sorted.len() implies sorted[i] <= sorted[j] by {
        if i < j {
            assert(leq(sorted[i], sorted[j]));
        }
    }
}

proof fn lemma_ascending_is_sorted(values: Seq<u64>, ordered: Seq<u64>)
    requires
        ascending(ordered),
        ordered.to_multiset() == values.to_multiset(),
    ensures
        ordered == sorted_samples(values),
{
    lemma_u64_order();
    let leq = |a: u64, b: u64| a <= b;
    values.lemma_sort_by_ensures(leq);
    vstd::seq_lib::lemma_sorted_unique(ordered, sorted_samples(values), leq);
}

proof fn lemma_total_remove(values: Seq<u64>, i: int)
    requires
        0 <= i < values.len(),
    ensures
        total(values) == total(values.remove(i)) + values[i],
    decreases values.len(),
{
    if i == values.len() - 1 {
        assert(values.remove(i) =~= values.drop_last());
    } else {
        lemma_total_remove(values.drop_last(), i);
        assert(values.remove(i).drop_last() =~= values.drop_last().remove(i));
        assert(values.remove(i).last() == values.last());
    }
}

proof fn lemma_total_of_permutation(a: Seq<u64>, b: Seq<u64>)
    requires
        a.to_multiset() == b.to_multiset(),
    ensures
        total(a) == total(b),
    decreases a.len(),
{
    broadcast use vstd::seq_lib::group_to_multiset_ensures;

    assert(a.len() == a.to_multiset().len());
    assert(b.len() == b.to_multiset().len());
    if a.len() > 0 {
        let x = a.last();
        assert(a.contains(x));
        assert(b.to_multiset().count(x) > 0);
        assert(b.contains(x));
        let i = choose|i: int| 0 <= i < b.len() && b[i] == x;
        lemma_total_remove(b, i);
        assert(a.drop_last() =~= a.remove(a.len() - 1));
        assert(a.drop_last().to_multiset() =~= b.remove(i).to_multiset());
        lemma_total_of_permutation(a.drop_last(), b.remove(i));
    }
}

proof fn lemma_total_bounds(values: Seq<u64>, low: u64, high: u64)
    requires
        forall|i: int| 0 <= i < values.len() ==> low <= #[trigger] values[i] <= high,
    ensures
        low * values.len() <= total(values) <= high * values.len(),
    decreases values.len(),
{
    if values.len() > 0 {
        let shorter = values.drop_last();
        assert forall|i: int| 0 <= i < shorter.len() implies low <= #[trigger] shorter[i]
            <= high by {
            assert(shorter[i] == values[i]);
        }
        lemma_total_bounds(shorter, low, high);
        assert(low * values.len() == low * shorter.len() + low) by (nonlinear_arith)
            requires
                values.len() == shorter.len() + 1,
        ;
        assert(high * values.len() == high * shorter.len() + high) by (nonlinear_arith)
            requires
                values.len() == shorter.len() + 1,
        ;
    }
}

proof fn lemma_mean_bounds(values: Seq<u64>, low: u64, high: u64)
    requires
        values.len() > 0,
        forall|i: int| 0 <= i < values.len() ==> low <= #[trigger] values[i] <= high,
    ensures
        low <= total(values) / values.len() <= high,
{
    lemma_total_bounds(values, low, high);
    let sum = total(values) as int;
    let n = values.len() as int;
    assert(low <= sum / n <= high) by (nonlinear_arith)
        requires
            n > 0,
            low * n <= sum <= high * n,
    ;
}

proof fn lemma_rank_in_range(len: nat, percent: nat)
    requires
        len > 0,
    ensures
        0 <= nearest_rank_index(len, percent) < len,
{
}

proof fn lemma_rank_monotone(len: nat, a: nat, b: nat)
    requires
        len > 0,
        a <= b,
    ensures
        nearest_rank_index(len, a) <= nearest_rank_index(len, b),
{
    assert(a * len <= b * len) by (nonlinear_arith)
        requires
            a <= b,
    ;
}

/// Sort ascending.
///
/// Trusted: `slice::sort_unstable` in std. It leaves the same values, in ascending order.
#[verifier::external_body]
fn sort_unstable(values: &mut Vec<u64>)
    ensures
        final(values)@.to_multiset() == old(values)@.to_multiset(),
        ascending(final(values)@),
{
    values.sort_unstable();
}

/// Nearest-rank percentile: the smallest value at or below which at least `percent` hundredths of
/// the samples fall.
pub fn percentile(sorted: &[u64], percent: u64) -> (value: u64)
    requires
        sorted@.len() > 0,
        ascending(sorted@),
    ensures
        value == sorted@[nearest_rank_index(sorted@.len(), percent as nat)],
{
    let len: u128 = sorted.len() as u128;
    assert(percent * len <= 0xffff_ffff_ffff_ffff * 0xffff_ffff_ffff_ffff) by (nonlinear_arith)
        requires
            percent <= 0xffff_ffff_ffff_ffff,
            len <= 0xffff_ffff_ffff_ffff,
    ;
    let rank: u128 = (percent as u128 * len + 99) / 100;
    let index: usize = if rank == 0 {
        0
    } else if rank > len {
        sorted.len() - 1
    } else {
        (rank - 1) as usize
    };
    sorted[index]
}

impl View for Samples {
    type V = Seq<u64>;

    closed spec fn view(&self) -> Seq<u64> {
        self.values@
    }
}

impl Samples {
    /// What is marked as sorted is sorted.
    pub closed spec fn wf(&self) -> bool {
        self.sorted ==> ascending(self.values@)
    }

    /// No samples yet.
    pub fn new() -> (samples: Samples)
        ensures
            samples.wf(),
            samples@ == Seq::<u64>::empty(),
    {
        Samples { values: Vec::new(), sorted: false }
    }

    /// Add one sample.
    pub fn record(&mut self, nanos: u64)
        ensures
            final(self).wf(),
            final(self)@ == old(self)@.push(nanos),
    {
        self.values.push(nanos);
        self.sorted = false;
    }

    /// Absorb another task's samples.
    pub fn merge(&mut self, other: Samples)
        ensures
            final(self).wf(),
            final(self)@ == old(self)@ + other@,
    {
        let mut rest = other.values;
        self.values.append(&mut rest);
        self.sorted = false;
    }

    /// How many samples there are.
    pub fn len(&self) -> (len: usize)
        ensures
            len == self@.len(),
    {
        self.values.len()
    }

    /// Whether there are no samples.
    pub fn is_empty(&self) -> (res: bool)
        ensures
            res == (self@.len() == 0),
    {
        self.values.len() == 0
    }

    /// Sort once, then read every statistic off the sorted samples. `None` when nothing was
    /// recorded: a report must say so rather than print zeros.
    pub fn summary(&mut self) -> (summary: Option<Summary>)
        requires
            old(self).wf(),
        ensures
            final(self).wf(),
            final(self)@.to_multiset() == old(self)@.to_multiset(),
            summary == summary_of(old(self)@),
    {
        if self.values.len() == 0 {
            return None;
        }
        let ghost before = self.values@;
        if !self.sorted {
            sort_unstable(&mut self.values);
            self.sorted = true;
        }
        let ghost sorted = self.values@;
        proof {
            broadcast use vstd::seq_lib::group_to_multiset_ensures;

            lemma_ascending_is_sorted(before, sorted);
            lemma_sorting_keeps_the_samples(before);
            lemma_total_of_permutation(before, sorted);
        }
        let len: usize = self.values.len();
        let mut sum: u128 = 0;
        let mut i: usize = 0;
        while i < len
            invariant
                len == self.values@.len(),
                i <= len,
                sum == total(self.values@.take(i as int)),
                sum <= i * 0xffff_ffff_ffff_ffff,
            decreases len - i,
        {
            assert(self.values@.take(i as int + 1).drop_last() =~= self.values@.take(i as int));
            assert(i * 0xffff_ffff_ffff_ffff <= 0xffff_ffff_ffff_ffff * 0xffff_ffff_ffff_ffff)
                by (nonlinear_arith)
                requires
                    i <= 0xffff_ffff_ffff_ffff,
            ;
            sum = sum + self.values[i] as u128;
            i += 1;
        }
        proof {
            assert(self.values@.take(len as int) =~= self.values@);
            lemma_mean_bounds(sorted, 0, u64::MAX);
        }
        let mean_ns: u64 = (sum / len as u128) as u64;
        Some(
            Summary {
                count: len,
                min_ns: self.values[0],
                p50_ns: percentile(self.values.as_slice(), 50),
                p95_ns: percentile(self.values.as_slice(), 95),
                p99_ns: percentile(self.values.as_slice(), 99),
                max_ns: self.values[len - 1],
                mean_ns,
            },
        )
    }
}

impl Default for Samples {
    fn default() -> (samples: Samples)
        ensures
            samples.wf(),
            samples@ == Seq::<u64>::empty(),
    {
        Samples::new()
    }
}

/// The order in which samples were recorded or merged does not show in their summary.
pub proof fn summary_ignores_the_order(a: Seq<u64>, b: Seq<u64>)
    requires
        a.to_multiset() == b.to_multiset(),
    ensures
        summary_of(a) == summary_of(b),
{
    broadcast use vstd::seq_lib::group_to_multiset_ensures;

    lemma_sorting_keeps_the_samples(b);
    lemma_ascending_is_sorted(a, sorted_samples(b));
    lemma_total_of_permutation(a, b);
    assert(a.len() == a.to_multiset().len());
    assert(b.len() == b.to_multiset().len());
}

/// The statistics of a summary stand in order, and the mean lies between the extremes.
pub proof fn summary_is_ordered(values: Seq<u64>)
    requires
        0 < values.len() <= usize::MAX,
    ensures
        summary_of(values) is Some,
        ({
            let s = summary_of(values)->0;
            &&& s.count == values.len()
            &&& s.min_ns <= s.p50_ns <= s.p95_ns <= s.p99_ns <= s.max_ns
            &&& s.min_ns <= s.mean_ns <= s.max_ns
            &&& values.contains(s.min_ns)
            &&& values.contains(s.max_ns)
            &&& forall|i: int|
                0 <= i < values.len() ==> s.min_ns <= #[trigger] values[i] <= s.max_ns
        }),
{
    broadcast use vstd::seq_lib::group_to_multiset_ensures;

    let sorted = sorted_samples(values);
    let n = values.len();
    lemma_sorting_keeps_the_samples(values);
    lemma_rank_monotone(n, 50, 95);
    lemma_rank_monotone(n, 95, 99);
    lemma_rank_in_range(n, 50);
    lemma_rank_in_range(n, 95);
    lemma_rank_in_range(n, 99);
    assert forall|i: int| 0 <= i < n implies sorted.first() <= #[trigger] values[i]
        <= sorted.last() by {
        assert(values.contains(values[i]));
        assert(sorted.to_multiset().count(values[i]) > 0);
        assert(sorted.contains(values[i]));
    }
    assert(sorted.contains(sorted.first()));
    assert(sorted.contains(sorted.last()));
    assert(values.to_multiset().count(sorted.first()) > 0);
    assert(values.to_multiset().count(sorted.last()) > 0);
    lemma_mean_bounds(values, sorted.first(), sorted.last());
}

proof fn lemma_at_or_below_prefix(values: Seq<u64>, bound: u64, k: int)
    requires
        0 <= k <= values.len(),
    ensures
        (forall|i: int| 0 <= i < k ==> values[i] <= bound) ==> at_or_below(values, bound) >= k,
        (forall|i: int| k <= i < values.len() ==> values[i] > bound) ==> at_or_below(values, bound)
            <= k,
    decreases values.len(),
{
    if values.len() > 0 {
        let shorter = values.drop_last();
        if k == values.len() {
            lemma_at_or_below_prefix(shorter, bound, k - 1);
        } else {
            lemma_at_or_below_prefix(shorter, bound, k);
        }
    }
}

/// A percentile is a nearest rank: at least that share of the samples is at or below it, and a
/// smaller share is at or below any smaller value.
pub proof fn percentile_is_the_nearest_rank(sorted: Seq<u64>, percent: nat, smaller: u64)
    requires
        sorted.len() > 0,
        ascending(sorted),
        0 < percent <= 100,
    ensures
        ({
            let value = sorted[nearest_rank_index(sorted.len(), percent)];
            &&& 100 * at_or_below(sorted, value) >= percent * sorted.len()
            &&& smaller < value ==> 100 * at_or_below(sorted, smaller) < percent * sorted.len()
        }),
{
    let n = sorted.len();
    let index = nearest_rank_index(n, percent);
    let value = sorted[index];
    assert(0 < percent * n <= 100 * n) by (nonlinear_arith)
        requires
            0 < percent <= 100,
            n > 0,
    ;
    lemma_at_or_below_prefix(sorted, value, index + 1);
    if smaller < value {
        lemma_at_or_below_prefix(sorted, smaller, index);
    }
}

/// Merging two sets of samples summarises as if one task had recorded them all, in either order.
pub proof fn merging_is_recording_both(a: Seq<u64>, b: Seq<u64>)
    ensures
        summary_of(a + b) == summary_of(b + a),
        (a + b).to_multiset() == a.to_multiset().add(b.to_multiset()),
{
    vstd::seq_lib::lemma_multiset_commutative(a, b);
    vstd::seq_lib::lemma_multiset_commutative(b, a);
    assert((a + b).to_multiset() =~= (b + a).to_multiset());
    summary_ignores_the_order(a + b, b + a);
}

/// What the counters of a run say.
#[verifier::ext_equal]
pub struct Tally {
    pub published: u64,
    pub acknowledged: u64,
    pub received: u64,
    pub bytes_sent: u64,
    pub bytes_received: u64,
    pub publish_errors: u64,
    pub refused: Map<u8, u64>,
}

/// A counter after `n` more; counters wrap around.
pub open spec fn counted(counter: u64, n: u64) -> u64 {
    ((counter + n) % 0x1_0000_0000_0000_0000) as u64
}

impl Tally {
    /// Nothing counted yet.
    pub open spec fn zero() -> Tally {
        Tally {
            published: 0,
            acknowledged: 0,
            received: 0,
            bytes_sent: 0,
            bytes_received: 0,
            publish_errors: 0,
            refused: Map::empty(),
        }
    }

    /// How often the broker has declined a message with this reason code byte.
    pub open spec fn refusals(self, byte: u8) -> u64 {
        if self.refused.contains_key(byte) {
            self.refused[byte]
        } else {
            0
        }
    }

    /// After one more message of `bytes` bytes went out.
    pub open spec fn with_published(self, bytes: u64) -> Tally {
        Tally {
            published: counted(self.published, 1),
            bytes_sent: counted(self.bytes_sent, bytes),
            ..self
        }
    }

    /// After one more message was accepted.
    pub open spec fn with_acknowledged(self) -> Tally {
        Tally { acknowledged: counted(self.acknowledged, 1), ..self }
    }

    /// After one more message of `bytes` bytes arrived.
    pub open spec fn with_received(self, bytes: u64) -> Tally {
        Tally {
            received: counted(self.received, 1),
            bytes_received: counted(self.bytes_received, bytes),
            ..self
        }
    }

    /// After one more message could not be written.
    pub open spec fn with_publish_error(self) -> Tally {
        Tally { publish_errors: counted(self.publish_errors, 1), ..self }
    }

    /// After the broker declined one more message.
    pub open spec fn with_refusal(self, code: ReasonCode) -> Tally {
        Tally {
            refused: self.refused.insert(code.byte, counted(self.refusals(code.byte), 1)),
            ..self
        }
    }
}

/// Run-wide counters, which every task adds to.
pub struct Counters {
    published: u64,
    acknowledged: u64,
    received: u64,
    bytes_sent: u64,
    bytes_received: u64,
    publish_errors: u64,
    refused: BTreeMap<u8, u64>,
}

impl View for Counters {
    type V = Tally;

    closed spec fn view(&self) -> Tally {
        Tally {
            published: self.published,
            acknowledged: self.acknowledged,
            received: self.received,
            bytes_sent: self.bytes_sent,
            bytes_received: self.bytes_received,
            publish_errors: self.publish_errors,
            refused: self.refused@,
        }
    }
}

/// The counters at one moment.
pub struct CounterTotals {
    pub published: u64,
    pub acknowledged: u64,
    pub received: u64,
    pub bytes_sent: u64,
    pub bytes_received: u64,
    pub publish_errors: u64,
    /// How often each reason code byte came back.
    pub refused: BTreeMap<u8, u64>,
}

impl View for CounterTotals {
    type V = Tally;

    open spec fn view(&self) -> Tally {
        Tally {
            published: self.published,
            acknowledged: self.acknowledged,
            received: self.received,
            bytes_sent: self.bytes_sent,
            bytes_received: self.bytes_received,
            publish_errors: self.publish_errors,
            refused: self.refused@,
        }
    }
}

impl Counters {
    /// Nothing counted yet.
    pub fn new() -> (counters: Counters)
        ensures
            counters@ == Tally::zero(),
    {
        Counters {
            published: 0,
            acknowledged: 0,
            received: 0,
            bytes_sent: 0,
            bytes_received: 0,
            publish_errors: 0,
            refused: BTreeMap::new(),
        }
    }

    /// One more message of `bytes` bytes went out.
    pub fn record_published(&mut self, bytes: u64)
        ensures
            final(self)@ == old(self)@.with_published(bytes),
    {
        self.published = self.published.wrapping_add(1);
        self.bytes_sent = self.bytes_sent.wrapping_add(bytes);
    }

    /// One more message was accepted.
    pub fn record_acknowledged(&mut self)
        ensures
            final(self)@ == old(self)@.with_acknowledged(),
    {
        self.acknowledged = self.acknowledged.wrapping_add(1);
    }

    /// One more message of `bytes` bytes arrived.
    pub fn record_received(&mut self, bytes: u64)
        ensures
            final(self)@ == old(self)@.with_received(bytes),
    {
        self.received = self.received.wrapping_add(1);
        self.bytes_received = self.bytes_received.wrapping_add(bytes);
    }

    /// One more message could not be written.
    pub fn record_publish_error(&mut self)
        ensures
            final(self)@ == old(self)@.with_publish_error(),
    {
        self.publish_errors = self.publish_errors.wrapping_add(1);
    }

    /// A message the broker declined, tallied by reason code so a refusal partway through a run
    /// is visible instead of looking like slowness.
    pub fn record_refusal(&mut self, code: ReasonCode)
        ensures
            final(self)@ == old(self)@.with_refusal(code),
    {
        let byte: u8 = code.as_u8();
        let before: u64 = match self.refused.get(&byte) {
            Some(n) => *n,
            None => 0,
        };
        self.refused.insert(byte, before.wrapping_add(1));
    }

    /// The counters at this moment.
    pub fn snapshot(&self) -> (totals: CounterTotals)
        ensures
            totals@ == self@,
    {
        CounterTotals {
            published: self.published,
            acknowledged: self.acknowledged,
            received: self.received,
            bytes_sent: self.bytes_sent,
            bytes_received: self.bytes_received,
            publish_errors: self.publish_errors,
            refused: self.refused.clone(),
        }
    }
}

impl Default for Counters {
    fn default() -> (counters: Counters)
        ensures
            counters@ == Tally::zero(),
    {
        Counters::new()
    }
}

impl Default for CounterTotals {
    fn default() -> (totals: CounterTotals)
        ensures
            totals@ == Tally::zero(),
    {
        Counters::new().snapshot()
    }
}

/// The order in which two refusals are tallied does not show in the counters, and each reason
/// code keeps its own count.
pub proof fn refusals_are_tallied_apart(tally: Tally, a: ReasonCode, b: ReasonCode)
    ensures
        tally.with_refusal(a).with_refusal(b) == tally.with_refusal(b).with_refusal(a),
        tally.with_refusal(a).refusals(a.byte) == counted(tally.refusals(a.byte), 1),
        a.byte != b.byte ==> tally.with_refusal(a).refusals(b.byte) == tally.refusals(b.byte),
{
    assert(tally.with_refusal(a).with_refusal(b).refused =~= tally.with_refusal(b).with_refusal(
        a,
    ).refused);
}

/// A measured quantity, written twice: as the table shows it and as JSON writes the number.
pub struct Figure {
    pub shown: String,
    pub json: String,
}

/// The six latencies of a summary in milliseconds, as the table shows them.
pub struct LatencyMillis {
    pub min: String,
    pub p50: String,
    pub p95: String,
    pub p99: String,
    pub max: String,
    pub mean: String,
}

/// The quantities of a report that are fractions.
pub struct Figures {
    /// Seconds the run took.
    pub elapsed_secs: Figure,
    /// Messages published per second.
    pub publish_rate: Figure,
    /// Messages received per second.
    pub receive_rate: Figure,
    /// The acknowledgement latencies; unused when there are none.
    pub ack: LatencyMillis,
    /// The end-to-end latencies; unused when there are none.
    pub end_to_end: LatencyMillis,
}

/// The configuration that produced a report.
pub struct ReportConfig {
    pub publishers: usize,
    pub subscribers: usize,
    pub qos: u8,
    pub payload_size: usize,
    pub inflight: usize,
    /// The offered rate, when the run was throttled.
    pub rate: Option<Figure>,
    pub topic_prefix: String,
}

/// What a run measured.
pub struct Report {
    pub config: ReportConfig,
    /// Measured time of the run, never the requested duration: a run cut short must not report
    /// the rate it was aiming for.
    pub elapsed: Duration,
    pub totals: CounterTotals,
    pub task_failures: Vec<String>,
    pub ack: Option<Summary>,
    pub end_to_end: Option<Summary>,
    pub end_to_end_disabled: bool,
}

/// A count in a column twelve characters wide.
pub open spec fn count_cell(count: u64) -> Seq<char> {
    text::right_aligned(text::decimal_text(count as nat), 12)
}

fn cell(count: u64) -> (res: String)
    ensures
        res@ == count_cell(count),
{
    text::align_right(text::decimal(count).as_str(), 12)
}

/// How the table shows the offered load.
pub open spec fn offered_text(rate: Option<Figure>) -> Seq<char> {
    match rate {
        Some(rate) => rate.shown@ + " msg/s offered"@,
        None => "unthrottled"@,
    }
}

fn offered(rate: &Option<Figure>) -> (res: String)
    ensures
        res@ == offered_text(*rate),
{
    match rate {
        Some(rate) => {
            let mut res = rate.shown.clone();
            res.append(" msg/s offered");
            res
        },
        None => String::from_str("unthrottled"),
    }
}

/// The line of one latency.
pub open spec fn latency_row(name: Seq<char>, millis: Seq<char>) -> Seq<char> {
    "  "@ + name + " "@ + text::right_aligned(millis, 10) + " ms\n"@
}

fn write_latency_row(name: &str, millis: &String) -> (row: String)
    ensures
        row@ == latency_row(name@, millis@),
{
    let mut row = String::from_str("  ");
    row.append(name);
    row.append(" ");
    row.append(text::align_right(millis.as_str(), 10).as_str());
    row.append(" ms\n");
    row
}

/// The lines of a latency distribution, or why there is none.
pub open spec fn latency_rows(
    label: Seq<char>,
    summary: Option<Summary>,
    millis: LatencyMillis,
    why: Seq<char>,
) -> Seq<char> {
    match summary {
        Some(s) => label + " ("@ + text::decimal_text(s.count as nat) + " samples)\n"@
            + latency_row("min "@, millis.min@) + latency_row("p50 "@, millis.p50@) + latency_row(
            "p95 "@,
            millis.p95@,
        ) + latency_row("p99 "@, millis.p99@) + latency_row("max "@, millis.max@) + latency_row(
            "mean"@,
            millis.mean@,
        ),
        None => label + ": not measured ("@ + why + ")\n"@,
    }
}

fn write_latency(
    label: &str,
    summary: &Option<Summary>,
    millis: &LatencyMillis,
    why: &str,
) -> (rows: String)
    ensures
        rows@ == latency_rows(label@, *summary, *millis, why@),
{
    let mut rows = String::from_str(label);
    match summary {
        Some(s) => {
            rows.append(" (");
            rows.append(text::decimal(s.count as u64).as_str());
            rows.append(" samples)\n");
            rows.append(write_latency_row("min ", &millis.min).as_str());
            rows.append(write_latency_row("p50 ", &millis.p50).as_str());
            rows.append(write_latency_row("p95 ", &millis.p95).as_str());
            rows.append(write_latency_row("p99 ", &millis.p99).as_str());
            rows.append(write_latency_row("max ", &millis.max).as_str());
            rows.append(write_latency_row("mean", &millis.mean).as_str());
        },
        None => {
            rows.append(": not measured (");
            rows.append(why);
            rows.append(")\n");
        },
    }
    rows
}

/// The line of one reason code that the broker declined messages with.
pub open spec fn refused_line(byte: u8, count: u64) -> Seq<char> {
    "  refused 0x"@ + text::upper_hex_byte_text(byte) + "     "@ + count_cell(count) + "\n"@
}

fn refused_row(byte: u8, count: u64) -> (row: String)
    ensures
        row@ == refused_line(byte, count),
{
    let mut row = String::from_str("  refused 0x");
    row.append(text::upper_hex_byte(byte).as_str());
    row.append("     ");
    row.append(cell(count).as_str());
    row.append("\n");
    row
}

/// The lines of the reason codes below `codes` that the broker declined messages with, in
/// ascending order.
pub open spec fn refused_rows(refused: Map<u8, u64>, codes: nat) -> Seq<char>
    decreases codes,
{
    if codes == 0 {
        Seq::empty()
    } else {
        let byte = (codes - 1) as u8;
        refused_rows(refused, (codes - 1) as nat) + (if refused.contains_key(byte) {
            refused_line(byte, refused[byte])
        } else {
            Seq::empty()
        })
    }
}

fn write_refused(refused: &BTreeMap<u8, u64>) -> (rows: String)
    ensures
        rows@ == refused_rows(refused@, 256),
{
    let mut rows = String::new();
    let mut code: u16 = 0;
    while code < 256
        invariant
            code <= 256,
            rows@ == refused_rows(refused@, code as nat),
        decreases 256 - code,
    {
        let byte: u8 = code as u8;
        if let Some(count) = refused.get(&byte) {
            rows.append(refused_row(byte, *count).as_str());
        } else {
            assert(rows@ + Seq::<char>::empty() =~= rows@);
        }
        code += 1;
    }
    rows
}

/// The lines of the first `n` failed tasks.
pub open spec fn failure_rows(failures: Seq<String>, n: nat) -> Seq<char>
    decreases n,
{
    if n == 0 || n > failures.len() {
        Seq::empty()
    } else {
        failure_rows(failures, (n - 1) as nat) + "  task failed: "@ + failures[n - 1]@ + "\n"@
    }
}

fn write_failures(failures: &Vec<String>) -> (rows: String)
    ensures
        rows@ == failure_rows(failures@, failures@.len()),
{
    let mut rows = String::new();
    let mut i: usize = 0;
    while i < failures.len()
        invariant
            i <= failures.len(),
            rows@ == failure_rows(failures@, i as nat),
        decreases failures.len() - i,
    {
        rows.append("  task failed: ");
        rows.append(failures[i].as_str());
        rows.append("\n");
        i += 1;
    }
    rows
}

/// The members of a summary as JSON.
pub open spec fn summary_members(s: Summary) -> Seq<(Seq<char>, JsonView)> {
    seq![
        ("count"@, JsonView::Uint(s.count as u64)),
        ("min_ns"@, JsonView::Uint(s.min_ns)),
        ("p50_ns"@, JsonView::Uint(s.p50_ns)),
        ("p95_ns"@, JsonView::Uint(s.p95_ns)),
        ("p99_ns"@, JsonView::Uint(s.p99_ns)),
        ("max_ns"@, JsonView::Uint(s.max_ns)),
        ("mean_ns"@, JsonView::Uint(s.mean_ns)),
    ]
}

/// A summary as JSON, `null` when there is none.
pub open spec fn summary_document(summary: Option<Summary>) -> JsonView {
    match summary {
        Some(s) => JsonView::Object(summary_members(s)),
        None => JsonView::Null,
    }
}

fn summary_json(summary: &Option<Summary>) -> (res: Json)
    ensures
        res@ == summary_document(*summary),
{
    match summary {
        Some(s) => {
            let mut m = Members::new();
            m.put("count", Json::Uint(s.count as u64));
            m.put("min_ns", Json::Uint(s.min_ns));
            m.put("p50_ns", Json::Uint(s.p50_ns));
            m.put("p95_ns", Json::Uint(s.p95_ns));
            m.put("p99_ns", Json::Uint(s.p99_ns));
            m.put("max_ns", Json::Uint(s.max_ns));
            m.put("mean_ns", Json::Uint(s.mean_ns));
            assert(m@ =~= summary_members(*s));
            m.object()
        },
        None => Json::Null,
    }
}

/// The reason codes below `codes` that the broker declined messages with, as JSON members.
pub open spec fn refused_members(refused: Map<u8, u64>, codes: nat) -> Seq<(Seq<char>, JsonView)>
    decreases codes,
{
    if codes == 0 {
        Seq::empty()
    } else {
        let byte = (codes - 1) as u8;
        let before = refused_members(refused, (codes - 1) as nat);
        if refused.contains_key(byte) {
            before.push(("0x"@ + text::upper_hex_byte_text(byte), JsonView::Uint(refused[byte])))
        } else {
            before
        }
    }
}

fn refused_json(refused: &BTreeMap<u8, u64>) -> (res: Json)
    ensures
        res@ == JsonView::Object(refused_members(refused@, 256)),
{
    let mut m = Members::new();
    let mut code: u16 = 0;
    while code < 256
        invariant
            code <= 256,
            m@ == refused_members(refused@, code as nat),
        decreases 256 - code,
    {
        let byte: u8 = code as u8;
        match refused.get(&byte) {
            Some(count) => {
                let mut name = String::from_str("0x");
                name.append(text::upper_hex_byte(byte).as_str());
                m.put(name.as_str(), Json::Uint(*count));
            },
            None => {},
        }
        code += 1;
    }
    m.object()
}

impl Report {
    /// A run is a success only when nothing failed and nothing was refused.
    pub open spec fn spec_success(&self) -> bool {
        &&& self.task_failures@.len() == 0
        &&& self.totals.refused@ == Map::<u8, u64>::empty()
        &&& self.totals.publish_errors == 0
    }

    /// A run is a success only when nothing failed and nothing was refused.
    pub fn success(&self) -> (res: bool)
        ensures
            res == self.spec_success(),
    {
        let res = self.task_failures.len() == 0 && self.totals.refused.is_empty()
            && self.totals.publish_errors == 0;
        proof {
            if self.totals.refused@.is_empty() {
                assert(self.totals.refused@ =~= Map::<u8, u64>::empty());
            }
        }
        res
    }

    /// The first line of the table.
    pub open spec fn config_row(&self) -> Seq<char> {
        "config: "@ + text::decimal_text(self.config.publishers as nat) + " publishers, "@
            + text::decimal_text(self.config.subscribers as nat) + " subscribers, QoS "@
            + text::decimal_text(self.config.qos as nat) + ", "@ + text::decimal_text(
            self.config.payload_size as nat,
        ) + " B payload, inflight "@ + text::decimal_text(self.config.inflight as nat) + ", "@
            + offered_text(self.config.rate) + ", prefix "@ + self.config.topic_prefix@ + "\n"@
    }

    /// The lines of the counters.
    pub open spec fn counter_rows(&self, figures: Figures) -> Seq<char> {
        "  published       "@ + count_cell(self.totals.published) + "  ("@
            + figures.publish_rate.shown@ + "/s)\n"@ + "  acknowledged    "@ + count_cell(
            self.totals.acknowledged,
        ) + "\n"@ + "  received        "@ + count_cell(self.totals.received) + "  ("@
            + figures.receive_rate.shown@ + "/s)\n"@ + "  bytes sent      "@ + count_cell(
            self.totals.bytes_sent,
        ) + "\n"@ + "  bytes received  "@ + count_cell(self.totals.bytes_received) + "\n"@
            + "  publish errors  "@ + count_cell(self.totals.publish_errors) + "\n"@
    }

    /// Why there is no end-to-end latency, where there is none.
    pub open spec fn end_to_end_reason(&self) -> Seq<char> {
        if self.end_to_end_disabled {
            "payload too small for the measurement header"@
        } else {
            "no samples"@
        }
    }

    /// The report as a table.
    pub open spec fn table(&self, figures: Figures) -> Seq<char> {
        self.config_row() + "elapsed:  "@ + figures.elapsed_secs.shown@ + " s\n"@ + "\n"@
            + self.counter_rows(figures) + refused_rows(self.totals.refused@, 256) + failure_rows(
            self.task_failures@,
            self.task_failures@.len(),
        ) + "\n"@ + latency_rows("ack latency"@, self.ack, figures.ack, "no samples"@)
            + latency_rows(
            "end-to-end latency"@,
            self.end_to_end,
            figures.end_to_end,
            self.end_to_end_reason(),
        )
    }

    fn write_config_row(&self) -> (row: String)
        ensures
            row@ == self.config_row(),
    {
        let mut row = String::from_str("config: ");
        row.append(text::decimal(self.config.publishers as u64).as_str());
        row.append(" publishers, ");
        row.append(text::decimal(self.config.subscribers as u64).as_str());
        row.append(" subscribers, QoS ");
        row.append(text::decimal(self.config.qos as u64).as_str());
        row.append(", ");
        row.append(text::decimal(self.config.payload_size as u64).as_str());
        row.append(" B payload, inflight ");
        row.append(text::decimal(self.config.inflight as u64).as_str());
        row.append(", ");
        row.append(offered(&self.config.rate).as_str());
        row.append(", prefix ");
        row.append(self.config.topic_prefix.as_str());
        row.append("\n");
        row
    }

    fn write_counter_rows(&self, figures: &Figures) -> (rows: String)
        ensures
            rows@ == self.counter_rows(*figures),
    {
        let mut rows = String::from_str("  published       ");
        rows.append(cell(self.totals.published).as_str());
        rows.append("  (");
        rows.append(figures.publish_rate.shown.as_str());
        rows.append("/s)\n");
        rows.append("  acknowledged    ");
        rows.append(cell(self.totals.acknowledged).as_str());
        rows.append("\n");
        rows.append("  received        ");
        rows.append(cell(self.totals.received).as_str());
        rows.append("  (");
        rows.append(figures.receive_rate.shown.as_str());
        rows.append("/s)\n");
        rows.append("  bytes sent      ");
        rows.append(cell(self.totals.bytes_sent).as_str());
        rows.append("\n");
        rows.append("  bytes received  ");
        rows.append(cell(self.totals.bytes_received).as_str());
        rows.append("\n");
        rows.append("  publish errors  ");
        rows.append(cell(self.totals.publish_errors).as_str());
        rows.append("\n");
        rows
    }

    /// The report as a table.
    pub fn to_table(&self, figures: &Figures) -> (table: String)
        ensures
            table@ == self.table(*figures),
    {
        let mut out = self.write_config_row();
        out.append("elapsed:  ");
        out.append(figures.elapsed_secs.shown.as_str());
        out.append(" s\n");
        out.append("\n");
        out.append(self.write_counter_rows(figures).as_str());
        out.append(write_refused(&self.totals.refused).as_str());
        out.append(write_failures(&self.task_failures).as_str());
        out.append("\n");
        out.append(
            write_latency("ack latency", &self.ack, &figures.ack, "no samples").as_str(),
        );
        let why = if self.end_to_end_disabled {
            "payload too small for the measurement header"
        } else {
            "no samples"
        };
        out.append(
            write_latency(
                "end-to-end latency",
                &self.end_to_end,
                &figures.end_to_end,
                why,
            ).as_str(),
        );
        out
    }

    /// The configuration as JSON.
    pub open spec fn config_members(&self) -> Seq<(Seq<char>, JsonView)> {
        seq![
            ("publishers"@, JsonView::Uint(self.config.publishers as u64)),
            ("subscribers"@, JsonView::Uint(self.config.subscribers as u64)),
            ("qos"@, JsonView::Uint(self.config.qos as u64)),
            ("payload_size"@, JsonView::Uint(self.config.payload_size as u64)),
            ("inflight"@, JsonView::Uint(self.config.inflight as u64)),
            (
                "rate"@,
                match self.config.rate {
                    Some(rate) => JsonView::Number(rate.json@),
                    None => JsonView::Null,
                },
            ),
            ("topic_prefix"@, JsonView::Text(self.config.topic_prefix@)),
        ]
    }

    /// The counters as JSON.
    pub open spec fn counters_members(&self) -> Seq<(Seq<char>, JsonView)> {
        seq![
            ("published"@, JsonView::Uint(self.totals.published)),
            ("acknowledged"@, JsonView::Uint(self.totals.acknowledged)),
            ("received"@, JsonView::Uint(self.totals.received)),
            ("bytes_sent"@, JsonView::Uint(self.totals.bytes_sent)),
            ("bytes_received"@, JsonView::Uint(self.totals.bytes_received)),
            ("publish_errors"@, JsonView::Uint(self.totals.publish_errors)),
            ("refused"@, JsonView::Object(refused_members(self.totals.refused@, 256))),
        ]
    }

    /// The rates as JSON.
    pub open spec fn throughput_members(figures: Figures) -> Seq<(Seq<char>, JsonView)> {
        seq![
            ("published_per_sec"@, JsonView::Number(figures.publish_rate.json@)),
            ("received_per_sec"@, JsonView::Number(figures.receive_rate.json@)),
        ]
    }

    /// The latencies as JSON.
    pub open spec fn latency_members(&self) -> Seq<(Seq<char>, JsonView)> {
        seq![
            ("ack"@, summary_document(self.ack)),
            ("end_to_end"@, summary_document(self.end_to_end)),
            ("end_to_end_disabled"@, JsonView::Bool(self.end_to_end_disabled)),
        ]
    }

    /// The report as JSON.
    pub open spec fn document_members(&self, figures: Figures) -> Seq<(Seq<char>, JsonView)> {
        seq![
            ("config"@, JsonView::Object(self.config_members())),
            ("elapsed_secs"@, JsonView::Number(figures.elapsed_secs.json@)),
            ("counters"@, JsonView::Object(self.counters_members())),
            ("throughput"@, JsonView::Object(Self::throughput_members(figures))),
            ("latency"@, JsonView::Object(self.latency_members())),
            ("task_failures"@, JsonView::List(json::text_items(self.task_failures@))),
            ("success"@, JsonView::Bool(self.spec_success())),
        ]
    }

    fn config_json(&self) -> (res: Json)
        ensures
            res@ == JsonView::Object(self.config_members()),
    {
        let mut m = Members::new();
        m.put("publishers", Json::Uint(self.config.publishers as u64));
        m.put("subscribers", Json::Uint(self.config.subscribers as u64));
        m.put("qos", Json::Uint(self.config.qos as u64));
        m.put("payload_size", Json::Uint(self.config.payload_size as u64));
        m.put("inflight", Json::Uint(self.config.inflight as u64));
        let rate = match &self.config.rate {
            Some(rate) => Json::Number(rate.json.clone()),
            None => Json::Null,
        };
        m.put("rate", rate);
        m.put("topic_prefix", Json::Text(self.config.topic_prefix.clone()));
        assert(m@ =~= self.config_members());
        m.object()
    }

    fn counters_json(&self) -> (res: Json)
        ensures
            res@ == JsonView::Object(self.counters_members()),
    {
        let mut m = Members::new();
        m.put("published", Json::Uint(self.totals.published));
        m.put("acknowledged", Json::Uint(self.totals.acknowledged));
        m.put("received", Json::Uint(self.totals.received));
        m.put("bytes_sent", Json::Uint(self.totals.bytes_sent));
        m.put("bytes_received", Json::Uint(self.totals.bytes_received));
        m.put("publish_errors", Json::Uint(self.totals.publish_errors));
        m.put("refused", refused_json(&self.totals.refused));
        assert(m@ =~= self.counters_members());
        m.object()
    }

    /// The report as a JSON document.
    pub fn to_document(&self, figures: &Figures) -> (res: Json)
        ensures
            res@ == JsonView::Object(self.document_members(*figures)),
    {
        let mut throughput = Members::new();
        throughput.put("published_per_sec", Json::Number(figures.publish_rate.json.clone()));
        throughput.put("received_per_sec", Json::Number(figures.receive_rate.json.clone()));
        assert(throughput@ =~= Self::throughput_members(*figures));
        let mut latency = Members::new();
        latency.put("ack", summary_json(&self.ack));
        latency.put("end_to_end", summary_json(&self.end_to_end));
        latency.put("end_to_end_disabled", Json::Bool(self.end_to_end_disabled));
        assert(latency@ =~= self.latency_members());
        let mut m = Members::new();
        m.put("config", self.config_json());
        m.put("elapsed_secs", Json::Number(figures.elapsed_secs.json.clone()));
        m.put("counters", self.counters_json());
        m.put("throughput", throughput.object());
        m.put("latency", latency.object());
        m.put("task_failures", json::text_list(&self.task_failures));
        m.put("success", Json::Bool(self.success()));
        assert(m@ =~= self.document_members(*figures));
        m.object()
    }

    /// The report as JSON text.
    pub fn to_json(&self, figures: &Figures) -> (text: String)
        ensures
            text@ == json::pretty_text(JsonView::Object(self.document_members(*figures))),
    {
        json::pretty(&self.to_document(figures))
    }
}

proof fn lemma_at_or_below_remove(values: Seq<u64>, bound: u64, i: int)
    requires
        0 <= i < values.len(),
    ensures
        at_or_below(values, bound) == at_or_below(values.remove(i), bound) + (if values[i]
            <= bound {
            1nat
        } else {
            0nat
        }),
    decreases values.len(),
{
    if i == values.len() - 1 {
        assert(values.remove(i) =~= values.drop_last());
    } else {
        lemma_at_or_below_remove(values.drop_last(), bound, i);
        assert(values.remove(i).drop_last() =~= values.drop_last().remove(i));
        assert(values.remove(i).last() == values.last());
    }
}

proof fn lemma_at_or_below_of_permutation(a: Seq<u64>, b: Seq<u64>, bound: u64)
    requires
        a.to_multiset() == b.to_multiset(),
    ensures
        at_or_below(a, bound) == at_or_below(b, bound),
    decreases a.len(),
{
    broadcast use vstd::seq_lib::group_to_multiset_ensures;

    assert(a.len() == a.to_multiset().len());
    assert(b.len() == b.to_multiset().len());
    if a.len() > 0 {
        let x = a.last();
        assert(a.contains(x));
        assert(b.to_multiset().count(x) > 0);
        assert(b.contains(x));
        let i = choose|i: int| 0 <= i < b.len() && b[i] == x;
        lemma_at_or_below_remove(b, bound, i);
        assert(a.drop_last() =~= a.remove(a.len() - 1));
        assert(a.drop_last().to_multiset() =~= b.remove(i).to_multiset());
        lemma_at_or_below_of_permutation(a.drop_last(), b.remove(i), bound);
    }
}

/// Whether a value is the nearest-rank percentile of a set of samples: it is one of them, at least
/// that share of them is at or below it, and a smaller share is at or below `smaller`, if that is
/// a smaller value.
pub open spec fn is_percentile(values: Seq<u64>, percent: nat, value: u64, smaller: u64) -> bool {
    &&& values.contains(value)
    &&& 100 * at_or_below(values, value) >= percent * values.len()
    &&& smaller < value ==> 100 * at_or_below(values, smaller) < percent * values.len()
}

proof fn lemma_is_percentile(values: Seq<u64>, percent: nat, smaller: u64)
    requires
        values.len() > 0,
        0 < percent <= 100,
    ensures
        is_percentile(
            values,
            percent,
            sorted_samples(values)[nearest_rank_index(values.len(), percent)],
            smaller,
        ),
{
    broadcast use vstd::seq_lib::group_to_multiset_ensures;

    let sorted = sorted_samples(values);
    lemma_sorting_keeps_the_samples(values);
    lemma_rank_in_range(values.len(), percent);
    let value = sorted[nearest_rank_index(values.len(), percent)];
    assert(sorted.contains(value));
    assert(values.to_multiset().count(value) > 0);
    percentile_is_the_nearest_rank(sorted, percent, smaller);
    lemma_at_or_below_of_permutation(values, sorted, value);
    lemma_at_or_below_of_permutation(values, sorted, smaller);
}

/// The percentiles of a summary are what they are called, in whatever order the samples came: the
/// median, the 95th and the 99th are each a sample, the smallest at or below which half, 95 and 99
/// in a hundred of the samples fall.
pub proof fn a_summary_holds_its_percentiles(values: Seq<u64>, smaller: u64)
    requires
        0 < values.len() <= usize::MAX,
    ensures
        summary_of(values) matches Some(s) && {
            &&& values.contains(s.p50_ns)
            &&& values.contains(s.p95_ns)
            &&& values.contains(s.p99_ns)
            &&& 100 * at_or_below(values, s.p50_ns) >= 50 * values.len()
            &&& 100 * at_or_below(values, s.p95_ns) >= 95 * values.len()
            &&& 100 * at_or_below(values, s.p99_ns) >= 99 * values.len()
            &&& smaller < s.p50_ns ==> 100 * at_or_below(values, smaller) < 50 * values.len()
            &&& smaller < s.p95_ns ==> 100 * at_or_below(values, smaller) < 95 * values.len()
            &&& smaller < s.p99_ns ==> 100 * at_or_below(values, smaller) < 99 * values.len()
        },
{
    lemma_is_percentile(values, 50, smaller);
    lemma_is_percentile(values, 95, smaller);
    lemma_is_percentile(values, 99, smaller);
}

/// A percentile of nothing is the first of the samples, and one of all of them or more the last.
pub proof fn percentiles_end_at_the_extremes(len: nat, percent: nat)
    requires
        len > 0,
    ensures
        nearest_rank_index(len, 0) == 0,
        percent >= 100 ==> nearest_rank_index(len, percent) == len - 1,
{
    if percent >= 100 {
        assert(percent * len >= 100 * len) by (nonlinear_arith)
            requires
                percent >= 100,
        ;
    }
}

/// Only an empty set of samples has no summary. A summary counts every sample, and its mean, times
/// their number, falls short of their sum by less than one for each.
pub proof fn a_summary_counts_and_averages(values: Seq<u64>)
    requires
        values.len() <= usize::MAX,
    ensures
        summary_of(values) is None <==> values.len() == 0,
        summary_of(values) matches Some(s) ==> {
            &&& s.count == values.len()
            &&& s.mean_ns * values.len() <= total(values)
            &&& total(values) < (s.mean_ns + 1) * values.len()
        },
{
    if values.len() > 0 {
        lemma_mean_bounds(values, 0, u64::MAX);
        let sum = total(values) as int;
        let n = values.len() as int;
        let mean = summary_of(values)->0.mean_ns as int;
        assert(mean == sum / n);
        assert(mean * n <= sum < (mean + 1) * n) by (nonlinear_arith)
            requires
                n > 0,
                mean == sum / n,
        ;
    }
}

/// The sum of the samples grows by each sample that is recorded, and by all that are merged.
pub proof fn samples_add_up(values: Seq<u64>, sample: u64, others: Seq<u64>)
    ensures
        total(Seq::empty()) == 0,
        total(values.push(sample)) == total(values) + sample,
        total(values + others) == total(values) + total(others),
    decreases others.len(),
{
    assert(values.push(sample).drop_last() =~= values);
    if others.len() == 0 {
        assert(values + others =~= values);
    } else {
        samples_add_up(values, sample, others.drop_last());
        assert((values + others).drop_last() =~= values + others.drop_last());
    }
}

/// A counter goes up by what is counted, and starts again at zero after the largest number.
pub proof fn counters_count_up(counter: u64, n: u64)
    ensures
        counter + n <= u64::MAX ==> counted(counter, n) == counter + n,
        counter + n > u64::MAX ==> counted(counter, n) == counter + n - u64::MAX - 1,
{
}

/// A run starts with nothing counted.
pub proof fn nothing_is_counted_at_first(byte: u8)
    ensures
        ({
            let zero = Tally::zero();
            &&& zero.published == 0
            &&& zero.acknowledged == 0
            &&& zero.received == 0
            &&& zero.bytes_sent == 0
            &&& zero.bytes_received == 0
            &&& zero.publish_errors == 0
            &&& zero.refused.dom() == Set::<u8>::empty()
            &&& zero.refusals(byte) == 0
        }),
{
    assert(Tally::zero().refused.dom() =~= Set::<u8>::empty());
}

/// Whether two tallies agree on everything about messages that went out.
pub open spec fn same_sent(a: Tally, b: Tally) -> bool {
    a.published == b.published && a.bytes_sent == b.bytes_sent
}

/// Whether two tallies agree on everything about messages that arrived.
pub open spec fn same_received(a: Tally, b: Tally) -> bool {
    a.received == b.received && a.bytes_received == b.bytes_received
}

/// Whether two tallies agree on how the messages were answered and on those that were not written.
pub open spec fn same_answers(a: Tally, b: Tally) -> bool {
    a.acknowledged == b.acknowledged && a.publish_errors == b.publish_errors && a.refused
        == b.refused
}

/// Every event is counted once, under its own name: a message that went out or arrived with its
/// bytes, an acceptance, a refusal and a message that was not written, each leaving the rest of
/// the counters as they are.
pub proof fn every_event_is_counted_under_its_name(tally: Tally, bytes: u64, code: ReasonCode)
    requires
        tally.published < u64::MAX,
        tally.acknowledged < u64::MAX,
        tally.received < u64::MAX,
        tally.publish_errors < u64::MAX,
        tally.refusals(code.byte) < u64::MAX,
        tally.bytes_sent + bytes <= u64::MAX,
        tally.bytes_received + bytes <= u64::MAX,
    ensures
        ({
            let t = tally.with_published(bytes);
            &&& t.published == tally.published + 1
            &&& t.bytes_sent == tally.bytes_sent + bytes
            &&& same_received(t, tally) && same_answers(t, tally)
        }),
        ({
            let t = tally.with_received(bytes);
            &&& t.received == tally.received + 1
            &&& t.bytes_received == tally.bytes_received + bytes
            &&& same_sent(t, tally) && same_answers(t, tally)
        }),
        ({
            let t = tally.with_acknowledged();
            &&& t.acknowledged == tally.acknowledged + 1
            &&& t.publish_errors == tally.publish_errors
            &&& t.refused == tally.refused
            &&& same_sent(t, tally) && same_received(t, tally)
        }),
        ({
            let t = tally.with_publish_error();
            &&& t.publish_errors == tally.publish_errors + 1
            &&& t.acknowledged == tally.acknowledged
            &&& t.refused == tally.refused
            &&& same_sent(t, tally) && same_received(t, tally)
        }),
        ({
            let t = tally.with_refusal(code);
            &&& t.refusals(code.byte) == tally.refusals(code.byte) + 1
            &&& t.refused.contains_key(code.byte)
            &&& t.acknowledged == tally.acknowledged
            &&& t.publish_errors == tally.publish_errors
            &&& same_sent(t, tally) && same_received(t, tally)
        }),
{
}

/// A run is a success unless a task failed, a message was not written or the broker refused one.
pub proof fn success_goes_by_what_went_wrong(report: &Report)
    ensures
        report.task_failures@.len() > 0 ==> !report.spec_success(),
        report.totals.publish_errors > 0 ==> !report.spec_success(),
        (exists|byte: u8| #[trigger] report.totals.refused@.contains_key(byte))
            ==> !report.spec_success(),
        !report.spec_success() ==> {
            ||| report.task_failures@.len() > 0
            ||| report.totals.publish_errors > 0
            ||| exists|byte: u8| #[trigger] report.totals.refused@.contains_key(byte)
        },
{
    if forall|byte: u8| !(#[trigger] report.totals.refused@.contains_key(byte)) {
        assert(report.totals.refused@ =~= Map::<u8, u64>::empty());
    }
}

/// A summary is written member by member, each number under its own name.
pub proof fn a_summary_is_written_under_its_names(s: Summary)
    ensures
        ({
            let m = summary_members(s);
            &&& m.len() == 7
            &&& m.contains(("count"@, JsonView::Uint(s.count as u64)))
            &&& m.contains(("min_ns"@, JsonView::Uint(s.min_ns)))
            &&& m.contains(("p50_ns"@, JsonView::Uint(s.p50_ns)))
            &&& m.contains(("p95_ns"@, JsonView::Uint(s.p95_ns)))
            &&& m.contains(("p99_ns"@, JsonView::Uint(s.p99_ns)))
            &&& m.contains(("max_ns"@, JsonView::Uint(s.max_ns)))
            &&& m.contains(("mean_ns"@, JsonView::Uint(s.mean_ns)))
        }),
        summary_document(Some(s)) == JsonView::Object(summary_members(s)),
        summary_document(None) == JsonView::Null,
{
    let m = summary_members(s);
    assert(m[0] == ("count"@, JsonView::Uint(s.count as u64)));
    assert(m[1] == ("min_ns"@, JsonView::Uint(s.min_ns)));
    assert(m[2] == ("p50_ns"@, JsonView::Uint(s.p50_ns)));
    assert(m[3] == ("p95_ns"@, JsonView::Uint(s.p95_ns)));
    assert(m[4] == ("p99_ns"@, JsonView::Uint(s.p99_ns)));
    assert(m[5] == ("max_ns"@, JsonView::Uint(s.max_ns)));
    assert(m[6] == ("mean_ns"@, JsonView::Uint(s.mean_ns)));
}

/// The configuration of a report is written member by member, each under its own name.
pub proof fn a_configuration_is_written_under_its_names(report: &Report)
    ensures
        ({
            let c = report.config;
            let m = report.config_members();
            &&& m.len() == 7
            &&& m.contains(("publishers"@, JsonView::Uint(c.publishers as u64)))
            &&& m.contains(("subscribers"@, JsonView::Uint(c.subscribers as u64)))
            &&& m.contains(("qos"@, JsonView::Uint(c.qos as u64)))
            &&& m.contains(("payload_size"@, JsonView::Uint(c.payload_size as u64)))
            &&& m.contains(("inflight"@, JsonView::Uint(c.inflight as u64)))
            &&& c.rate is None ==> m.contains(("rate"@, JsonView::Null))
            &&& c.rate matches Some(rate) ==> m.contains(("rate"@, JsonView::Number(rate.json@)))
            &&& m.contains(("topic_prefix"@, JsonView::Text(c.topic_prefix@)))
        }),
{
    let c = report.config;
    let m = report.config_members();
    assert(m[0] == ("publishers"@, JsonView::Uint(c.publishers as u64)));
    assert(m[1] == ("subscribers"@, JsonView::Uint(c.subscribers as u64)));
    assert(m[2] == ("qos"@, JsonView::Uint(c.qos as u64)));
    assert(m[3] == ("payload_size"@, JsonView::Uint(c.payload_size as u64)));
    assert(m[4] == ("inflight"@, JsonView::Uint(c.inflight as u64)));
    assert(m[5].0 == "rate"@);
    assert(m[6] == ("topic_prefix"@, JsonView::Text(c.topic_prefix@)));
    match c.rate {
        Some(rate) => {
            assert(m[5] == ("rate"@, JsonView::Number(rate.json@)));
        },
        None => {
            assert(m[5] == ("rate"@, JsonView::Null));
        },
    }
}

/// The counters of a report are written member by member, each under its own name.
pub proof fn counters_are_written_under_their_names(report: &Report)
    ensures
        ({
            let t = report.totals;
            let m = report.counters_members();
            &&& m.len() == 7
            &&& m.contains(("published"@, JsonView::Uint(t.published)))
            &&& m.contains(("acknowledged"@, JsonView::Uint(t.acknowledged)))
            &&& m.contains(("received"@, JsonView::Uint(t.received)))
            &&& m.contains(("bytes_sent"@, JsonView::Uint(t.bytes_sent)))
            &&& m.contains(("bytes_received"@, JsonView::Uint(t.bytes_received)))
            &&& m.contains(("publish_errors"@, JsonView::Uint(t.publish_errors)))
            &&& m.contains(("refused"@, JsonView::Object(refused_members(t.refused@, 256))))
        }),
{
    let t = report.totals;
    let m = report.counters_members();
    assert(m[0] == ("published"@, JsonView::Uint(t.published)));
    assert(m[1] == ("acknowledged"@, JsonView::Uint(t.acknowledged)));
    assert(m[2] == ("received"@, JsonView::Uint(t.received)));
    assert(m[3] == ("bytes_sent"@, JsonView::Uint(t.bytes_sent)));
    assert(m[4] == ("bytes_received"@, JsonView::Uint(t.bytes_received)));
    assert(m[5] == ("publish_errors"@, JsonView::Uint(t.publish_errors)));
    assert(m[6] == ("refused"@, JsonView::Object(refused_members(t.refused@, 256))));
}

/// A report is written part by part, each under its own name, and says whether the run was a
/// success.
pub proof fn a_report_is_written_under_its_names(report: &Report, figures: Figures)
    ensures
        ({
            let m = report.document_members(figures);
            &&& m.len() == 7
            &&& m.contains(("config"@, JsonView::Object(report.config_members())))
            &&& m.contains(("elapsed_secs"@, JsonView::Number(figures.elapsed_secs.json@)))
            &&& m.contains(("counters"@, JsonView::Object(report.counters_members())))
            &&& m.contains(("throughput"@, JsonView::Object(Report::throughput_members(figures))))
            &&& m.contains(("latency"@, JsonView::Object(report.latency_members())))
            &&& m.contains(
                ("task_failures"@, JsonView::List(json::text_items(report.task_failures@))),
            )
            &&& m.contains(("success"@, JsonView::Bool(report.spec_success())))
        }),
        ({
            let m = Report::throughput_members(figures);
            &&& m.len() == 2
            &&& m.contains(("published_per_sec"@, JsonView::Number(figures.publish_rate.json@)))
            &&& m.contains(("received_per_sec"@, JsonView::Number(figures.receive_rate.json@)))
        }),
        ({
            let m = report.latency_members();
            &&& m.len() == 3
            &&& m.contains(("ack"@, summary_document(report.ack)))
            &&& m.contains(("end_to_end"@, summary_document(report.end_to_end)))
            &&& m.contains(("end_to_end_disabled"@, JsonView::Bool(report.end_to_end_disabled)))
        }),
{
    let m = report.document_members(figures);
    assert(m[0] == ("config"@, JsonView::Object(report.config_members())));
    assert(m[1] == ("elapsed_secs"@, JsonView::Number(figures.elapsed_secs.json@)));
    assert(m[2] == ("counters"@, JsonView::Object(report.counters_members())));
    assert(m[3] == ("throughput"@, JsonView::Object(Report::throughput_members(figures))));
    assert(m[4] == ("latency"@, JsonView::Object(report.latency_members())));
    assert(m[5] == ("task_failures"@, JsonView::List(json::text_items(report.task_failures@))));
    assert(m[6] == ("success"@, JsonView::Bool(report.spec_success())));
    let t = Report::throughput_members(figures);
    assert(t[0] == ("published_per_sec"@, JsonView::Number(figures.publish_rate.json@)));
    assert(t[1] == ("received_per_sec"@, JsonView::Number(figures.receive_rate.json@)));
    let l = report.latency_members();
    assert(l[0] == ("ack"@, summary_document(report.ack)));
    assert(l[1] == ("end_to_end"@, summary_document(report.end_to_end)));
    assert(l[2] == ("end_to_end_disabled"@, JsonView::Bool(report.end_to_end_disabled)));
}

proof fn lemma_refusal_names(a: u8, b: u8)
    requires
        "0x"@ + text::upper_hex_byte_text(a) == "0x"@ + text::upper_hex_byte_text(b),
    ensures
        a == b,
{
    let head = "0x"@;
    let x = text::upper_hex_byte_text(a);
    let y = text::upper_hex_byte_text(b);
    assert((head + x).skip(head.len() as int) =~= x);
    assert((head + y).skip(head.len() as int) =~= y);
    text::upper_hex_reads_back(a);
    text::upper_hex_reads_back(b);
}

/// Every reason code that the broker refused messages with is written with its count, under the
/// code's two digits behind `0x`, and no other is.
pub proof fn every_refusal_is_written(refused: Map<u8, u64>, codes: nat, byte: u8, count: u64)
    requires
        codes <= 256,
    ensures
        refused_members(refused, codes).contains(
            ("0x"@ + text::upper_hex_byte_text(byte), JsonView::Uint(count)),
        ) <==> byte < codes && refused.contains_key(byte) && refused[byte] == count,
        refused_members(refused, codes).len() <= codes,
    decreases codes,
{
    let member = ("0x"@ + text::upper_hex_byte_text(byte), JsonView::Uint(count));
    let all = refused_members(refused, codes);
    if codes > 0 {
        let before = refused_members(refused, (codes - 1) as nat);
        let last = (codes - 1) as u8;
        every_refusal_is_written(refused, (codes - 1) as nat, byte, count);
        if before.contains(member) {
            let i = choose|i: int| 0 <= i < before.len() && before[i] == member;
            assert(all[i] == member);
        }
        if refused.contains_key(last) {
            let added = ("0x"@ + text::upper_hex_byte_text(last), JsonView::Uint(refused[last]));
            assert(all[all.len() - 1] == added);
            if added == member {
                lemma_refusal_names(last, byte);
            }
            if all.contains(member) && !before.contains(member) {
                let i = choose|i: int| 0 <= i < all.len() && all[i] == member;
                if i < before.len() {
                    assert(before[i] == member);
                }
                assert(added == member);
            }
        }
    }
}

proof fn lemma_regroup_three(x: Seq<char>, a: Seq<char>, b: Seq<char>, c: Seq<char>)
    ensures
        x + a + b == x + (a + b),
        x + a + b + c == x + (a + b + c),
{
    assert(x + a + b =~= x + (a + b));
    assert(x + a + b + c =~= x + (a + b + c));
}

proof fn lemma_regroup_five(
    x: Seq<char>,
    a: Seq<char>,
    b: Seq<char>,
    c: Seq<char>,
    d: Seq<char>,
    e: Seq<char>,
)
    ensures
        x + a + b + c + d + e == x + (a + b + c + d + e),
{
    lemma_regroup_three(x, a, b, c);
    lemma_regroup_three(x, a + b + c, d, e);
}

/// The row of one counter: its name and its number.
pub open spec fn counter_row(name: Seq<char>, count: u64) -> Seq<char> {
    name + count_cell(count) + "\n"@
}

/// The row of one counter that also has a rate.
pub open spec fn rated_row(name: Seq<char>, count: u64, rate: Seq<char>) -> Seq<char> {
    name + count_cell(count) + "  ("@ + rate + "/s)\n"@
}

/// A number in its column is the number, behind blanks that make it twelve characters wide.
pub proof fn a_cell_shows_its_number(count: u64)
    ensures
        count_cell(count).len() >= 12,
        ({
            let digits = text::decimal_text(count as nat);
            let pad = count_cell(count).len() - digits.len();
            &&& pad >= 0
            &&& pad > 0 ==> count_cell(count).len() == 12
            &&& count_cell(count).skip(pad) == digits
            &&& forall|i: int| 0 <= i < pad ==> #[trigger] count_cell(count)[i] == ' '
        }),
{
    text::alignment_keeps_the_text(text::decimal_text(count as nat), 12);
}

/// Every counter has a row of its own, with its number behind its name, and the counts of messages
/// with their rates.
pub proof fn every_counter_has_its_row(report: &Report, figures: Figures)
    ensures
        ({
            let rows = report.counter_rows(figures);
            let t = report.totals;
            &&& text::holds(
                rows,
                rated_row("  published       "@, t.published, figures.publish_rate.shown@),
            )
            &&& text::holds(rows, counter_row("  acknowledged    "@, t.acknowledged))
            &&& text::holds(
                rows,
                rated_row("  received        "@, t.received, figures.receive_rate.shown@),
            )
            &&& text::holds(rows, counter_row("  bytes sent      "@, t.bytes_sent))
            &&& text::holds(rows, counter_row("  bytes received  "@, t.bytes_received))
            &&& text::holds(rows, counter_row("  publish errors  "@, t.publish_errors))
        }),
{
    let t = report.totals;
    let nl = "\n"@;
    let per = "/s)\n"@;
    let open = "  ("@;
    let r1 = rated_row("  published       "@, t.published, figures.publish_rate.shown@);
    let r2 = counter_row("  acknowledged    "@, t.acknowledged);
    let r3 = rated_row("  received        "@, t.received, figures.receive_rate.shown@);
    let r4 = counter_row("  bytes sent      "@, t.bytes_sent);
    let r5 = counter_row("  bytes received  "@, t.bytes_received);
    let r6 = counter_row("  publish errors  "@, t.publish_errors);
    lemma_regroup_three(r1, "  acknowledged    "@, count_cell(t.acknowledged), nl);
    lemma_regroup_five(
        r1 + r2,
        "  received        "@,
        count_cell(t.received),
        open,
        figures.receive_rate.shown@,
        per,
    );
    lemma_regroup_three(r1 + r2 + r3, "  bytes sent      "@, count_cell(t.bytes_sent), nl);
    lemma_regroup_three(
        r1 + r2 + r3 + r4,
        "  bytes received  "@,
        count_cell(t.bytes_received),
        nl,
    );
    lemma_regroup_three(
        r1 + r2 + r3 + r4 + r5,
        "  publish errors  "@,
        count_cell(t.publish_errors),
        nl,
    );
    let four = r1 + r2 + r3 + r4;
    let rows = four + r5 + r6;
    assert(report.counter_rows(figures) == rows);
    lemma_six_held(r1, r2, r3, r4, r5, r6);
}

proof fn lemma_six_held(
    a: Seq<char>,
    b: Seq<char>,
    c: Seq<char>,
    d: Seq<char>,
    e: Seq<char>,
    f: Seq<char>,
)
    ensures
        text::holds(a + b + c + d + e + f, a),
        text::holds(a + b + c + d + e + f, b),
        text::holds(a + b + c + d + e + f, c),
        text::holds(a + b + c + d + e + f, d),
        text::holds(a + b + c + d + e + f, e),
        text::holds(a + b + c + d + e + f, f),
{
    let four = a + b + c + d;
    text::lemma_four_held(a, b, c, d);
    text::lemma_holds_appended(four, a, e);
    text::lemma_holds_appended(four, b, e);
    text::lemma_holds_appended(four, c, e);
    text::lemma_holds_appended(four, d, e);
    text::lemma_holds_appended(four + e, a, f);
    text::lemma_holds_appended(four + e, b, f);
    text::lemma_holds_appended(four + e, c, f);
    text::lemma_holds_appended(four + e, d, f);
    text::lemma_holds_appended(four + e, e, f);
}

/// The first line of the table gives every number of the configuration with what it counts.
pub proof fn the_first_row_gives_the_configuration(report: &Report)
    ensures
        ({
            let row = report.config_row();
            let c = report.config;
            &&& text::holds(row, text::decimal_text(c.publishers as nat) + " publishers, "@)
            &&& text::holds(
                row,
                text::decimal_text(c.subscribers as nat) + " subscribers, QoS "@
                    + text::decimal_text(c.qos as nat),
            )
            &&& text::holds(
                row,
                text::decimal_text(c.payload_size as nat) + " B payload, inflight "@
                    + text::decimal_text(c.inflight as nat),
            )
            &&& text::holds(row, offered_text(c.rate) + ", prefix "@ + c.topic_prefix@)
        }),
{
    let c = report.config;
    let head = "config: "@;
    let comma = ", "@;
    let publishers = text::decimal_text(c.publishers as nat);
    let subscribers = text::decimal_text(c.subscribers as nat);
    let qos = text::decimal_text(c.qos as nat);
    let size = text::decimal_text(c.payload_size as nat);
    let inflight = text::decimal_text(c.inflight as nat);
    let g1 = publishers + " publishers, "@;
    let g2 = subscribers + " subscribers, QoS "@ + qos;
    let g3 = size + " B payload, inflight "@ + inflight;
    let g4 = offered_text(c.rate) + ", prefix "@ + c.topic_prefix@;
    let w1 = head + g1 + g2 + comma;
    let w2 = w1 + g3 + comma + g4;
    lemma_regroup_three(head, publishers, " publishers, "@, subscribers);
    lemma_regroup_three(head + g1, subscribers, " subscribers, QoS "@, qos);
    lemma_regroup_three(w1, size, " B payload, inflight "@, inflight);
    lemma_regroup_three(w1 + g3 + comma, offered_text(c.rate), ", prefix "@, c.topic_prefix@);
    let row = w2 + "\n"@;
    assert(report.config_row() == row);
    text::lemma_four_held(head, g1, g2, comma);
    text::lemma_four_held(w1, g3, comma, g4);
    text::lemma_holds_transitive(w2, w1, g1);
    text::lemma_holds_transitive(w2, w1, g2);
    text::lemma_holds_appended(w2, g1, "\n"@);
    text::lemma_holds_appended(w2, g2, "\n"@);
    text::lemma_holds_appended(w2, g3, "\n"@);
    text::lemma_holds_appended(w2, g4, "\n"@);
}

/// A load that was offered is shown with its number, and one without a rate as unthrottled.
pub proof fn the_offered_load_is_shown(rate: Option<Figure>)
    ensures
        rate matches Some(figure) ==> figure.shown@.is_prefix_of(offered_text(rate)),
        rate is None ==> offered_text(rate) == "unthrottled"@,
{
    if let Some(figure) = rate {
        assert(figure.shown@ =~= offered_text(rate).take(figure.shown@.len() as int));
    }
}

/// A latency distribution says how many samples it is made of and has a row for each of its
/// numbers; one that was not measured says why.
pub proof fn every_latency_has_its_row(
    label: Seq<char>,
    summary: Option<Summary>,
    millis: LatencyMillis,
    why: Seq<char>,
)
    ensures
        ({
            let rows = latency_rows(label, summary, millis, why);
            &&& text::holds(rows, label)
            &&& summary is None ==> text::holds(rows, why)
            &&& summary matches Some(s) ==> {
                &&& text::holds(
                    rows,
                    label + " ("@ + text::decimal_text(s.count as nat) + " samples)\n"@,
                )
                &&& text::holds(rows, latency_row("min "@, millis.min@))
                &&& text::holds(rows, latency_row("p50 "@, millis.p50@))
                &&& text::holds(rows, latency_row("p95 "@, millis.p95@))
                &&& text::holds(rows, latency_row("p99 "@, millis.p99@))
                &&& text::holds(rows, latency_row("max "@, millis.max@))
                &&& text::holds(rows, latency_row("mean"@, millis.mean@))
            }
        }),
{
    match summary {
        Some(s) => {
            let count = text::decimal_text(s.count as nat);
            let head = label + " ("@ + count + " samples)\n"@;
            text::lemma_four_held(label, " ("@, count, " samples)\n"@);
            let a = latency_row("min "@, millis.min@);
            let b = latency_row("p50 "@, millis.p50@);
            let c = latency_row("p95 "@, millis.p95@);
            let d = latency_row("p99 "@, millis.p99@);
            let e = latency_row("max "@, millis.max@);
            let f = latency_row("mean"@, millis.mean@);
            let most = head + a + b + c + d + e;
            lemma_six_held(head, a, b, c, d, e);
            text::lemma_holds_appended(most, head, f);
            text::lemma_holds_appended(most, a, f);
            text::lemma_holds_appended(most, b, f);
            text::lemma_holds_appended(most, c, f);
            text::lemma_holds_appended(most, d, f);
            text::lemma_holds_appended(most, e, f);
            text::lemma_holds_transitive(most + f, head, label);
        },
        None => {
            text::lemma_four_held(label, ": not measured ("@, why, ")\n"@);
        },
    }
}

/// The row of a latency is its name and its milliseconds, ten characters wide, or as wide as they
/// are where they need more.
pub proof fn a_latency_row_shows_its_number(name: Seq<char>, millis: Seq<char>)
    ensures
        text::holds(latency_row(name, millis), "  "@ + name + " "@),
        text::holds(latency_row(name, millis), millis + " ms\n"@),
        ({
            let rest = "  "@.len() + name.len() + " "@.len() + " ms\n"@.len();
            &&& millis.len() <= 10 ==> latency_row(name, millis).len() == rest + 10
            &&& millis.len() > 10 ==> latency_row(name, millis).len() == rest + millis.len()
        }),
{
    let cell = text::right_aligned(millis, 10);
    text::alignment_keeps_the_text(millis, 10);
    let pad = cell.len() - millis.len();
    let head = "  "@ + name + " "@;
    let row = latency_row(name, millis);
    text::lemma_four_held(head, cell, " ms\n"@, Seq::empty());
    assert(head + cell + " ms\n"@ + Seq::<char>::empty() =~= row);
    assert(cell =~= cell.take(pad) + millis);
    assert(row =~= head + cell.take(pad) + (millis + " ms\n"@));
    text::lemma_holds_appended(head + cell.take(pad), head, millis + " ms\n"@);
}

/// Every reason code that the broker refused messages with has a row in the table.
pub proof fn every_refusal_has_its_row(refused: Map<u8, u64>, codes: nat, byte: u8)
    requires
        codes <= 256,
        byte < codes,
        refused.contains_key(byte),
    ensures
        text::holds(refused_rows(refused, codes), refused_line(byte, refused[byte])),
    decreases codes,
{
    let last = (codes - 1) as u8;
    let before = refused_rows(refused, (codes - 1) as nat);
    let line = refused_line(byte, refused[byte]);
    if byte == last {
        text::lemma_holds_appended(before, line, line);
    } else {
        every_refusal_has_its_row(refused, (codes - 1) as nat, byte);
        let more = if refused.contains_key(last) {
            refused_line(last, refused[last])
        } else {
            Seq::empty()
        };
        text::lemma_holds_appended(before, line, more);
    }
}

/// Without refusals there are no rows for them.
pub proof fn no_refusal_has_no_row(refused: Map<u8, u64>, codes: nat)
    requires
        codes <= 256,
        forall|byte: u8| !(#[trigger] refused.contains_key(byte)),
    ensures
        refused_rows(refused, codes) == Seq::<char>::empty(),
        refused_members(refused, codes).len() == 0,
    decreases codes,
{
    if codes > 0 {
        no_refusal_has_no_row(refused, (codes - 1) as nat);
    }
}

/// The row of a refusal gives the reason code's two digits and the count.
pub proof fn a_refusal_row_gives_code_and_count(byte: u8, count: u64)
    ensures
        text::holds(refused_line(byte, count), "0x"@ + text::upper_hex_byte_text(byte)),
        text::holds(refused_line(byte, count), count_cell(count)),
{
    reveal_strlit("  refused 0x");
    reveal_strlit("0x");
    let code = text::upper_hex_byte_text(byte);
    let head = "  refused 0x"@ + code;
    let at = "  refused 0x"@.len() as int - 2;
    assert(head.subrange(at, at + ("0x"@ + code).len()) =~= "0x"@ + code);
    assert(text::holds_at(head, "0x"@ + code, at));
    text::lemma_four_held(head, "     "@, count_cell(count), "\n"@);
    text::lemma_holds_transitive(refused_line(byte, count), head, "0x"@ + code);
}

/// Every failed task has a row in the table.
pub proof fn every_failure_has_its_row(failures: Seq<String>, n: nat, i: int)
    requires
        0 <= i < n <= failures.len(),
    ensures
        text::holds(failure_rows(failures, n), "  task failed: "@ + failures[i]@ + "\n"@),
        failure_rows(failures, 0) == Seq::<char>::empty(),
    decreases n,
{
    let before = failure_rows(failures, (n - 1) as nat);
    let row = "  task failed: "@ + failures[i]@ + "\n"@;
    let last = "  task failed: "@ + failures[n - 1]@ + "\n"@;
    lemma_regroup_three(before, "  task failed: "@, failures[n - 1]@, "\n"@);
    if i < n - 1 {
        every_failure_has_its_row(failures, (n - 1) as nat, i);
    }
    text::lemma_holds_appended(before, row, last);
}

/// The table shows the configuration, the time the run took, the counters, the refusals, the failed
/// tasks and both latency distributions, each with its own numbers.
pub proof fn the_table_shows_every_part(report: &Report, figures: Figures)
    ensures
        ({
            let table = report.table(figures);
            &&& report.config_row().is_prefix_of(table)
            &&& text::holds(table, "elapsed:  "@ + figures.elapsed_secs.shown@ + " s\n"@)
            &&& text::holds(table, report.counter_rows(figures))
            &&& text::holds(table, refused_rows(report.totals.refused@, 256))
            &&& text::holds(
                table,
                failure_rows(report.task_failures@, report.task_failures@.len()),
            )
            &&& text::holds(
                table,
                latency_rows("ack latency"@, report.ack, figures.ack, "no samples"@),
            )
            &&& text::holds(
                table,
                latency_rows(
                    "end-to-end latency"@,
                    report.end_to_end,
                    figures.end_to_end,
                    report.end_to_end_reason(),
                ),
            )
        }),
        report.end_to_end_disabled ==> report.end_to_end_reason()
            == "payload too small for the measurement header"@,
        !report.end_to_end_disabled ==> report.end_to_end_reason() == "no samples"@,
{
    let config = report.config_row();
    let elapsed = "elapsed:  "@ + figures.elapsed_secs.shown@ + " s\n"@;
    let nl = "\n"@;
    let counters = report.counter_rows(figures);
    let refused = refused_rows(report.totals.refused@, 256);
    let failed = failure_rows(report.task_failures@, report.task_failures@.len());
    let ack = latency_rows("ack latency"@, report.ack, figures.ack, "no samples"@);
    let end = latency_rows(
        "end-to-end latency"@,
        report.end_to_end,
        figures.end_to_end,
        report.end_to_end_reason(),
    );
    lemma_regroup_three(config, "elapsed:  "@, figures.elapsed_secs.shown@, " s\n"@);
    let w1 = config + elapsed + nl + counters;
    let w2 = w1 + refused + failed + nl;
    let table = w2 + ack + end;
    assert(report.table(figures) == table);
    lemma_table_parts(config, elapsed, nl, counters, refused, failed, ack, end);
}

proof fn lemma_table_parts(
    config: Seq<char>,
    elapsed: Seq<char>,
    nl: Seq<char>,
    counters: Seq<char>,
    refused: Seq<char>,
    failed: Seq<char>,
    ack: Seq<char>,
    end: Seq<char>,
)
    ensures
        ({
            let table = config + elapsed + nl + counters + refused + failed + nl + ack + end;
            &&& config.is_prefix_of(table)
            &&& text::holds(table, elapsed)
            &&& text::holds(table, counters)
            &&& text::holds(table, refused)
            &&& text::holds(table, failed)
            &&& text::holds(table, ack)
            &&& text::holds(table, end)
        }),
{
    let w1 = config + elapsed + nl + counters;
    let w2 = w1 + refused + failed + nl;
    let table = w2 + ack + end;
    text::lemma_four_held(config, elapsed, nl, counters);
    text::lemma_four_held(w1, refused, failed, nl);
    text::lemma_holds_appended(w2, w1, ack);
    text::lemma_holds_appended(w2, refused, ack);
    text::lemma_holds_appended(w2, failed, ack);
    text::lemma_holds_appended(w2 + ack, w1, end);
    text::lemma_holds_appended(w2 + ack, refused, end);
    text::lemma_holds_appended(w2 + ack, failed, end);
    text::lemma_holds_appended(w2 + ack, ack, end);
    text::lemma_holds_transitive(table, w1, elapsed);
    text::lemma_holds_transitive(table, w1, counters);
    assert(config =~= w1.take(config.len() as int));
    assert(w1 =~= w2.take(w1.len() as int));
    assert(w2 =~= table.take(w2.len() as int));
    assert(w2.take(w1.len() as int).take(config.len() as int) =~= w2.take(config.len() as int));
    assert(table.take(w2.len() as int).take(config.len() as int) =~= table.take(
        config.len() as int,
    ));
}

} // verus!
