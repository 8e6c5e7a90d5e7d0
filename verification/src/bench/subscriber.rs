//! One subscribing connection: subscribe, acknowledge inbound messages, and time each one from its
//! measurement header to receipt.

use crate::bench::payload;
use crate::bench::stats::{Counters, Samples, Tally};
use crate::bench::Config;
use crate::clock::Instant;
use crate::error::{Error, ErrorView};
use crate::mqtt::packet::{Packet, Properties, PropertiesView, PubAck, Publish, ReadOutcome, Subscribe, SubscribeView, TopicFilter, TopicFilterView};
use crate::mqtt::types::QoS;
use crate::subscribe;
use crate::text;
use vstd::prelude::*;

verus! {

/// The one SUBSCRIBE of a subscriber.
pub open spec fn subscribe_view(config: &Config) -> SubscribeView {
    SubscribeView {
        packet_id: 1,
        properties: PropertiesView::empty(),
        filters: seq![TopicFilterView::plain(config.spec_subscribe_filter(), config.qos)],
    }
}

/// The one SUBSCRIBE of a subscriber.
pub fn subscribe_packet(config: &Config) -> (packet: Subscribe)
    ensures
        packet@ == subscribe_view(config),
{
    let mut filters: Vec<TopicFilter> = Vec::new();
    filters.push(TopicFilter::plain(config.subscribe_filter().as_str(), config.qos));
    let packet = Subscribe { packet_id: 1, properties: Properties::new(), filters };
    assert(packet@.filters =~= seq![
        TopicFilterView::plain(config.spec_subscribe_filter(), config.qos),
    ]);
    packet
}

/// What reading the connection says to a subscriber waiting for SUBACK: whether it is subscribed.
pub open spec fn suback_of(index: u32, outcome: ReadOutcome) -> Result<bool, ErrorView> {
    match outcome {
        ReadOutcome::Packet(Packet::Suback(ack)) => match subscribe::first_refused(
            ack.reason_codes@,
            ack.reason_codes@.len(),
        ) {
            Some(i) => Err(
                ErrorView::Rejected {
                    what: "subscription for subscriber "@ + text::decimal_text(index as nat),
                    code: ack.reason_codes@[i as int],
                },
            ),
            None => Ok(true),
        },
        ReadOutcome::Packet(_) => Ok(false),
        ReadOutcome::Eof => Err(ErrorView::Disconnected("while subscribing"@)),
    }
}

/// The connection was read while waiting for SUBACK. The run must not start publishing until every
/// subscriber is subscribed, or the first messages are delivered to nobody.
pub fn check_suback(index: u32, outcome: &ReadOutcome) -> (res: Result<bool, Error>)
    ensures
        match (res, suback_of(index, *outcome)) {
            (Ok(done), Ok(expected)) => done == expected,
            (Err(e), Err(fault)) => e@ == fault,
            _ => false,
        },
{
    match outcome {
        ReadOutcome::Packet(Packet::Suback(ack)) => {
            match subscribe::find_refused(&ack.reason_codes) {
                Some(i) => {
                    let mut what = String::from_str("subscription for subscriber ");
                    what.append(text::decimal(index as u64).as_str());
                    Err(Error::Rejected { what, code: ack.reason_codes[i] })
                },
                None => Ok(true),
            }
        },
        ReadOutcome::Packet(_) => Ok(false),
        ReadOutcome::Eof => Err(Error::Disconnected(String::from_str("while subscribing"))),
    }
}

/// The end-to-end latency of a message, when it can be told: the payload carries a header, the
/// message was sent after the warm-up, and not later than it was received.
pub open spec fn end_to_end(
    payload: Seq<u8>,
    received_at: Instant,
    warmup_until: Instant,
) -> Option<u64> {
    match payload::header_of(payload) {
        Some(header) => if warmup_until.nanos <= header.elapsed_ns <= received_at.nanos {
            Some((received_at.nanos - header.elapsed_ns) as u128 as u64)
        } else {
            None
        },
        None => None,
    }
}

/// What to do about what was read.
pub enum Next {
    /// Send the reply, if there is one, and go on.
    Continue(Option<Packet>),
    /// Nothing further will arrive on this connection: wait for the end of the run.
    WaitForStop,
}

/// One subscribing connection.
pub struct Subscriber {
    index: u32,
    samples: Samples,
}

/// What a subscriber knows.
#[verifier::ext_equal]
pub struct SubscriberView {
    pub index: u32,
    /// The end-to-end latencies.
    pub samples: Seq<u64>,
}

impl View for Subscriber {
    type V = SubscriberView;

    closed spec fn view(&self) -> SubscriberView {
        SubscriberView { index: self.index, samples: self.samples@ }
    }
}

impl SubscriberView {
    /// A subscriber that has just been subscribed.
    pub open spec fn fresh(index: u32) -> SubscriberView {
        SubscriberView { index, samples: Seq::empty() }
    }

    /// After the connection was read at `received_at`.
    pub open spec fn after(
        self,
        outcome: ReadOutcome,
        received_at: Instant,
        warmup_until: Instant,
    ) -> SubscriberView {
        match outcome {
            ReadOutcome::Packet(Packet::Publish(p)) => match end_to_end(
                p.payload@,
                received_at,
                warmup_until,
            ) {
                Some(nanos) => SubscriberView { samples: self.samples.push(nanos), ..self },
                None => self,
            },
            _ => self,
        }
    }

    /// The counters after the connection was read: every message counts, timed or not.
    pub open spec fn tallied(tally: Tally, outcome: ReadOutcome) -> Tally {
        match outcome {
            ReadOutcome::Packet(Packet::Publish(p)) => tally.with_received(p.payload@.len() as u64),
            _ => tally,
        }
    }

    /// What to do about what was read.
    pub open spec fn next(self, outcome: ReadOutcome) -> Result<Next, ErrorView> {
        match outcome {
            ReadOutcome::Packet(Packet::Publish(p)) => Ok(
                Next::Continue(subscribe::acknowledgement(p.qos, p.packet_id)),
            ),
            ReadOutcome::Packet(Packet::Pubrel(rel)) => Ok(
                Next::Continue(Some(Packet::Pubcomp(PubAck::spec_success(rel.packet_id)))),
            ),
            ReadOutcome::Packet(Packet::Disconnect(d)) => Err(
                ErrorView::Rejected {
                    what: "subscriber "@ + text::decimal_text(self.index as nat),
                    code: d.reason_code,
                },
            ),
            ReadOutcome::Packet(_) => Ok(Next::Continue(None)),
            ReadOutcome::Eof => Ok(Next::WaitForStop),
        }
    }
}

impl Subscriber {
    /// The samples are in order.
    pub closed spec fn wf(&self) -> bool {
        self.samples.wf()
    }

    /// A subscriber that has just been subscribed.
    pub fn new(index: u32) -> (subscriber: Subscriber)
        ensures
            subscriber.wf(),
            subscriber@ == SubscriberView::fresh(index),
    {
        Subscriber { index, samples: Samples::new() }
    }

    /// The connection was read at `received_at`. A message without a plausible header is counted,
    /// not timed: the header is the broker's word, or cross-talk from another run sharing the
    /// topic prefix.
    pub fn on_read(
        &mut self,
        counters: &mut Counters,
        outcome: &ReadOutcome,
        received_at: Instant,
        warmup_until: Instant,
    ) -> (res: Result<Next, Error>)
        requires
            old(self).wf(),
        ensures
            final(self).wf(),
            final(self)@ == old(self)@.after(*outcome, received_at, warmup_until),
            final(counters)@ == SubscriberView::tallied(old(counters)@, *outcome),
            match (res, old(self)@.next(*outcome)) {
                (Ok(next), Ok(expected)) => next == expected,
                (Err(e), Err(fault)) => e@ == fault,
                _ => false,
            },
    {
        match outcome {
            ReadOutcome::Packet(Packet::Publish(p)) => {
                counters.record_received(p.payload.len() as u64);
                if let Some(header) = payload::decode(p.payload.as_slice()) {
                    let sent_at: u128 = header.elapsed_ns as u128;
                    if sent_at >= warmup_until.nanos && received_at.nanos >= sent_at {
                        self.samples.record(
                            #[verifier::truncate]
                            ((received_at.nanos - sent_at) as u64),
                        );
                    }
                }
                Ok(Next::Continue(subscribe::acknowledge(p)))
            },
            ReadOutcome::Packet(Packet::Pubrel(rel)) => Ok(
                Next::Continue(Some(Packet::Pubcomp(PubAck::success(rel.packet_id)))),
            ),
            ReadOutcome::Packet(Packet::Disconnect(d)) => {
                let mut what = String::from_str("subscriber ");
                what.append(text::decimal(self.index as u64).as_str());
                Err(Error::Rejected { what, code: d.reason_code })
            },
            ReadOutcome::Packet(_) => Ok(Next::Continue(None)),
            ReadOutcome::Eof => Ok(Next::WaitForStop),
        }
    }

    /// The end-to-end latencies.
    pub fn into_samples(self) -> (samples: Samples)
        requires
            self.wf(),
        ensures
            samples@ == self@.samples,
            samples.wf(),
    {
        self.samples
    }
}

/// A message that a publisher of this run built is timed from the moment its header holds, when it
/// was sent after the warm-up and received no earlier.
pub proof fn a_delivery_is_timed_from_its_header(
    size: nat,
    header: payload::Header,
    received_at: Instant,
    warmup_until: Instant,
)
    requires
        warmup_until.nanos <= header.elapsed_ns <= received_at.nanos <= u64::MAX,
    ensures
        end_to_end(payload::payload_bytes(size, header), received_at, warmup_until) matches Some(
            nanos,
        ) && nanos == received_at.nanos - header.elapsed_ns,
{
    payload::header_survives(size, header);
}

/// A message too short for a header, or one whose header claims it was sent after it arrived, is
/// counted like any other and leaves no sample.
pub proof fn an_untimed_message_still_counts(
    subscriber: SubscriberView,
    tally: Tally,
    p: Publish,
    received_at: Instant,
    warmup_until: Instant,
)
    requires
        match payload::header_of(p.payload@) {
            Some(header) => header.elapsed_ns > received_at.nanos,
            None => true,
        },
    ensures
        ({
            let outcome = ReadOutcome::Packet(Packet::Publish(p));
            &&& subscriber.after(outcome, received_at, warmup_until) == subscriber
            &&& SubscriberView::tallied(tally, outcome) == tally.with_received(
                p.payload@.len() as u64,
            )
        }),
{
}

/// A subscriber asks for every topic of the run at the run's quality of service, with one filter, a
/// packet identifier that is not zero, and no further options.
pub proof fn a_subscriber_asks_for_the_whole_run(config: &Config)
    ensures
        ({
            let packet = subscribe_view(config);
            &&& packet.packet_id == 1
            &&& packet.properties == PropertiesView::empty()
            &&& packet.filters.len() == 1
            &&& packet.filters[0].filter == config.spec_subscribe_filter()
            &&& packet.filters[0].qos == config.qos
            &&& packet.filters[0] == TopicFilterView::plain(
                config.spec_subscribe_filter(),
                config.qos,
            )
        }),
{
}

/// A subscriber has its own number and no samples at first.
pub proof fn a_subscriber_starts_without_samples(index: u32)
    ensures
        SubscriberView::fresh(index).index == index,
        SubscriberView::fresh(index).samples.len() == 0,
{
}

/// A subscriber is subscribed exactly by a SUBACK that refuses nothing. One that refuses something
/// fails it with a refusing code, in its own name, and so does the end of the connection; any other
/// packet leaves it waiting.
pub proof fn only_a_good_suback_subscribes(index: u32, outcome: ReadOutcome)
    ensures
        outcome is Eof ==> suback_of(index, outcome) matches Err(ErrorView::Disconnected(_)),
        outcome matches ReadOutcome::Packet(packet) ==> {
            &&& packet !is Suback ==> suback_of(index, outcome) == Ok::<bool, ErrorView>(false)
            &&& packet matches Packet::Suback(ack) ==> {
                let refused = exists|i: int|
                    0 <= i < ack.reason_codes@.len() && (
                    #[trigger] ack.reason_codes@[i]).spec_is_error();
                &&& !refused ==> suback_of(index, outcome) == Ok::<bool, ErrorView>(true)
                &&& refused ==> (suback_of(index, outcome) matches Err(
                    ErrorView::Rejected { what, code },
                ) && code.spec_is_error() && ack.reason_codes@.contains(code) && text::holds(
                    what,
                    text::decimal_text(index as nat),
                ))
            }
        },
{
    if let ReadOutcome::Packet(Packet::Suback(ack)) = outcome {
        let codes = ack.reason_codes@;
        subscribe::a_refused_filter_is_named(codes, codes.len());
        let number = text::decimal_text(index as nat);
        text::lemma_holds_appended("subscription for subscriber "@, number, number);
        if let Some(i) = subscribe::first_refused(codes, codes.len()) {
            assert(codes[i as int].spec_is_error());
            assert(codes.contains(codes[i as int]));
        }
    }
}

/// A message leaves one sample, the time from the moment in its header to its receipt, exactly when
/// that moment lies after the warm-up and not after the receipt; what is no message leaves none.
pub proof fn a_delivery_leaves_one_sample(
    subscriber: SubscriberView,
    p: Publish,
    other: Packet,
    received_at: Instant,
    warmup_until: Instant,
)
    requires
        received_at.nanos <= u64::MAX,
        other !is Publish,
    ensures
        ({
            let after = subscriber.after(
                ReadOutcome::Packet(Packet::Publish(p)),
                received_at,
                warmup_until,
            );
            &&& after.index == subscriber.index
            &&& payload::header_of(p.payload@) is None ==> after == subscriber
            &&& payload::header_of(p.payload@) matches Some(header) ==> {
                let sent_at = header.elapsed_ns;
                &&& sent_at < warmup_until.nanos ==> after == subscriber
                &&& sent_at > received_at.nanos ==> after == subscriber
                &&& warmup_until.nanos <= sent_at <= received_at.nanos ==> {
                    &&& after.samples.len() == subscriber.samples.len() + 1
                    &&& after.samples.drop_last() == subscriber.samples
                    &&& after.samples.last() + sent_at == received_at.nanos
                }
            }
        }),
        subscriber.after(ReadOutcome::Packet(other), received_at, warmup_until) == subscriber,
        subscriber.after(ReadOutcome::Eof, received_at, warmup_until) == subscriber,
{
    let after = subscriber.after(
        ReadOutcome::Packet(Packet::Publish(p)),
        received_at,
        warmup_until,
    );
    if let Some(nanos) = end_to_end(p.payload@, received_at, warmup_until) {
        assert(after.samples.drop_last() =~= subscriber.samples);
    }
}

/// Every message that arrives is counted with its bytes, and nothing else is.
pub proof fn every_delivery_is_counted(tally: Tally, p: Publish, other: Packet)
    requires
        tally.received < u64::MAX,
        tally.bytes_received + p.payload@.len() <= u64::MAX,
        other !is Publish,
    ensures
        ({
            let after = SubscriberView::tallied(tally, ReadOutcome::Packet(Packet::Publish(p)));
            &&& after.received == tally.received + 1
            &&& after.bytes_received == tally.bytes_received + p.payload@.len()
            &&& after.published == tally.published
            &&& after.acknowledged == tally.acknowledged
            &&& after.bytes_sent == tally.bytes_sent
            &&& after.publish_errors == tally.publish_errors
            &&& after.refused == tally.refused
        }),
        SubscriberView::tallied(tally, ReadOutcome::Packet(other)) == tally,
        SubscriberView::tallied(tally, ReadOutcome::Eof) == tally,
{
}

/// A subscriber fails exactly on a DISCONNECT, with its reason code and in its own name, and waits
/// for the end of the run exactly when the connection has ended. It answers messages by their
/// quality of service, a PUBREL with the PUBCOMP of the same message, and nothing else.
pub proof fn a_subscriber_answers_what_it_reads(subscriber: SubscriberView, outcome: ReadOutcome)
    ensures
        subscriber.next(outcome) is Err <==> (outcome matches ReadOutcome::Packet(packet)
            && packet is Disconnect),
        subscriber.next(outcome) == Ok::<Next, ErrorView>(Next::WaitForStop) <==> outcome is Eof,
        outcome matches ReadOutcome::Packet(packet) ==> {
            &&& packet matches Packet::Disconnect(d) ==> (subscriber.next(outcome) matches Err(
                ErrorView::Rejected { what, code },
            ) && code == d.reason_code && text::holds(
                what,
                text::decimal_text(subscriber.index as nat),
            ))
            &&& packet matches Packet::Pubrel(rel) ==> (subscriber.next(outcome) matches Ok(
                Next::Continue(Some(Packet::Pubcomp(comp))),
            ) && comp.packet_id == rel.packet_id && !comp.reason_code.spec_is_error())
            &&& packet matches Packet::Publish(p) ==> {
                let reply = subscriber.next(outcome);
                &&& p.packet_id is None || p.qos == QoS::AtMostOnce ==> reply == Ok::<
                    Next,
                    ErrorView,
                >(Next::Continue(None))
                &&& p.qos == QoS::AtLeastOnce ==> (p.packet_id matches Some(id) ==> (
                reply matches Ok(Next::Continue(Some(Packet::Puback(ack)))) && ack.packet_id
                    == id && !ack.reason_code.spec_is_error()))
                &&& p.qos == QoS::ExactlyOnce ==> (p.packet_id matches Some(id) ==> (
                reply matches Ok(Next::Continue(Some(Packet::Pubrec(rec)))) && rec.packet_id
                    == id && !rec.reason_code.spec_is_error()))
            }
            &&& packet !is Disconnect && packet !is Pubrel && packet !is Publish
                ==> subscriber.next(outcome) == Ok::<Next, ErrorView>(Next::Continue(None))
        },
{
    let number = text::decimal_text(subscriber.index as nat);
    text::lemma_holds_appended("subscriber "@, number, number);
}

} // verus!
