//! One publishing connection: a write side that paces sends and holds the in-flight window, and a
//! read side that matches acknowledgements.
//!
//! QoS 2's exchange splits across both halves: the read side sees a PUBREC, but only the write
//! side may write. It leaves the identifier with the publisher, and the write side takes what is
//! owed between publishes and sends one PUBREL for each.

use crate::bench;
use crate::bench::payload;
use crate::bench::payload::Header;
use crate::bench::schedule::Schedule;
use crate::bench::stats::{Counters, Samples, Tally};
use crate::bench::Config;
use crate::client;
use crate::client::PacketIds;
use crate::clock::{Duration, Instant};
use crate::error::{Error, ErrorView};
use crate::mqtt::packet::{Packet, Properties, PropertiesView, PubAck, Publish, PublishView};
use crate::mqtt::types::{QoS, ReasonCode};
use crate::text;
use std::collections::HashMap;
use vstd::prelude::*;

verus! {

broadcast use {vstd::std_specs::hash::group_hash_axioms, vstd::set::group_set_axioms};

/// Seconds a publisher waits for its last acknowledgements.
pub const DRAIN_SECS: u64 = 5;

/// Packet identifiers are sixteen bits wide: a wider window would let two outstanding messages
/// share one.
pub const MAX_WINDOW: usize = 65_535;

/// The window of a publisher.
pub open spec fn publisher_window(requested: usize, receive_maximum: Option<u16>) -> usize {
    if bench::window_of(requested, receive_maximum) > MAX_WINDOW {
        MAX_WINDOW
    } else {
        bench::window_of(requested, receive_maximum)
    }
}

/// The client identifier of one of a run's connections: a base, the connection's role and its
/// number.
pub open spec fn connection_id(base: Seq<char>, role: Seq<char>, index: u32) -> Seq<char> {
    base + "-"@ + role + "-"@ + text::decimal_text(index as nat)
}

/// The base of a run's client identifiers: the one given, else the one generated.
pub open spec fn connection_base(given: Option<String>, generated: Seq<char>) -> Seq<char> {
    match given {
        Some(base) => base@,
        None => generated,
    }
}

/// The client identifier of one of a run's connections. `generated` is the base to use when the
/// arguments give none.
pub fn connection_client_id(
    given: &Option<String>,
    generated: &str,
    role: &str,
    index: u32,
) -> (id: String)
    ensures
        id@ == connection_id(connection_base(*given, generated@), role@, index),
{
    let mut id = match given {
        Some(base) => base.clone(),
        None => String::from_str(generated),
    };
    id.append("-");
    id.append(role);
    id.append("-");
    id.append(text::decimal(index as u64).as_str());
    id
}

/// How long an acknowledgement took, in nanoseconds.
pub open spec fn latency(sent_at: Instant, now: Instant) -> u64 {
    if now.nanos >= sent_at.nanos {
        (now.nanos - sent_at.nanos) as u128 as u64
    } else {
        0
    }
}

/// What a publisher knows.
#[verifier::ext_equal]
pub struct PublisherView {
    pub index: u32,
    pub qos: QoS,
    /// How many messages to send; no limit for a timed run.
    pub quota: Option<u64>,
    /// How many messages have been sent.
    pub sent: u64,
    /// The packet identifier given out last.
    pub last_id: u16,
    /// How many messages may be unacknowledged.
    pub window: nat,
    /// How many more may be sent before an acknowledgement.
    pub permits: nat,
    /// No further acknowledgement can arrive.
    pub closed: bool,
    /// Sending stopped because the window had closed.
    pub window_closed: bool,
    /// When each unacknowledged message was sent.
    pub in_flight: Map<u16, Instant>,
    /// The messages that are owed a PUBREL, in order.
    pub owed: Seq<u16>,
    /// The acknowledgement latencies.
    pub samples: Seq<u64>,
}

/// The PUBRELs that are owed, in order.
pub open spec fn pubrels(owed: Seq<u16>) -> Seq<Packet> {
    owed.map_values(|id: u16| Packet::Pubrel(PubAck::spec_success(id)))
}

impl PublisherView {
    /// A publisher that has just connected.
    pub open spec fn fresh(
        config: &Config,
        index: u32,
        receive_maximum: Option<u16>,
    ) -> PublisherView {
        PublisherView {
            index,
            qos: config.qos,
            quota: quota_number(config.spec_quota_for(index as nat)),
            sent: 0,
            last_id: 0,
            window: publisher_window(config.inflight, receive_maximum) as nat,
            permits: publisher_window(config.inflight, receive_maximum) as nat,
            closed: false,
            window_closed: false,
            in_flight: Map::empty(),
            owed: Seq::empty(),
            samples: Seq::empty(),
        }
    }

    /// After everything that is owed was taken.
    pub open spec fn released(self) -> PublisherView {
        PublisherView { owed: Seq::empty(), ..self }
    }

    /// After sending stopped because the window had closed.
    pub open spec fn cut_off(self) -> PublisherView {
        PublisherView { window_closed: true, ..self }
    }

    /// After a message went out.
    pub open spec fn wrote(self) -> PublisherView {
        PublisherView { sent: bench::stats::counted(self.sent, 1), ..self }
    }

    /// After the read side has ended.
    pub open spec fn closing(self) -> PublisherView {
        PublisherView { closed: true, ..self }
    }

    /// Whether every message has been acknowledged.
    pub open spec fn drained(self) -> bool {
        self.in_flight == Map::<u16, Instant>::empty()
    }

    /// How long to wait for outstanding acknowledgements, if at all.
    pub open spec fn drain_time(self) -> Option<Duration> {
        if self.window_closed {
            None
        } else {
            Some(Duration::of_secs(DRAIN_SECS as nat))
        }
    }

    /// Never more unacknowledged messages than the window has room for.
    pub open spec fn wf(self) -> bool {
        &&& 1 <= self.window <= MAX_WINDOW
        &&& self.in_flight.dom().finite()
        &&& self.permits + self.in_flight.len() <= self.window
    }

    /// Whether another message is due: the quota is not met and nobody asked to stop.
    pub open spec fn wants_to_send(self, stop: bool) -> bool {
        &&& self.quota matches Some(quota) ==> self.sent < quota
        &&& !stop
    }

    /// Whether the window has room for another message; QoS 0 is never acknowledged and needs
    /// none.
    pub open spec fn has_room(self) -> bool {
        self.qos == QoS::AtMostOnce || (!self.closed && self.permits > 0)
    }

    /// The packet identifier of the next message.
    pub open spec fn next_packet_id(self) -> Option<u16> {
        if self.qos == QoS::AtMostOnce {
            None
        } else {
            Some(client::id_after(self.last_id))
        }
    }

    /// After a message took its slot in the window, at `now`.
    pub open spec fn sending(self, now: Instant) -> PublisherView {
        match self.next_packet_id() {
            Some(id) => PublisherView {
                last_id: id,
                permits: (self.permits - 1) as nat,
                in_flight: self.in_flight.insert(id, now),
                ..self
            },
            None => self,
        }
    }

    /// The next message, sent at `now`.
    pub open spec fn next_message(self, config: &Config, now: Instant) -> PublishView {
        PublishView {
            dup: false,
            qos: self.qos,
            retain: false,
            topic: config.spec_topic_for(self.index),
            packet_id: self.next_packet_id(),
            properties: PropertiesView::empty(),
            payload: payload::payload_bytes(
                config.payload_size as nat,
                Header {
                    elapsed_ns: now.nanos as u64,
                    publisher: self.index,
                    seq: self.sent as u32,
                },
            ),
        }
    }

    /// What the write side does next. What is owed goes first; then the quota and the end of the
    /// run are looked at, then the schedule, and the window last.
    pub open spec fn turn(self, schedule: &Schedule, stop: bool, paced: bool) -> TurnKind {
        if self.owed.len() > 0 {
            TurnKind::Release
        } else if !self.wants_to_send(stop) {
            TurnKind::Finished
        } else if !paced && schedule.interval is Some {
            TurnKind::Sleep
        } else if self.has_room() {
            TurnKind::Send
        } else if self.closed {
            TurnKind::Closed
        } else {
            TurnKind::Full
        }
    }

    /// After message `id` could not be written: its slot is free again.
    pub open spec fn unsent(self, id: Option<u16>) -> PublisherView {
        match id {
            Some(id) => PublisherView {
                permits: self.permits + 1,
                in_flight: self.in_flight.remove(id),
                ..self
            },
            None => self,
        }
    }

    /// After the last acknowledgement of message `id`: its slot is free, and unless the broker
    /// refused it there is a latency sample, warm-up apart. An acknowledgement for no outstanding
    /// message changes nothing here.
    pub open spec fn completed(
        self,
        id: u16,
        code: ReasonCode,
        now: Instant,
        warmup_until: Instant,
    ) -> PublisherView {
        if self.in_flight.contains_key(id) {
            let sent_at = self.in_flight[id];
            PublisherView {
                permits: self.permits + 1,
                in_flight: self.in_flight.remove(id),
                samples: if !code.spec_is_error() && sent_at.nanos >= warmup_until.nanos {
                    self.samples.push(latency(sent_at, now))
                } else {
                    self.samples
                },
                ..self
            }
        } else {
            self
        }
    }

    /// The counters after the last acknowledgement of message `id`.
    pub open spec fn tallied(self, tally: Tally, id: u16, code: ReasonCode) -> Tally {
        if code.spec_is_error() {
            tally.with_refusal(code)
        } else if self.in_flight.contains_key(id) {
            tally.with_acknowledged()
        } else {
            tally
        }
    }

    /// Which message a packet is the last acknowledgement of, and how it went. A refusing PUBREC
    /// already ends a QoS 2 exchange.
    pub open spec fn completes(packet: Packet) -> Option<PubAck> {
        match packet {
            Packet::Puback(ack) => Some(ack),
            Packet::Pubcomp(comp) => Some(comp),
            Packet::Pubrec(rec) => if rec.reason_code.spec_is_error() {
                Some(rec)
            } else {
                None
            },
            _ => None,
        }
    }

    /// After a packet arrived at `now`.
    pub open spec fn received(
        self,
        packet: Packet,
        now: Instant,
        warmup_until: Instant,
    ) -> PublisherView {
        match Self::completes(packet) {
            Some(ack) => self.completed(ack.packet_id, ack.reason_code, now, warmup_until),
            None => match packet {
                Packet::Pubrec(rec) => PublisherView {
                    owed: self.owed.push(rec.packet_id),
                    ..self
                },
                _ => self,
            },
        }
    }

    /// The counters after a packet arrived.
    pub open spec fn tally_received(self, tally: Tally, packet: Packet) -> Tally {
        match Self::completes(packet) {
            Some(ack) => self.tallied(tally, ack.packet_id, ack.reason_code),
            None => tally,
        }
    }
}

/// Whether the next message can go out.
pub enum Begin {
    /// This is it.
    Send(Publish),
    /// The window is full: wait for an acknowledgement.
    Full,
    /// The window has closed: stop sending.
    Closed,
}

/// What the write side does next.
pub enum Turn {
    /// Send these PUBRELs.
    Release(Vec<Packet>),
    /// Nothing more is to be sent.
    Finished,
    /// Wait for this point in time, or for the end of the run.
    Sleep(Instant),
    /// Wait for an acknowledgement, or for the end of the run.
    Full,
    /// Stop sending: the window has closed.
    Closed,
    /// Send this message.
    Send(Publish),
}

/// What a turn is, its packets aside.
#[derive(Clone, Copy, Debug, PartialEq, Eq, Structural)]
pub enum TurnKind {
    Release,
    Finished,
    Sleep,
    Full,
    Closed,
    Send,
}

/// How the read side ended.
pub enum AckEnd {
    /// The connection was closed, or failed with this error.
    Finished(Option<Error>),
    /// It panicked; holds what the runtime says of it.
    Panicked(String),
    /// It did not end in time.
    TimedOut,
}

/// One publishing connection.
pub struct Publisher {
    index: u32,
    qos: QoS,
    quota: Option<u64>,
    sent: u64,
    ids: PacketIds,
    window: usize,
    permits: usize,
    closed: bool,
    window_closed: bool,
    in_flight: HashMap<u16, Instant>,
    owed: Vec<u16>,
    samples: Samples,
}

impl View for Publisher {
    type V = PublisherView;

    closed spec fn view(&self) -> PublisherView {
        PublisherView {
            index: self.index,
            qos: self.qos,
            quota: self.quota,
            sent: self.sent,
            last_id: self.ids@,
            window: self.window as nat,
            permits: self.permits as nat,
            closed: self.closed,
            window_closed: self.window_closed,
            in_flight: self.in_flight@,
            owed: self.owed@,
            samples: self.samples@,
        }
    }
}

/// The number of a run's quota for a publisher.
pub open spec fn quota_number(quota: Option<nat>) -> Option<u64> {
    match quota {
        Some(n) => Some(n as u64),
        None => None,
    }
}

impl Publisher {
    /// The window bounds what is outstanding, and the samples are in order.
    pub closed spec fn wf(&self) -> bool {
        self@.wf() && self.samples.wf()
    }

    /// A publisher that has just connected.
    pub fn new(config: &Config, index: u32, receive_maximum: Option<u16>) -> (publisher: Publisher)
        requires
            config.wf(),
        ensures
            publisher.wf(),
            publisher@ == PublisherView::fresh(config, index, receive_maximum),
    {
        let mut window: usize = bench::effective_inflight(config.inflight, receive_maximum);
        if window > MAX_WINDOW {
            window = MAX_WINDOW;
        }
        Publisher {
            index,
            qos: config.qos,
            quota: config.quota_for(index as usize),
            sent: 0,
            ids: PacketIds::new(),
            window,
            permits: window,
            closed: false,
            window_closed: false,
            in_flight: HashMap::new(),
            owed: Vec::new(),
            samples: Samples::new(),
        }
    }

    /// How many messages have been sent.
    pub fn sent(&self) -> (n: u64)
        ensures
            n == self@.sent,
    {
        self.sent
    }

    /// Take the PUBRELs that are owed, in order.
    pub fn drain_pubrels(&mut self) -> (packets: Vec<Packet>)
        ensures
            packets@ == pubrels(old(self)@.owed),
            final(self)@ == old(self)@.released(),
            old(self).wf() ==> final(self).wf(),
    {
        let mut packets: Vec<Packet> = Vec::new();
        let mut i: usize = 0;
        while i < self.owed.len()
            invariant
                i <= self.owed@.len(),
                packets@.len() == i,
                *self == *old(self),
                forall|j: int|
                    0 <= j < i ==> #[trigger] packets@[j] == Packet::Pubrel(
                        PubAck::spec_success(self.owed@[j]),
                    ),
            decreases self.owed@.len() - i,
        {
            packets.push(Packet::Pubrel(PubAck::success(self.owed[i])));
            i += 1;
        }
        assert(packets@ =~= pubrels(self.owed@));
        self.owed = Vec::new();
        packets
    }

    /// Whether another message is due. `stop` says whether the run was told to end.
    pub fn wants_to_send(&self, stop: bool) -> (res: bool)
        ensures
            res == self@.wants_to_send(stop),
    {
        let met = match self.quota {
            Some(quota) => self.sent >= quota,
            None => false,
        };
        !met && !stop
    }

    /// Take a slot in the window and build the next message, sent at `now`.
    pub fn begin(&mut self, config: &Config, now: Instant) -> (res: Begin)
        requires
            old(self).wf(),
        ensures
            final(self).wf(),
            match res {
                Begin::Send(publish) => {
                    &&& old(self)@.has_room()
                    &&& publish@ == old(self)@.next_message(config, now)
                    &&& final(self)@ == old(self)@.sending(now)
                },
                Begin::Full => {
                    &&& !old(self)@.has_room() && !old(self)@.closed
                    &&& final(self)@ == old(self)@
                },
                Begin::Closed => {
                    &&& !old(self)@.has_room() && old(self)@.closed
                    &&& final(self)@ == old(self)@.cut_off()
                },
            },
    {
        let packet_id = match self.qos {
            QoS::AtMostOnce => None,
            _ => {
                if self.closed {
                    self.window_closed = true;
                    return Begin::Closed;
                }
                if self.permits == 0 {
                    return Begin::Full;
                }
                let id: u16 = self.ids.next_id();
                self.permits = self.permits - 1;
                self.in_flight.insert(id, now);
                Some(id)
            },
        };
        let payload = payload::build(
            config.payload_size,
            Header {
                elapsed_ns: #[verifier::truncate] (now.nanos as u64),
                publisher: self.index,
                seq: #[verifier::truncate] (self.sent as u32),
            },
        );
        Begin::Send(
            Publish {
                dup: false,
                qos: self.qos,
                retain: false,
                topic: config.topic_for(self.index),
                packet_id,
                properties: Properties::new(),
                payload,
            },
        )
    }

    /// Take the write side's next turn, at `now`. `stop` says whether the run was told to end, and
    /// `paced` whether the schedule has been waited for since the last message.
    pub fn next_turn(
        &mut self,
        config: &Config,
        schedule: &Schedule,
        stop: bool,
        paced: bool,
        now: Instant,
    ) -> (turn: Turn)
        requires
            old(self).wf(),
            schedule.in_time(old(self)@.sent),
        ensures
            final(self).wf(),
            match turn {
                Turn::Release(packets) => {
                    &&& old(self)@.turn(schedule, stop, paced) == TurnKind::Release
                    &&& packets@ == pubrels(old(self)@.owed)
                    &&& final(self)@ == old(self)@.released()
                },
                Turn::Finished => {
                    &&& old(self)@.turn(schedule, stop, paced) == TurnKind::Finished
                    &&& final(self)@ == old(self)@
                },
                Turn::Sleep(at) => {
                    &&& old(self)@.turn(schedule, stop, paced) == TurnKind::Sleep
                    &&& schedule.spec_deadline(old(self)@.sent) == Some(at)
                    &&& final(self)@ == old(self)@
                },
                Turn::Full => {
                    &&& old(self)@.turn(schedule, stop, paced) == TurnKind::Full
                    &&& final(self)@ == old(self)@
                },
                Turn::Closed => {
                    &&& old(self)@.turn(schedule, stop, paced) == TurnKind::Closed
                    &&& final(self)@ == old(self)@.cut_off()
                },
                Turn::Send(publish) => {
                    &&& old(self)@.turn(schedule, stop, paced) == TurnKind::Send
                    &&& publish@ == old(self)@.next_message(config, now)
                    &&& final(self)@ == old(self)@.sending(now)
                },
            },
    {
        if self.owed.len() > 0 {
            return Turn::Release(self.drain_pubrels());
        }
        if !self.wants_to_send(stop) {
            return Turn::Finished;
        }
        if !paced {
            if let Some(at) = schedule.deadline(self.sent) {
                return Turn::Sleep(at);
            }
        }
        match self.begin(config, now) {
            Begin::Send(publish) => Turn::Send(publish),
            Begin::Full => Turn::Full,
            Begin::Closed => Turn::Closed,
        }
    }

    /// A message of `bytes` bytes went out. Its slot stays taken until the acknowledgement.
    pub fn written(&mut self, counters: &mut Counters, bytes: u64)
        ensures
            final(self)@ == old(self)@.wrote(),
            final(counters)@ == old(counters)@.with_published(bytes),
            old(self).wf() ==> final(self).wf(),
    {
        counters.record_published(bytes);
        self.sent = self.sent.wrapping_add(1);
    }

    /// A message could not be written: it is counted as an error and its slot is free again.
    pub fn write_failed(&mut self, counters: &mut Counters, id: Option<u16>)
        requires
            old(self).wf(),
        ensures
            final(self)@ == old(self)@.unsent(id),
            final(counters)@ == old(counters)@.with_publish_error(),
            (id matches Some(i) ==> old(self)@.in_flight.contains_key(i)) ==> final(self).wf(),
    {
        counters.record_publish_error();
        if let Some(id) = id {
            let _ = self.in_flight.remove(&id);
            self.permits = self.permits + 1;
        }
    }

    /// Complete a message on its last acknowledgement: PUBACK for QoS 1; PUBCOMP, or a refusing
    /// PUBREC, for QoS 2. The slot is free either way; only an accepted message contributes to the
    /// acknowledgements and their latencies, since a refused one's round trip is typically much
    /// faster and would skew them low exactly when the run is going badly.
    fn complete_ack(
        &mut self,
        counters: &mut Counters,
        id: u16,
        code: ReasonCode,
        now: Instant,
        warmup_until: Instant,
    )
        requires
            old(self).wf(),
        ensures
            final(self).wf(),
            final(self)@ == old(self)@.completed(id, code, now, warmup_until),
            final(counters)@ == old(self)@.tallied(old(counters)@, id, code),
    {
        if code.is_error() {
            counters.record_refusal(code);
        }
        if let Some(sent_at) = self.in_flight.remove(&id) {
            self.permits = self.permits + 1;
            if !code.is_error() {
                counters.record_acknowledged();
                if sent_at.nanos >= warmup_until.nanos {
                    let nanos: u64 = if now.nanos >= sent_at.nanos {
                        #[verifier::truncate]
                        ((now.nanos - sent_at.nanos) as u64)
                    } else {
                        0
                    };
                    self.samples.record(nanos);
                }
            }
        } else {
            assert(self.in_flight@ =~= old(self).in_flight@);
        }
    }

    /// A packet arrived at `now`.
    pub fn on_packet(
        &mut self,
        counters: &mut Counters,
        packet: &Packet,
        now: Instant,
        warmup_until: Instant,
    )
        requires
            old(self).wf(),
        ensures
            final(self).wf(),
            final(self)@ == old(self)@.received(*packet, now, warmup_until),
            final(counters)@ == old(self)@.tally_received(old(counters)@, *packet),
    {
        match packet {
            Packet::Puback(ack) => {
                self.complete_ack(counters, ack.packet_id, ack.reason_code, now, warmup_until);
            },
            Packet::Pubrec(rec) => {
                if rec.reason_code.is_error() {
                    self.complete_ack(counters, rec.packet_id, rec.reason_code, now, warmup_until);
                } else {
                    self.owed.push(rec.packet_id);
                }
            },
            Packet::Pubcomp(comp) => {
                self.complete_ack(counters, comp.packet_id, comp.reason_code, now, warmup_until);
            },
            _ => {},
        }
    }

    /// The read side has ended: no further acknowledgement can arrive, so a write side that waits
    /// for room must not wait any longer.
    pub fn close(&mut self)
        ensures
            final(self)@ == old(self)@.closing(),
            old(self).wf() ==> final(self).wf(),
    {
        self.closed = true;
    }

    /// Whether every message has been acknowledged.
    pub fn is_drained(&self) -> (res: bool)
        ensures
            res == self@.drained(),
    {
        let res = self.in_flight.is_empty();
        proof {
            if self.in_flight@.is_empty() {
                assert(self.in_flight@ =~= Map::<u16, Instant>::empty());
            }
        }
        res
    }

    /// How long to wait for outstanding acknowledgements before disconnecting. Not at all when
    /// the window closed: then nothing is left to do the acknowledging.
    pub fn drain_limit(&self) -> (limit: Option<Duration>)
        ensures
            limit == self@.drain_time(),
    {
        if self.window_closed {
            None
        } else {
            Some(Duration::from_secs(DRAIN_SECS))
        }
    }

    /// What a publisher reports at its end, given how the read side ended.
    pub fn outcome(self, end: AckEnd) -> (res: Result<Samples, Error>)
        requires
            self.wf(),
        ensures
            match res {
                Ok(samples) => {
                    &&& outcome_fault(self@, end) is None
                    &&& samples@ == self@.samples
                    &&& samples.wf()
                },
                Err(e) => outcome_fault(self@, end) == Some(e@),
            },
    {
        let mut message = String::from_str("publisher ");
        message.append(text::decimal(self.index as u64).as_str());
        match end {
            AckEnd::Panicked(e) => {
                message.append(" ack task failed: ");
                message.append(e.as_str());
                Err(Error::Usage(message))
            },
            AckEnd::Finished(Some(e)) => {
                message.append(": the broker's reply stream failed: ");
                message.append(e.message().as_str());
                Err(Error::Usage(message))
            },
            AckEnd::Finished(None) => {
                if self.window_closed {
                    message.append(": the broker closed the connection after ");
                    message.append(text::decimal(self.sent).as_str());
                    message.append(" message(s), before acknowledging the rest");
                    Err(Error::Usage(message))
                } else {
                    Ok(self.samples)
                }
            },
            AckEnd::TimedOut => {
                message.append(
                    ": acknowledgement task did not finish within the drain window; the broker likely never closed its half of the socket after DISCONNECT (3.14.4)",
                );
                Err(Error::Usage(message))
            },
        }
    }
}

/// What a publisher reports at its end, if it failed. A read error outranks the closed window: it
/// is why the acknowledgements stopped, and the window closing was only the consequence.
pub open spec fn outcome_fault(publisher: PublisherView, end: AckEnd) -> Option<ErrorView> {
    let name = "publisher "@ + text::decimal_text(publisher.index as nat);
    match end {
        AckEnd::Panicked(e) => Some(ErrorView::Usage(name + " ack task failed: "@ + e@)),
        AckEnd::Finished(Some(e)) => Some(
            ErrorView::Usage(name + ": the broker's reply stream failed: "@ + e@.text()),
        ),
        AckEnd::Finished(None) => if publisher.window_closed {
            Some(
                ErrorView::Usage(
                    name + ": the broker closed the connection after "@ + text::decimal_text(
                        publisher.sent as nat,
                    ) + " message(s), before acknowledging the rest"@,
                ),
            )
        } else {
            None
        },
        AckEnd::TimedOut => Some(
            ErrorView::Usage(
                name
                    + ": acknowledgement task did not finish within the drain window; the broker likely never closed its half of the socket after DISCONNECT (3.14.4)"@,
            ),
        ),
    }
}

/// How long to wait for the read side to end after DISCONNECT.
pub open spec fn join_time(config: &Config) -> Duration {
    if config.drain.nanos >= DRAIN_SECS * 1_000_000_000 {
        config.drain
    } else {
        Duration::of_secs(DRAIN_SECS as nat)
    }
}

/// How long to wait for the read side to end after DISCONNECT.
pub fn join_limit(config: &Config) -> (limit: Duration)
    ensures
        limit == join_time(config),
{
    config.drain.max(Duration::from_secs(DRAIN_SECS))
}

/// What is proved of a view that keeps its window holds of every publisher in use.
pub proof fn a_publisher_keeps_its_window(publisher: &Publisher)
    requires
        publisher.wf(),
    ensures
        publisher@.wf(),
{
}

/// The slots of the window, taken or free.
pub open spec fn slots(publisher: PublisherView) -> nat {
    publisher.permits + publisher.in_flight.len()
}

/// The window bounds what is outstanding at every step, and no slot is lost: sending under an
/// identifier that is not outstanding and completing a message both keep the slots, so every
/// acknowledged message makes room for exactly one more.
pub proof fn the_window_bounds_outstanding_sends(
    publisher: PublisherView,
    packet: Packet,
    now: Instant,
    warmup_until: Instant,
)
    requires
        publisher.wf(),
    ensures
        publisher.in_flight.len() <= publisher.window,
        publisher.has_room() ==> {
            &&& publisher.sending(now).wf()
            &&& publisher.next_packet_id() matches Some(id)
                ==> !publisher.in_flight.contains_key(id) ==> slots(publisher.sending(now))
                == slots(publisher)
        },
        publisher.received(packet, now, warmup_until).wf(),
        slots(publisher.received(packet, now, warmup_until)) == slots(publisher),
{
}

/// A window of one makes a publisher a strict round-trip loop: an acknowledged quality of service
/// sends only when nothing is outstanding, and after a send the window is full until the last
/// acknowledgement of that message.
pub proof fn a_window_of_one_is_a_round_trip(
    publisher: PublisherView,
    id: u16,
    code: ReasonCode,
    now: Instant,
    warmup_until: Instant,
)
    requires
        publisher.wf(),
        publisher.window == 1,
        publisher.qos != QoS::AtMostOnce,
        publisher.has_room(),
        publisher.next_packet_id() == Some(id),
    ensures
        publisher.in_flight == Map::<u16, Instant>::empty(),
        !publisher.sending(now).has_room(),
        publisher.sending(now).in_flight == Map::<u16, Instant>::empty().insert(id, now),
        publisher.sending(now).completed(id, code, now, warmup_until).has_room(),
{
    assert(publisher.in_flight.dom().len() == 0);
    assert(publisher.in_flight.dom() =~= Set::<u16>::empty());
    assert(publisher.in_flight =~= Map::<u16, Instant>::empty());
}

/// A full window never keeps a QoS 2 exchange from going on: whatever is owed is released before
/// anything else, so the acknowledgements that make room can arrive.
pub proof fn what_is_owed_is_released_first(
    publisher: PublisherView,
    schedule: &Schedule,
    stop: bool,
    paced: bool,
)
    requires
        publisher.owed.len() > 0,
    ensures
        publisher.turn(schedule, stop, paced) == TurnKind::Release,
{
}

/// A publisher sends no more than its quota, and nothing once the run was told to end.
pub proof fn the_quota_is_kept(
    publisher: PublisherView,
    schedule: &Schedule,
    stop: bool,
    paced: bool,
)
    requires
        publisher.turn(schedule, stop, paced) == TurnKind::Send,
    ensures
        !stop,
        publisher.quota matches Some(quota) ==> publisher.sent < quota,
        publisher.qos != QoS::AtMostOnce ==> publisher.permits > 0,
{
}

/// A message is completed once: the same acknowledgement again frees no slot, adds no sample and
/// counts no further message as acknowledged.
pub proof fn a_message_completes_once(
    publisher: PublisherView,
    tally: Tally,
    id: u16,
    code: ReasonCode,
    now: Instant,
    warmup_until: Instant,
)
    ensures
        ({
            let once = publisher.completed(id, code, now, warmup_until);
            &&& once.completed(id, code, now, warmup_until) == once
            &&& !code.spec_is_error() ==> once.tallied(tally, id, code) == tally
        }),
{
}

/// A refused message frees its slot and is tallied under its reason code, but never counts as
/// acknowledged and never enters the latencies.
pub proof fn a_refused_message_is_not_timed(
    publisher: PublisherView,
    tally: Tally,
    id: u16,
    code: ReasonCode,
    now: Instant,
    warmup_until: Instant,
)
    requires
        code.spec_is_error(),
    ensures
        publisher.completed(id, code, now, warmup_until).samples == publisher.samples,
        !publisher.completed(id, code, now, warmup_until).in_flight.contains_key(id),
        publisher.tallied(tally, id, code).acknowledged == tally.acknowledged,
        publisher.tallied(tally, id, code).refusals(code.byte) == bench::stats::counted(
            tally.refusals(code.byte),
            1,
        ),
{
}

/// A message sent during the warm-up leaves no sample; one sent after it, once accepted, leaves
/// exactly one.
pub proof fn the_warm_up_is_discarded(
    publisher: PublisherView,
    id: u16,
    code: ReasonCode,
    now: Instant,
    warmup_until: Instant,
)
    requires
        publisher.in_flight.contains_key(id),
        !code.spec_is_error(),
    ensures
        publisher.in_flight[id].nanos < warmup_until.nanos ==> publisher.completed(
            id,
            code,
            now,
            warmup_until,
        ).samples == publisher.samples,
        publisher.in_flight[id].nanos >= warmup_until.nanos ==> publisher.completed(
            id,
            code,
            now,
            warmup_until,
        ).samples == publisher.samples.push(latency(publisher.in_flight[id], now)),
{
}

/// A QoS 2 message is sampled on its PUBCOMP alone: the accepting PUBREC before it only leaves a
/// PUBREL owed.
pub proof fn exactly_once_is_sampled_on_pubcomp(
    publisher: PublisherView,
    rec: PubAck,
    now: Instant,
    warmup_until: Instant,
)
    requires
        !rec.reason_code.spec_is_error(),
    ensures
        publisher.received(Packet::Pubrec(rec), now, warmup_until) == (PublisherView {
            owed: publisher.owed.push(rec.packet_id),
            ..publisher
        }),
        publisher.received(Packet::Pubcomp(rec), now, warmup_until) == publisher.completed(
            rec.packet_id,
            rec.reason_code,
            now,
            warmup_until,
        ),
{
}

/// What the broker's reply stream failed with is reported whether or not the window closed: the
/// closed window was only the consequence.
pub proof fn the_cause_outranks_the_symptom(publisher: PublisherView, error: Error)
    ensures
        outcome_fault(publisher, AckEnd::Finished(Some(error))) == outcome_fault(
            PublisherView { window_closed: !publisher.window_closed, ..publisher },
            AckEnd::Finished(Some(error)),
        ),
        outcome_fault(publisher, AckEnd::Finished(Some(error))) is Some,
{
}

/// A publisher starts with its share of the run's count and with its whole window free, and with
/// nothing sent, outstanding, owed or measured.
pub proof fn a_publisher_starts_with_its_share(
    config: &Config,
    index: u32,
    receive_maximum: Option<u16>,
)
    requires
        config.wf(),
    ensures
        ({
            let fresh = PublisherView::fresh(config, index, receive_maximum);
            &&& fresh.wf()
            &&& fresh.index == index
            &&& fresh.qos == config.qos
            &&& fresh.quota is Some <==> config.spec_quota_for(index as nat) is Some
            &&& fresh.quota matches Some(n) ==> config.spec_quota_for(index as nat) == Some(
                n as nat,
            )
            &&& fresh.sent == 0
            &&& client::id_after(fresh.last_id) == 1
            &&& fresh.permits == fresh.window
            &&& !fresh.closed
            &&& !fresh.window_closed
            &&& fresh.in_flight.len() == 0
            &&& fresh.owed.len() == 0
            &&& fresh.samples.len() == 0
        }),
{
    let publishers = config.publishers as nat;
    let total = match config.stop {
        bench::Stop::Count(n) => n as nat,
        bench::Stop::CountWithin(n, _) => n as nat,
        bench::Stop::Duration(_) => 0,
    };
    vstd::arithmetic::div_mod::lemma_fundamental_div_mod(total as int, publishers as int);
    vstd::arithmetic::div_mod::lemma_mod_bound(total as int, publishers as int);
    let base = total / publishers;
    let rest = total % publishers;
    assert(base + rest <= total) by (nonlinear_arith)
        requires
            total == publishers * base + rest,
            publishers >= 1,
            base >= 0,
    ;
}

/// A publisher's window is the run's, cut to what packet identifiers can tell apart.
pub proof fn a_window_fits_the_packet_identifiers(requested: usize, receive_maximum: Option<u16>)
    ensures
        ({
            let window = publisher_window(requested, receive_maximum);
            let allowed = bench::window_of(requested, receive_maximum);
            &&& 1 <= window <= 65_535
            &&& allowed <= 65_535 ==> window == allowed
            &&& allowed > 65_535 ==> window == 65_535
        }),
{
}

/// A connection's client identifier starts with the base that was given, or else with the one
/// generated, says its role, and is no other connection's of that role.
pub proof fn connections_are_told_apart(
    given: String,
    generated: Seq<char>,
    role: Seq<char>,
    a: u32,
    b: u32,
)
    ensures
        connection_base(Some(given), generated) == given@,
        connection_base(None, generated) == generated,
        generated.is_prefix_of(connection_id(generated, role, a)),
        text::holds(connection_id(generated, role, a), role),
        connection_id(generated, role, a) == connection_id(generated, role, b) ==> a == b,
{
    let dash = "-"@;
    let head = generated + dash + role + dash;
    let first = connection_id(generated, role, a);
    let second = connection_id(generated, role, b);
    let number = text::decimal_text(a as nat);
    text::lemma_four_held(generated, dash, role, dash);
    text::lemma_holds_appended(head, role, number);
    assert(generated =~= first.take(generated.len() as int));
    assert(first.skip(head.len() as int) =~= number);
    assert(second.skip(head.len() as int) =~= text::decimal_text(b as nat));
    if first == second {
        text::decimal_texts_are_told_apart(a as nat, b as nat);
    }
}

/// A latency is the time between the send and the acknowledgement, and none when the clock went
/// backwards.
pub proof fn a_latency_is_the_time_between(sent_at: Instant, now: Instant)
    ensures
        sent_at.nanos <= now.nanos <= sent_at.nanos + u64::MAX ==> sent_at.nanos + latency(
            sent_at,
            now,
        ) == now.nanos,
        now.nanos < sent_at.nanos ==> latency(sent_at, now) == 0,
{
}

/// What the write side does next follows from the publisher's state in a fixed order: what is owed,
/// the end of the run and the quota, the schedule, the window.
pub proof fn a_turn_is_taken_in_order(
    publisher: PublisherView,
    schedule: &Schedule,
    stop: bool,
    paced: bool,
)
    ensures
        ({
            let turn = publisher.turn(schedule, stop, paced);
            let over = stop || (publisher.quota matches Some(quota) && publisher.sent >= quota);
            let due = publisher.owed.len() == 0 && !over && (paced || schedule.interval is None);
            let waits = publisher.qos != QoS::AtMostOnce;
            &&& turn == TurnKind::Release <==> publisher.owed.len() > 0
            &&& turn == TurnKind::Finished <==> publisher.owed.len() == 0 && over
            &&& turn == TurnKind::Sleep <==> publisher.owed.len() == 0 && !over && !paced
                && schedule.interval is Some
            &&& turn == TurnKind::Closed <==> due && waits && publisher.closed
            &&& turn == TurnKind::Full <==> due && waits && !publisher.closed && publisher.permits
                == 0
            &&& turn == TurnKind::Send <==> due && (waits ==> !publisher.closed
                && publisher.permits > 0)
        }),
{
}

/// A message of a run goes out fresh and unretained, at the run's quality of service and to its
/// publisher's own topic, and its payload says when it was sent, by whom and as which message.
pub proof fn a_message_says_where_it_comes_from(
    publisher: PublisherView,
    config: &Config,
    now: Instant,
)
    requires
        now.nanos <= u64::MAX,
        publisher.sent <= u32::MAX,
    ensures
        ({
            let message = publisher.next_message(config, now);
            &&& !message.dup
            &&& !message.retain
            &&& message.qos == publisher.qos
            &&& message.topic == config.spec_topic_for(publisher.index)
            &&& message.properties == PropertiesView::empty()
            &&& message.packet_id is None <==> publisher.qos == QoS::AtMostOnce
            &&& message.packet_id matches Some(id) ==> id != 0 && publisher.sending(
                now,
            ).in_flight.contains_key(id)
            &&& payload::header_of(message.payload) matches Some(header) && header.elapsed_ns
                == now.nanos && header.publisher == publisher.index && header.seq
                == publisher.sent
            &&& message.payload.len() >= config.payload_size
            &&& config.payload_size >= 16 ==> message.payload.len() == config.payload_size
        }),
{
    let header = Header {
        elapsed_ns: now.nanos as u64,
        publisher: publisher.index,
        seq: publisher.sent as u32,
    };
    payload::header_survives(config.payload_size as nat, header);
    payload::a_payload_is_filled_up_with_zeros(config.payload_size as nat, header, 0);
}

/// Whether two publishers differ at most in what is outstanding, in the room that is left and in the
/// identifiers used.
pub open spec fn same_but_for_the_window(a: PublisherView, b: PublisherView) -> bool {
    &&& a.index == b.index
    &&& a.qos == b.qos
    &&& a.quota == b.quota
    &&& a.sent == b.sent
    &&& a.window == b.window
    &&& a.closed == b.closed
    &&& a.window_closed == b.window_closed
    &&& a.owed == b.owed
}

/// A message that will be acknowledged takes one slot of the window under its identifier from the
/// moment it is sent; one that will not takes none. One that could not be written gives its slot
/// back, as if it had never been begun, but for its identifier.
pub proof fn a_message_takes_one_slot(publisher: PublisherView, now: Instant, other: u16)
    ensures
        publisher.qos == QoS::AtMostOnce ==> publisher.sending(now) == publisher,
        publisher.next_packet_id() matches Some(id) ==> {
            let sending = publisher.sending(now);
            &&& publisher.qos != QoS::AtMostOnce
            &&& same_but_for_the_window(sending, publisher)
            &&& sending.samples == publisher.samples
            &&& sending.last_id == id
            &&& id == client::id_after(publisher.last_id)
            &&& sending.in_flight.contains_key(id) && sending.in_flight[id] == now
            &&& other != id ==> (sending.in_flight.contains_key(other)
                <==> publisher.in_flight.contains_key(other))
            &&& other != id && publisher.in_flight.contains_key(other)
                ==> sending.in_flight[other] == publisher.in_flight[other]
            &&& publisher.permits > 0 ==> sending.permits + 1 == publisher.permits
            &&& publisher.permits > 0 && !publisher.in_flight.contains_key(id) ==> {
                let back = sending.unsent(Some(id));
                &&& same_but_for_the_window(back, publisher)
                &&& back.samples == publisher.samples
                &&& back.permits == publisher.permits
                &&& back.in_flight == publisher.in_flight
            }
        },
        publisher.unsent(None) == publisher,
{
    if let Some(id) = publisher.next_packet_id() {
        if !publisher.in_flight.contains_key(id) {
            assert(publisher.sending(now).unsent(Some(id)).in_flight =~= publisher.in_flight);
        }
    }
}

/// The last acknowledgement of an outstanding message frees its slot and no other; an
/// acknowledgement of anything else changes nothing. An acceptance counts as such once, and a
/// refusal counts under its code even when nothing was outstanding.
pub proof fn an_acknowledgement_frees_its_own_slot(
    publisher: PublisherView,
    tally: Tally,
    id: u16,
    other: u16,
    code: ReasonCode,
    now: Instant,
    warmup_until: Instant,
)
    requires
        tally.acknowledged < u64::MAX,
        tally.refusals(code.byte) < u64::MAX,
    ensures
        ({
            let done = publisher.completed(id, code, now, warmup_until);
            let counted = publisher.tallied(tally, id, code);
            let outstanding = publisher.in_flight.contains_key(id);
            &&& same_but_for_the_window(done, publisher)
            &&& done.last_id == publisher.last_id
            &&& !outstanding ==> done == publisher
            &&& outstanding ==> done.permits == publisher.permits + 1
            &&& !done.in_flight.contains_key(id)
            &&& other != id ==> (done.in_flight.contains_key(other)
                <==> publisher.in_flight.contains_key(other))
            &&& other != id && publisher.in_flight.contains_key(other) ==> done.in_flight[other]
                == publisher.in_flight[other]
            &&& code.byte < 128 && outstanding ==> counted.acknowledged == tally.acknowledged + 1
            &&& code.byte < 128 && !outstanding ==> counted == tally
            &&& code.byte < 128 ==> counted.refused == tally.refused
            &&& code.byte >= 128 ==> counted.acknowledged == tally.acknowledged
                && counted.refusals(code.byte) == tally.refusals(code.byte) + 1
            &&& counted.published == tally.published
            &&& counted.received == tally.received
            &&& counted.bytes_sent == tally.bytes_sent
            &&& counted.bytes_received == tally.bytes_received
            &&& counted.publish_errors == tally.publish_errors
        }),
{
}

/// A PUBACK and a PUBCOMP are last acknowledgements, whatever they say, and a PUBREC is one exactly
/// when it refuses; each completes its own message. An accepting PUBREC leaves its PUBREL owed,
/// behind those owed before, and no other packet changes anything.
pub proof fn each_packet_answers_its_message(
    publisher: PublisherView,
    tally: Tally,
    packet: Packet,
    now: Instant,
    warmup_until: Instant,
)
    ensures
        PublisherView::completes(packet) is Some <==> (packet is Puback || packet is Pubcomp || (
        packet matches Packet::Pubrec(rec) && rec.reason_code.byte >= 128)),
        packet matches Packet::Puback(ack) ==> PublisherView::completes(packet) == Some(ack),
        packet matches Packet::Pubcomp(ack) ==> PublisherView::completes(packet) == Some(ack),
        packet matches Packet::Pubrec(rec) ==> (rec.reason_code.byte >= 128
            ==> PublisherView::completes(packet) == Some(rec)),
        PublisherView::completes(packet) matches Some(ack) ==> {
            &&& publisher.received(packet, now, warmup_until) == publisher.completed(
                ack.packet_id,
                ack.reason_code,
                now,
                warmup_until,
            )
            &&& publisher.tally_received(tally, packet) == publisher.tallied(
                tally,
                ack.packet_id,
                ack.reason_code,
            )
        },
        PublisherView::completes(packet) is None ==> publisher.tally_received(tally, packet)
            == tally,
        packet matches Packet::Pubrec(rec) ==> (rec.reason_code.byte < 128 ==> {
            let after = publisher.received(packet, now, warmup_until);
            &&& after.owed.len() == publisher.owed.len() + 1
            &&& after.owed.drop_last() == publisher.owed
            &&& after.owed.last() == rec.packet_id
            &&& after.in_flight == publisher.in_flight
            &&& after.permits == publisher.permits
            &&& after.samples == publisher.samples
        }),
        packet !is Puback && packet !is Pubrec && packet !is Pubcomp ==> publisher.received(
            packet,
            now,
            warmup_until,
        ) == publisher,
{
    if let Packet::Pubrec(rec) = packet {
        if rec.reason_code.byte < 128 {
            assert(publisher.received(packet, now, warmup_until).owed.drop_last()
                =~= publisher.owed);
        }
    }
}

/// What is owed is released in the order it became owed, one PUBREL each under the same identifier,
/// and is then owed no longer.
pub proof fn what_is_owed_is_released_in_order(publisher: PublisherView, i: int)
    ensures
        pubrels(publisher.owed).len() == publisher.owed.len(),
        0 <= i < publisher.owed.len() ==> (pubrels(publisher.owed)[i] matches Packet::Pubrel(rel)
            && rel.packet_id == publisher.owed[i] && rel.reason_code.byte == 0),
        ({
            let after = publisher.released();
            &&& after.owed.len() == 0
            &&& same_but_for_the_window(after, PublisherView { owed: after.owed, ..publisher })
            &&& after.in_flight == publisher.in_flight
            &&& after.permits == publisher.permits
            &&& after.samples == publisher.samples
            &&& after.last_id == publisher.last_id
        }),
{
}

/// A message that went out counts once towards the quota, and the end of the read side or of the
/// sending says so and changes nothing else.
pub proof fn sending_counts_towards_the_quota(publisher: PublisherView)
    requires
        publisher.sent < u64::MAX,
    ensures
        publisher.wrote().sent == publisher.sent + 1,
        publisher.wrote() == (PublisherView { sent: publisher.wrote().sent, ..publisher }),
        publisher.closing().closed,
        publisher.closing() == (PublisherView { closed: true, ..publisher }),
        publisher.cut_off().window_closed,
        publisher.cut_off() == (PublisherView { window_closed: true, ..publisher }),
{
}

/// A publisher is drained exactly when no message is outstanding. It waits five seconds for that,
/// and not at all once its window has closed; for its read side it waits as long, or as long as the
/// run's drain window where that is longer.
pub proof fn the_last_acknowledgements_are_waited_for(publisher: PublisherView, config: &Config)
    ensures
        publisher.drained() <==> forall|id: u16| !(#[trigger] publisher.in_flight.contains_key(id)),
        publisher.drain_time() is None <==> publisher.window_closed,
        publisher.drain_time() matches Some(limit) ==> limit.nanos == 5_000_000_000,
        join_time(config).nanos >= 5_000_000_000,
        join_time(config).nanos >= config.drain.nanos,
        join_time(config).nanos == 5_000_000_000 || join_time(config) == config.drain,
{
    if forall|id: u16| !(#[trigger] publisher.in_flight.contains_key(id)) {
        assert(publisher.in_flight =~= Map::<u16, Instant>::empty());
    }
}

/// A publisher succeeds exactly when its read side ended cleanly and sending never stopped for want
/// of acknowledgements. A failure names the publisher, and with it what the read side failed of or
/// how many messages had been sent.
pub proof fn a_publisher_fails_with_its_reason(publisher: PublisherView, end: AckEnd)
    ensures
        outcome_fault(publisher, end) is None <==> (end matches AckEnd::Finished(None)
            && !publisher.window_closed),
        outcome_fault(publisher, end) matches Some(fault) ==> (fault matches ErrorView::Usage(m)
            && ("publisher "@ + text::decimal_text(publisher.index as nat)).is_prefix_of(m) && {
            &&& end matches AckEnd::Panicked(e) ==> text::holds(m, e@)
            &&& end matches AckEnd::Finished(Some(e)) ==> text::holds(m, e@.text())
            &&& end matches AckEnd::Finished(None) ==> text::holds(
                m,
                text::decimal_text(publisher.sent as nat),
            )
            &&& end is TimedOut ==> text::holds(
                m,
                "acknowledgement task did not finish within the drain window; the broker likely never closed its half of the socket after DISCONNECT (3.14.4)"@,
            )
        }),
{
    let name = "publisher "@ + text::decimal_text(publisher.index as nat);
    match end {
        AckEnd::Panicked(e) => {
            lemma_named(name, " ack task failed: "@, e@);
        },
        AckEnd::Finished(Some(e)) => {
            lemma_named(name, ": the broker's reply stream failed: "@, e@.text());
        },
        AckEnd::Finished(None) => {
            let sent = text::decimal_text(publisher.sent as nat);
            let head = name + ": the broker closed the connection after "@ + sent;
            let tail = " message(s), before acknowledging the rest"@;
            lemma_named(name, ": the broker closed the connection after "@, sent);
            text::lemma_holds_appended(head, sent, tail);
            assert(name =~= (head + tail).take(name.len() as int));
        },
        AckEnd::TimedOut => {
            let tail =
                ": acknowledgement task did not finish within the drain window; the broker likely never closed its half of the socket after DISCONNECT (3.14.4)"@;
            let said =
                "acknowledgement task did not finish within the drain window; the broker likely never closed its half of the socket after DISCONNECT (3.14.4)"@;
            assert(name =~= (name + tail).take(name.len() as int));
            reveal_strlit(
                ": acknowledgement task did not finish within the drain window; the broker likely never closed its half of the socket after DISCONNECT (3.14.4)",
            );
            reveal_strlit(
                "acknowledgement task did not finish within the drain window; the broker likely never closed its half of the socket after DISCONNECT (3.14.4)",
            );
            let at = name.len() as int + 2;
            assert((name + tail).subrange(at, at + said.len()) =~= said);
            assert(text::holds_at(name + tail, said, at));
        },
    }
}

proof fn lemma_named(name: Seq<char>, what: Seq<char>, why: Seq<char>)
    ensures
        name.is_prefix_of(name + what + why),
        text::holds(name + what + why, why),
{
    text::lemma_holds_appended(name + what, why, why);
    assert(name =~= (name + what + why).take(name.len() as int));
}

} // verus!
