//! Subscribing: the request, its answer, what each message is answered with, and how a message is
//! printed.

use crate::cli::SubArgs;
use crate::client;
use crate::client::Client;
use crate::error::{Error, ErrorView};
use crate::mqtt::packet::{Packet, Properties, PropertiesView, PubAck, Publish, PublishView, Subscribe, SubscribeView, TopicFilter, TopicFilterView};
use crate::mqtt::types::{QoS, ReasonCode};
use crate::text;
use vstd::prelude::*;

verus! {

/// What a `sub` run is made of, settled before anything is dialled.
#[derive(Clone, Copy, Debug, PartialEq, Eq, Structural)]
pub struct SubscribePlan {
    pub qos: QoS,
    /// How many messages to receive; unbounded when there is no limit.
    pub limit: Option<u64>,
}

/// What keeps a `sub` run from being dialled, if anything: the first fault counts.
pub open spec fn plan_fault(args: &SubArgs) -> Option<ErrorView> {
    if args.topic@.len() == 0 {
        Some(ErrorView::Usage("sub needs at least one --topic"@))
    } else if QoS::of(args.qos) is None {
        Some(ErrorView::Mqtt(QoS::invalid(args.qos)))
    } else {
        None
    }
}

/// Settle a `sub` run.
pub fn plan(args: &SubArgs) -> (res: Result<SubscribePlan, Error>)
    ensures
        match res {
            Ok(plan) => {
                &&& plan_fault(args) is None
                &&& QoS::of(args.qos) == Some(plan.qos)
                &&& plan.limit == args.spec_effective_limit()
            },
            Err(e) => plan_fault(args) == Some(e@),
        },
{
    if args.topic.len() == 0 {
        return Err(Error::usage("sub needs at least one --topic"));
    }
    match QoS::from_u8(args.qos) {
        Ok(qos) => Ok(SubscribePlan { qos, limit: args.effective_limit() }),
        Err(e) => Err(Error::from(e)),
    }
}

/// The plain subscriptions to a list of filters.
pub open spec fn plain_filters(filters: Seq<String>, qos: QoS) -> Seq<TopicFilterView> {
    filters.map_values(|f: String| TopicFilterView::plain(f@, qos))
}

/// The SUBSCRIBE for a list of filters, when `last` is the packet identifier given out before.
pub open spec fn subscribe_view(filters: Seq<String>, qos: QoS, last: u16) -> SubscribeView {
    SubscribeView {
        packet_id: client::id_after(last),
        properties: PropertiesView::empty(),
        filters: plain_filters(filters, qos),
    }
}

/// One SUBSCRIBE carrying every filter.
pub fn subscribe_packet(client: &mut Client, filters: &Vec<String>, qos: QoS) -> (packet: Subscribe)
    ensures
        packet@ == subscribe_view(filters@, qos, old(client).last_id()),
        final(client).last_id() == client::id_after(old(client).last_id()),
        final(client).spec_version() == old(client).spec_version(),
        final(client).spec_keep_alive() == old(client).spec_keep_alive(),
        final(client).spec_max_packet_size() == old(client).spec_max_packet_size(),
{
    let packet_id: u16 = client.next_packet_id();
    let mut asked: Vec<TopicFilter> = Vec::new();
    let mut i: usize = 0;
    while i < filters.len()
        invariant
            i <= filters.len(),
            asked.len() == i,
            forall|j: int|
                0 <= j < i ==> #[trigger] asked@[j]@ == TopicFilterView::plain(filters@[j]@, qos),
        decreases filters.len() - i,
    {
        asked.push(TopicFilter::plain(filters[i].as_str(), qos));
        i += 1;
    }
    let packet = Subscribe { packet_id, properties: Properties::new(), filters: asked };
    assert(packet@.filters =~= plain_filters(filters@, qos));
    packet
}

/// The first of the first `n` filters that the broker refused, going by its codes in order.
pub open spec fn first_refused(codes: Seq<ReasonCode>, n: nat) -> Option<nat>
    decreases n,
{
    if n == 0 || n > codes.len() {
        None
    } else {
        match first_refused(codes, (n - 1) as nat) {
            Some(i) => Some(i),
            None => if codes[n - 1].spec_is_error() {
                Some((n - 1) as nat)
            } else {
                None
            },
        }
    }
}

/// How many of the filters the broker gave a code for.
pub open spec fn answered(filters: Seq<String>, codes: Seq<ReasonCode>) -> nat {
    if filters.len() < codes.len() {
        filters.len()
    } else {
        codes.len()
    }
}

/// What a packet says to someone waiting for SUBACK: whether the subscriptions stand.
pub open spec fn suback_of(filters: Seq<String>, packet: Packet) -> Result<bool, ErrorView> {
    match packet {
        Packet::Suback(ack) => match first_refused(
            ack.reason_codes@,
            answered(filters, ack.reason_codes@),
        ) {
            Some(i) => Err(
                ErrorView::Rejected {
                    what: "subscription to "@ + filters[i as int]@,
                    code: ack.reason_codes@[i as int],
                },
            ),
            None => Ok(true),
        },
        Packet::Disconnect(d) => Err(
            ErrorView::Rejected { what: "subscription"@, code: d.reason_code },
        ),
        _ => Ok(false),
    }
}

fn find_refused_among(codes: &Vec<ReasonCode>, n: usize) -> (res: Option<usize>)
    requires
        n <= codes@.len(),
    ensures
        match res {
            Some(i) => first_refused(codes@, n as nat) == Some(i as nat),
            None => first_refused(codes@, n as nat) is None,
        },
{
    let mut i: usize = 0;
    while i < n
        invariant
            i <= n <= codes@.len(),
            first_refused(codes@, i as nat) is None,
        decreases n - i,
    {
        if codes[i].is_error() {
            proof {
                assert(first_refused(codes@, (i + 1) as nat) == Some(i as nat));
                lemma_first_refused_stays(codes@, (i + 1) as nat, n as nat);
            }
            return Some(i);
        }
        i += 1;
    }
    None
}

/// The first code that is a refusal.
pub fn find_refused(codes: &Vec<ReasonCode>) -> (res: Option<usize>)
    ensures
        match res {
            Some(i) => i < codes@.len() && first_refused(codes@, codes@.len()) == Some(i as nat),
            None => first_refused(codes@, codes@.len()) is None,
        },
{
    proof {
        a_refused_filter_is_named(codes@, codes@.len());
    }
    find_refused_among(codes, codes.len())
}

/// A packet arrived while waiting for SUBACK. The broker answers with one reason code per filter,
/// in order. `false` is traffic to wait past: a retained message can come first.
pub fn check_suback(filters: &Vec<String>, packet: &Packet) -> (res: Result<bool, Error>)
    ensures
        match (res, suback_of(filters@, *packet)) {
            (Ok(done), Ok(expected)) => done == expected,
            (Err(e), Err(fault)) => e@ == fault,
            _ => false,
        },
{
    match packet {
        Packet::Suback(ack) => {
            let n: usize = if filters.len() < ack.reason_codes.len() {
                filters.len()
            } else {
                ack.reason_codes.len()
            };
            match find_refused_among(&ack.reason_codes, n) {
                Some(i) => {
                    proof {
                        a_refused_filter_is_named(ack.reason_codes@, n as nat);
                    }
                    let mut what = String::from_str("subscription to ");
                    what.append(filters[i].as_str());
                    Err(Error::Rejected { what, code: ack.reason_codes[i] })
                },
                None => Ok(true),
            }
        },
        Packet::Disconnect(d) => Err(Error::rejected("subscription", d.reason_code)),
        _ => Ok(false),
    }
}

proof fn lemma_first_refused_stays(codes: Seq<ReasonCode>, k: nat, n: nat)
    requires
        k <= n <= codes.len(),
        first_refused(codes, k) is Some,
    ensures
        first_refused(codes, n) == first_refused(codes, k),
    decreases n,
{
    if k < n {
        lemma_first_refused_stays(codes, k, (n - 1) as nat);
    }
}

/// The subscriptions stand exactly when no answered filter was refused; otherwise the error names
/// a refused filter before which none was.
pub proof fn a_refused_filter_is_named(codes: Seq<ReasonCode>, n: nat)
    requires
        n <= codes.len(),
    ensures
        match first_refused(codes, n) {
            Some(i) => {
                &&& i < n
                &&& codes[i as int].spec_is_error()
                &&& forall|j: int| 0 <= j < i ==> !(#[trigger] codes[j]).spec_is_error()
            },
            None => forall|j: int| 0 <= j < n ==> !(#[trigger] codes[j]).spec_is_error(),
        },
    decreases n,
{
    if n > 0 {
        a_refused_filter_is_named(codes, (n - 1) as nat);
    }
}

/// What an inbound message is answered with.
pub open spec fn acknowledgement(qos: QoS, packet_id: Option<u16>) -> Option<Packet> {
    match packet_id {
        Some(id) => match qos {
            QoS::AtMostOnce => None,
            QoS::AtLeastOnce => Some(Packet::Puback(PubAck::spec_success(id))),
            QoS::ExactlyOnce => Some(Packet::Pubrec(PubAck::spec_success(id))),
        },
        None => None,
    }
}

/// Acknowledge an inbound PUBLISH per its quality of service. QoS 2 is completed on the PUBREL
/// that follows.
pub fn acknowledge(publish: &Publish) -> (reply: Option<Packet>)
    ensures
        reply == acknowledgement(publish.qos, publish.packet_id),
{
    match publish.packet_id {
        Some(id) => match publish.qos {
            QoS::AtMostOnce => None,
            QoS::AtLeastOnce => Some(Packet::Puback(PubAck::success(id))),
            QoS::ExactlyOnce => Some(Packet::Pubrec(PubAck::success(id))),
        },
        None => None,
    }
}

/// What to do about a packet that arrived.
pub struct Reaction {
    /// Send this first.
    pub reply: Option<Packet>,
    /// The packet is a message to print.
    pub print: bool,
    /// The run is over.
    pub finished: bool,
}

/// How far a `sub` run has come.
#[derive(Clone, Copy, Debug, PartialEq, Eq, Structural)]
pub struct SubscribeRun {
    pub limit: Option<u64>,
    pub seen: u64,
}

/// The messages seen after one more; without a limit the count starts over at its end.
pub open spec fn seen_after(seen: u64) -> u64 {
    if seen == u64::MAX {
        0
    } else {
        (seen + 1) as u64
    }
}

impl SubscribeRun {
    /// Whether as many messages have been seen as there may be.
    pub open spec fn satisfied(self) -> bool {
        self.limit matches Some(limit) && self.seen >= limit
    }

    /// A run under way: not yet satisfied.
    pub open spec fn wf(self) -> bool {
        !self.satisfied()
    }

    /// A run at its start, unless its limit is satisfied already.
    pub open spec fn spec_start(limit: Option<u64>) -> Option<SubscribeRun> {
        let run = SubscribeRun { limit, seen: 0 };
        if run.satisfied() {
            None
        } else {
            Some(run)
        }
    }

    /// Nothing seen yet. `None` when the limit is satisfied from the start: such a run must end
    /// before it waits for a message.
    pub fn start(limit: Option<u64>) -> (run: Option<SubscribeRun>)
        ensures
            run == Self::spec_start(limit),
            run matches Some(run) ==> run.wf(),
    {
        match limit {
            Some(0) => None,
            _ => Some(SubscribeRun { limit, seen: 0 }),
        }
    }

    /// What to do about a packet.
    pub open spec fn reaction_to(self, packet: Packet) -> Result<Reaction, ErrorView> {
        match packet {
            Packet::Publish(p) => Ok(
                Reaction {
                    reply: acknowledgement(p.qos, p.packet_id),
                    print: true,
                    finished: (SubscribeRun { seen: seen_after(self.seen), ..self }).satisfied(),
                },
            ),
            Packet::Pubrel(rel) => Ok(
                Reaction {
                    reply: Some(Packet::Pubcomp(PubAck::spec_success(rel.packet_id))),
                    print: false,
                    finished: false,
                },
            ),
            Packet::Disconnect(d) => Err(
                ErrorView::Rejected { what: "subscription"@, code: d.reason_code },
            ),
            _ => Ok(Reaction { reply: None, print: false, finished: false }),
        }
    }

    /// How many messages have been seen after a packet.
    pub open spec fn seen_with(self, packet: Packet) -> u64 {
        if packet is Publish {
            seen_after(self.seen)
        } else {
            self.seen
        }
    }

    /// A packet arrived. A message is acknowledged, printed and counted; a PUBREL completes a
    /// QoS 2 delivery.
    pub fn on_packet(&mut self, packet: &Packet) -> (res: Result<Reaction, Error>)
        requires
            old(self).wf(),
        ensures
            *final(self) == (SubscribeRun {
                seen: old(self).seen_with(*packet),
                ..*old(self)
            }),
            match (res, old(self).reaction_to(*packet)) {
                (Ok(reaction), Ok(expected)) => {
                    &&& reaction == expected
                    &&& !reaction.finished ==> final(self).wf()
                },
                (Err(e), Err(fault)) => e@ == fault && final(self).wf(),
                _ => false,
            },
    {
        match packet {
            Packet::Publish(p) => {
                self.seen = if self.seen == u64::MAX {
                    0
                } else {
                    self.seen + 1
                };
                let finished = match self.limit {
                    Some(limit) => self.seen >= limit,
                    None => false,
                };
                Ok(Reaction { reply: acknowledge(p), print: true, finished })
            },
            Packet::Pubrel(rel) => Ok(
                Reaction {
                    reply: Some(Packet::Pubcomp(PubAck::success(rel.packet_id))),
                    print: false,
                    finished: false,
                },
            ),
            Packet::Disconnect(d) => Err(Error::rejected("subscription", d.reason_code)),
            _ => Ok(Reaction { reply: None, print: false, finished: false }),
        }
    }
}

/// A run with a limit ends with the message that reaches it: not before, and never later.
pub proof fn the_limit_is_met_exactly(run: SubscribeRun, limit: u64, p: Publish)
    requires
        run.wf(),
        run.limit == Some(limit),
    ensures
        run.reaction_to(Packet::Publish(p)) matches Ok(reaction) && (reaction.finished <==> run.seen
            + 1 == limit),
        run.seen < limit,
{
}

/// Every inbound QoS 2 message is answered PUBREC, and the PUBREL that follows PUBCOMP, both under
/// the message's own identifier.
pub proof fn exactly_once_is_completed(run: SubscribeRun, p: Publish, id: u16, rel: PubAck)
    requires
        p.qos == QoS::ExactlyOnce,
        p.packet_id == Some(id),
        rel.packet_id == id,
    ensures
        run.reaction_to(Packet::Publish(p)) matches Ok(reaction) && reaction.reply == Some(
            Packet::Pubrec(PubAck::spec_success(id)),
        ),
        run.reaction_to(Packet::Pubrel(rel)) matches Ok(reaction) && reaction.reply == Some(
            Packet::Pubcomp(PubAck::spec_success(id)),
        ),
{
}

/// Whether a byte may reach a terminal as it is: everything but the C0 controls and DEL, of which
/// the tab alone is layout. Bytes from 0x80 up are parts of multi-byte characters.
pub open spec fn printable(byte: u8) -> bool {
    byte == 0x09 || 0x20 <= byte < 0x7F || byte >= 0x80
}

/// The byte of one digit in base sixteen, lower case.
pub open spec fn hex_digit(d: int) -> u8 {
    if d < 10 {
        (0x30 + d) as u8
    } else {
        (0x57 + d) as u8
    }
}

/// What stands for a byte on a terminal: itself, or `\x` and its two digits.
pub open spec fn escape_byte(byte: u8) -> Seq<u8> {
    if printable(byte) {
        seq![byte]
    } else {
        seq![0x5C, 0x78, hex_digit(byte as int / 16), hex_digit(byte as int % 16)]
    }
}

/// What stands for bytes on a terminal.
pub open spec fn escaped(bytes: Seq<u8>) -> Seq<u8>
    decreases bytes.len(),
{
    if bytes.len() == 0 {
        Seq::empty()
    } else {
        escaped(bytes.drop_last()) + escape_byte(bytes.last())
    }
}

/// What is written for bytes: on a terminal escaped, anywhere else exactly what arrived.
pub open spec fn written(bytes: Seq<u8>, escape: bool) -> Seq<u8> {
    if escape {
        escaped(bytes)
    } else {
        bytes
    }
}

fn hex_digit_byte(d: u8) -> (res: u8)
    requires
        d < 16,
    ensures
        res == hex_digit(d as int),
{
    if d < 10 {
        0x30 + d
    } else {
        0x57 + d
    }
}

/// Write broker-supplied bytes, escaping control characters only when the destination is a
/// terminal.
///
/// A pipe or a file gets exactly what arrived. On a terminal the bytes are not just data: control
/// sequences could rewrite earlier output. Newline and carriage return are escaped too, since
/// either lets a payload forge what looks like a separate line of output.
pub fn write_payload(out: &mut Vec<u8>, bytes: &[u8], escape: bool)
    ensures
        final(out)@ == old(out)@ + written(bytes@, escape),
{
    if !escape {
        out.extend_from_slice(bytes);
        assert(out@ =~= old(out)@ + bytes@);
        return;
    }
    let ghost before = out@;
    let mut i: usize = 0;
    assert(before + escaped(bytes@.take(0)) =~= before);
    while i < bytes.len()
        invariant
            i <= bytes@.len(),
            out@ == before + escaped(bytes@.take(i as int)),
        decreases bytes@.len() - i,
    {
        let byte: u8 = bytes[i];
        if byte == 0x09 || (0x20 <= byte && byte < 0x7F) || byte >= 0x80 {
            out.push(byte);
        } else {
            out.push(0x5C);
            out.push(0x78);
            out.push(hex_digit_byte(byte / 16));
            out.push(hex_digit_byte(byte % 16));
        }
        i += 1;
        proof {
            let done = bytes@.take(i as int);
            assert(done.drop_last() =~= bytes@.take(i - 1));
            assert(out@ =~= before + escaped(done));
        }
    }
    assert(bytes@.take(i as int) =~= bytes@);
}

/// The properties of a message that are printed, each as `key=value`.
pub open spec fn property_parts(properties: PropertiesView) -> Seq<Seq<char>> {
    let content_type = match properties.content_type {
        Some(v) => seq!["content-type="@ + v],
        None => Seq::empty(),
    };
    let expiry = match properties.message_expiry_interval {
        Some(v) => seq!["message-expiry-interval="@ + text::decimal_text(v as nat)],
        None => Seq::empty(),
    };
    let format = match properties.payload_format_indicator {
        Some(v) => seq!["payload-format-indicator="@ + text::decimal_text(v as nat)],
        None => Seq::empty(),
    };
    content_type + expiry + format + properties.user_properties.map_values(
        |p: (Seq<char>, Seq<char>)| "user:"@ + p.0 + "="@ + p.1,
    )
}

/// The line of properties, if there is anything to print.
pub open spec fn property_line(properties: PropertiesView) -> Option<Seq<u8>> {
    if property_parts(properties).len() == 0 {
        None
    } else {
        Some(vstd::utf8::encode_utf8(text::spaced(property_parts(properties))))
    }
}

fn push_part(parts: &mut Vec<String>, part: String)
    ensures
        text::list_view(final(parts)@) == text::list_view(old(parts)@).push(part@),
{
    parts.push(part);
    assert(text::list_view(parts@) =~= text::list_view(old(parts)@).push(part@));
}

/// The v5 properties to print, one `key=value` per property, space-separated. `None` when the
/// message carries none of them, which is always so on v3.x.
pub fn format_properties(properties: &Properties) -> (line: Option<Vec<u8>>)
    ensures
        match line {
            Some(bytes) => property_line(properties@) == Some(bytes@),
            None => property_line(properties@) is None,
        },
{
    let mut parts: Vec<String> = Vec::new();
    assert(text::list_view(parts@) =~= Seq::<Seq<char>>::empty());
    if let Some(v) = &properties.content_type {
        let mut part = String::from_str("content-type=");
        part.append(v.as_str());
        push_part(&mut parts, part);
    }
    if let Some(v) = properties.message_expiry_interval {
        let mut part = String::from_str("message-expiry-interval=");
        part.append(text::decimal(v as u64).as_str());
        push_part(&mut parts, part);
    }
    if let Some(v) = properties.payload_format_indicator {
        let mut part = String::from_str("payload-format-indicator=");
        part.append(text::decimal(v as u64).as_str());
        push_part(&mut parts, part);
    }
    let ghost before = text::list_view(parts@);
    let ghost pairs = properties@.user_properties;
    let ghost shown = pairs.map_values(
        |p: (Seq<char>, Seq<char>)| "user:"@ + p.0 + "="@ + p.1,
    );
    let user_properties = &properties.user_properties;
    let mut i: usize = 0;
    assert(before + shown.take(0) =~= before);
    while i < user_properties.len()
        invariant
            i <= user_properties.len(),
            pairs == text::pairs_view(user_properties@),
            shown == pairs.map_values(|p: (Seq<char>, Seq<char>)| "user:"@ + p.0 + "="@ + p.1),
            text::list_view(parts@) == before + shown.take(i as int),
        decreases user_properties.len() - i,
    {
        let mut part = String::from_str("user:");
        part.append(user_properties[i].0.as_str());
        part.append("=");
        part.append(user_properties[i].1.as_str());
        assert(part@ == shown[i as int]);
        push_part(&mut parts, part);
        i += 1;
        assert(before + shown.take(i as int) =~= (before + shown.take(i - 1)).push(shown[i - 1]));
    }
    proof {
        assert(shown.take(i as int) =~= shown);
        assert(text::list_view(parts@) =~= property_parts(properties@));
        assert(text::list_view(parts@).len() == parts@.len());
    }
    if parts.len() == 0 {
        return None;
    }
    let line = text::join_spaced(&parts);
    Some(vstd::slice::slice_to_vec(line.as_str().as_bytes()))
}

/// What is printed before a payload when the topic is shown.
pub open spec fn heading(publish: PublishView, escape: bool) -> Seq<u8> {
    let properties = match property_line(publish.properties) {
        Some(line) => written(line, escape).push(0x0A),
        None => Seq::empty(),
    };
    properties + written(vstd::utf8::encode_utf8(publish.topic), escape).push(0x20)
}

/// What is printed for a message. The topic and the properties are the broker's words as much as
/// the payload is, and are escaped like it.
pub open spec fn printed(publish: PublishView, show_topic: bool, to_terminal: bool) -> Seq<u8> {
    (if show_topic {
        heading(publish, to_terminal)
    } else {
        Seq::empty()
    }) + written(publish.payload, to_terminal).push(0x0A)
}

/// What to print for a message: with `show_topic` its properties on a line of their own and its
/// topic, then its payload as received, then a line end.
pub fn print_message(publish: &Publish, show_topic: bool, to_terminal: bool) -> (out: Vec<u8>)
    ensures
        out@ == printed(publish@, show_topic, to_terminal),
{
    let mut out: Vec<u8> = Vec::new();
    if show_topic {
        if let Some(line) = format_properties(&publish.properties) {
            write_payload(&mut out, line.as_slice(), to_terminal);
            out.push(0x0A);
        }
        write_payload(&mut out, publish.topic.as_str().as_bytes(), to_terminal);
        out.push(0x20);
        assert(out@ =~= heading(publish@, to_terminal));
    }
    write_payload(&mut out, publish.payload.as_slice(), to_terminal);
    out.push(0x0A);
    assert(out@ =~= printed(publish@, show_topic, to_terminal));
    out
}

proof fn lemma_escape_byte_is_printable(byte: u8)
    ensures
        forall|i: int| 0 <= i < escape_byte(byte).len() ==> printable(#[trigger] escape_byte(byte)[i]),
{
}

/// Nothing but printable bytes reaches a terminal, whatever arrived: no byte below 32 but the tab,
/// and no DEL.
pub proof fn a_terminal_gets_no_control_byte(bytes: Seq<u8>)
    ensures
        forall|i: int|
            0 <= i < escaped(bytes).len() ==> {
                let byte = #[trigger] escaped(bytes)[i];
                (byte >= 32 || byte == 9) && byte != 127
            },
        forall|i: int| 0 <= i < escaped(bytes).len() ==> printable(#[trigger] escaped(bytes)[i]),
    decreases bytes.len(),
{
    if bytes.len() > 0 {
        let shorter = escaped(bytes.drop_last());
        let last = escape_byte(bytes.last());
        a_terminal_gets_no_control_byte(bytes.drop_last());
        lemma_escape_byte_is_printable(bytes.last());
        assert forall|i: int| 0 <= i < escaped(bytes).len() implies printable(
            #[trigger] escaped(bytes)[i],
        ) by {
            if i < shorter.len() {
                assert(escaped(bytes)[i] == shorter[i]);
            } else {
                assert(escaped(bytes)[i] == last[i - shorter.len()]);
            }
        }
    }
}

/// Printable text survives escaping unchanged.
pub proof fn printable_bytes_are_kept(bytes: Seq<u8>)
    requires
        forall|i: int| 0 <= i < bytes.len() ==> printable(#[trigger] bytes[i]),
    ensures
        escaped(bytes) == bytes,
    decreases bytes.len(),
{
    if bytes.len() > 0 {
        assert forall|i: int| 0 <= i < bytes.drop_last().len() implies printable(
            #[trigger] bytes.drop_last()[i],
        ) by {
            assert(bytes.drop_last()[i] == bytes[i]);
        }
        printable_bytes_are_kept(bytes.drop_last());
        assert(printable(bytes[bytes.len() - 1]));
        assert(escaped(bytes) =~= bytes);
    }
}

/// Escaping goes byte by byte: the pieces of a payload escape as the whole does.
pub proof fn escaping_is_piecewise(a: Seq<u8>, b: Seq<u8>)
    ensures
        escaped(a + b) == escaped(a) + escaped(b),
    decreases b.len(),
{
    if b.len() == 0 {
        assert(a + b =~= a);
        assert(escaped(a) + escaped(b) =~= escaped(a));
    } else {
        escaping_is_piecewise(a, b.drop_last());
        assert((a + b).drop_last() =~= a + b.drop_last());
        assert((a + b).last() == b.last());
        assert(escaped(a + b) =~= escaped(a) + escaped(b));
    }
}

/// A payload prints as exactly one line on a terminal: no byte of it can start another.
pub proof fn a_payload_cannot_forge_a_line(publish: PublishView)
    ensures
        ({
            let out = printed(publish, false, true);
            &&& out.last() == 0x0A
            &&& forall|i: int| 0 <= i < out.len() - 1 ==> #[trigger] out[i] != 0x0A
        }),
{
    let out = printed(publish, false, true);
    let body = escaped(publish.payload);
    a_terminal_gets_no_control_byte(publish.payload);
    assert(out =~= body.push(0x0A));
    assert forall|i: int| 0 <= i < out.len() - 1 implies #[trigger] out[i] != 0x0A by {
        assert(out[i] == body[i]);
        assert(printable(body[i]));
    }
}

/// Every filter is asked for, in order and once, at the quality asked for and without conditions,
/// under a packet identifier that is not 0.
pub proof fn every_filter_is_asked_for(filters: Seq<String>, qos: QoS, last: u16)
    ensures
        ({
            let asked = subscribe_view(filters, qos, last);
            &&& asked.packet_id != 0
            &&& last < 65535 ==> asked.packet_id == last + 1
            &&& asked.properties == PropertiesView::empty()
            &&& asked.filters.len() == filters.len()
            &&& forall|i: int|
                0 <= i < filters.len() ==> {
                    let one = #[trigger] asked.filters[i];
                    &&& one.filter == filters[i]@
                    &&& one.qos == qos
                    &&& !one.no_local
                    &&& !one.retain_as_published
                    &&& one.retain_handling
                        == crate::mqtt::packet::RetainHandling::SendAtSubscribe
                }
        }),
{
}

/// A run is settled exactly when it has a topic and its quality is one of the three; a missing
/// topic is reported first.
pub proof fn a_run_needs_a_topic_and_a_quality(args: &SubArgs)
    ensures
        plan_fault(args) is None <==> args.topic@.len() > 0 && args.qos <= 2,
        args.topic@.len() == 0 ==> (plan_fault(args) matches Some(e) && e is Usage),
        args.topic@.len() > 0 && args.qos > 2 ==> (plan_fault(args) matches Some(e) && e is Mqtt),
{
}

/// The subscriptions stand on a SUBACK in which no filter got a code from 0x80 on. A refused one
/// is an error with that code, so is the end of the session, and all else is waited past.
pub proof fn subscriptions_stand_on_a_good_suback(filters: Seq<String>, packet: Packet)
    ensures
        packet matches Packet::Suback(ack) ==> {
            let refused = exists|i: int|
                0 <= i < filters.len() && i < ack.reason_codes@.len() && (
                #[trigger] ack.reason_codes@[i]).byte >= 0x80;
            match suback_of(filters, packet) {
                Ok(done) => done && !refused,
                Err(e) => refused && exists|i: int|
                    0 <= i < filters.len() && i < ack.reason_codes@.len() && (
                    #[trigger] ack.reason_codes@[i]).byte >= 0x80 && e == (ErrorView::Rejected {
                        what: "subscription to "@ + filters[i]@,
                        code: ack.reason_codes@[i],
                    }),
            }
        },
        packet matches Packet::Disconnect(d) ==> suback_of(filters, packet) == Err::<
            bool,
            ErrorView,
        >(ErrorView::Rejected { what: "subscription"@, code: d.reason_code }),
        !(packet is Suback) && !(packet is Disconnect) ==> suback_of(filters, packet) == Ok::<
            bool,
            ErrorView,
        >(false),
{
    if let Packet::Suback(ack) = packet {
        let codes = ack.reason_codes@;
        let n = answered(filters, codes);
        a_refused_filter_is_named(codes, n);
        if let Some(i) = first_refused(codes, n) {
            assert(codes[i as int].byte >= 0x80);
        } else {
            assert forall|i: int| 0 <= i < filters.len() && i < codes.len() implies (
            #[trigger] codes[i]).byte < 0x80 by {
                assert(!codes[i].spec_is_error());
            }
        }
    }
}

/// A message is answered per its quality of service, under its own identifier: QoS 0 not at all,
/// QoS 1 with PUBACK and QoS 2 with PUBREC, both with the byte 0.
pub proof fn a_message_is_answered_per_its_quality(qos: QoS, packet_id: Option<u16>)
    ensures
        acknowledgement(qos, packet_id) is None <==> qos == QoS::AtMostOnce || packet_id is None,
        acknowledgement(qos, packet_id) matches Some(reply) ==> match reply {
            Packet::Puback(a) => qos == QoS::AtLeastOnce && packet_id == Some(a.packet_id)
                && a.reason_code.byte == 0,
            Packet::Pubrec(a) => qos == QoS::ExactlyOnce && packet_id == Some(a.packet_id)
                && a.reason_code.byte == 0,
            _ => false,
        },
{
}

/// Every message is printed, whatever its flags, topic, quality or payload, and nothing else is; it
/// is answered as its quality asks and counted. The only packet that ends a run in an error is
/// DISCONNECT, with its reason code.
pub proof fn every_message_is_printed_and_counted(run: SubscribeRun, packet: Packet)
    ensures
        packet is Disconnect <==> run.reaction_to(packet) is Err,
        packet matches Packet::Disconnect(d) ==> run.reaction_to(packet)->Err_0 == (
        ErrorView::Rejected { what: "subscription"@, code: d.reason_code }),
        run.reaction_to(packet) matches Ok(reaction) ==> {
            &&& reaction.print <==> packet is Publish
            &&& packet matches Packet::Publish(p) ==> reaction.reply == acknowledgement(
                p.qos,
                p.packet_id,
            )
            &&& packet matches Packet::Pubrel(rel) ==> reaction.reply == Some(
                Packet::Pubcomp(PubAck { packet_id: rel.packet_id, reason_code: ReasonCode { byte: 0 } }),
            )
            &&& !(packet is Publish) && !(packet is Pubrel) ==> reaction.reply is None
            &&& reaction.finished ==> packet is Publish && run.limit is Some
        },
        packet is Publish && run.seen < u64::MAX ==> run.seen_with(packet) == run.seen + 1,
        !(packet is Publish) ==> run.seen_with(packet) == run.seen,
{
}

/// How many messages the first `n` packets hold.
pub open spec fn messages(packets: Seq<Packet>, n: nat) -> nat
    decreases n,
{
    if n == 0 || n > packets.len() {
        0
    } else {
        messages(packets, (n - 1) as nat) + (if packets[n - 1] is Publish {
            1nat
        } else {
            0nat
        })
    }
}

/// A run after the first `n` packets.
pub open spec fn run_after(run: SubscribeRun, packets: Seq<Packet>, n: nat) -> SubscribeRun
    decreases n,
{
    if n == 0 || n > packets.len() {
        run
    } else {
        let before = run_after(run, packets, (n - 1) as nat);
        SubscribeRun { seen: before.seen_with(packets[n - 1]), ..before }
    }
}

/// How many of the first `n` packets a run prints.
pub open spec fn printed_of(run: SubscribeRun, packets: Seq<Packet>, n: nat) -> nat
    decreases n,
{
    if n == 0 || n > packets.len() {
        0
    } else {
        let before = run_after(run, packets, (n - 1) as nat);
        printed_of(run, packets, (n - 1) as nat) + (match before.reaction_to(packets[n - 1]) {
            Ok(reaction) => if reaction.print {
                1nat
            } else {
                0nat
            },
            Err(_) => 0nat,
        })
    }
}

/// As many messages are printed as are counted, and as have arrived, whatever came between them.
pub proof fn printed_is_counted_is_arrived(run: SubscribeRun, packets: Seq<Packet>, n: nat)
    requires
        n <= packets.len(),
        run.seen + packets.len() <= u64::MAX,
    ensures
        run_after(run, packets, n).seen == run.seen + messages(packets, n),
        run_after(run, packets, n).limit == run.limit,
        printed_of(run, packets, n) == messages(packets, n),
        messages(packets, n) <= n,
    decreases n,
{
    if n > 0 {
        printed_is_counted_is_arrived(run, packets, (n - 1) as nat);
        every_message_is_printed_and_counted(
            run_after(run, packets, (n - 1) as nat),
            packets[n - 1],
        );
    }
}

/// The value of a digit in base sixteen as a terminal shows it.
pub open spec fn shown_digit(byte: u8) -> int {
    if 48 <= byte <= 57 {
        byte - 48
    } else if 97 <= byte <= 102 {
        byte - 87
    } else {
        -1
    }
}

/// A byte is escaped exactly when it is a control: below 32 and no tab, or DEL. What stands for it
/// is `\x` and two digits that give the byte back; every other byte stands for itself.
pub proof fn an_escape_can_be_read_back(byte: u8)
    ensures
        escape_byte(byte).len() == 1 <==> (byte >= 32 || byte == 9) && byte != 127,
        escape_byte(byte).len() == 1 ==> escape_byte(byte)[0] == byte,
        escape_byte(byte).len() != 1 ==> {
            &&& escape_byte(byte).len() == 4
            &&& escape_byte(byte)[0] == 92
            &&& escape_byte(byte)[1] == 120
            &&& shown_digit(escape_byte(byte)[2]) * 16 + shown_digit(escape_byte(byte)[3]) == byte
            &&& 0 <= shown_digit(escape_byte(byte)[2]) < 16
            &&& 0 <= shown_digit(escape_byte(byte)[3]) < 16
        },
{
}

/// One byte escapes on its own, and nothing escapes to nothing.
pub proof fn escaping_starts_with_one_byte(byte: u8)
    ensures
        escaped(seq![byte]) == escape_byte(byte),
        escaped(Seq::empty()) == Seq::<u8>::empty(),
{
    let one = seq![byte];
    assert(one.drop_last() =~= Seq::<u8>::empty());
    assert(escaped(one.drop_last()) =~= Seq::<u8>::empty());
    assert(one.last() == byte);
    assert(escaped(one) =~= escape_byte(byte));
}

/// A pipe or a file gets the payload byte for byte, behind the topic and its properties when they
/// are shown and before one line end; a terminal gets the same things in the same order, each of
/// them escaped.
pub proof fn a_message_is_printed_in_order(publish: PublishView, show_topic: bool, to_terminal: bool)
    ensures
        ({
            let shown = |bytes: Seq<u8>| if to_terminal {
                escaped(bytes)
            } else {
                bytes
            };
            let out = printed(publish, show_topic, to_terminal);
            let topic = shown(vstd::utf8::encode_utf8(publish.topic));
            let payload = shown(publish.payload);
            &&& !show_topic ==> out == payload + seq![10u8]
            &&& show_topic && property_line(publish.properties) is None ==> out == topic + seq![
                32u8,
            ] + payload + seq![10u8]
            &&& show_topic ==> (property_line(publish.properties) matches Some(line) ==> out
                == shown(line) + seq![10u8] + topic + seq![32u8] + payload + seq![10u8])
        }),
{
    let shown = |bytes: Seq<u8>| if to_terminal {
        escaped(bytes)
    } else {
        bytes
    };
    let out = printed(publish, show_topic, to_terminal);
    let topic = shown(vstd::utf8::encode_utf8(publish.topic));
    let payload = shown(publish.payload);
    if !show_topic {
        assert(out =~= payload + seq![10u8]);
    } else if let Some(line) = property_line(publish.properties) {
        assert(out =~= shown(line) + seq![10u8] + topic + seq![32u8] + payload + seq![10u8]);
    } else {
        assert(out =~= topic + seq![32u8] + payload + seq![10u8]);
    }
}

/// Each property that is printed is a part of the line under its own key, in a fixed order, the
/// user's in the order they came in; there is a line exactly when there is one of them.
pub proof fn every_property_is_printed(properties: PropertiesView)
    ensures
        ({
            let parts = property_parts(properties);
            let a = if properties.content_type is Some {
                1int
            } else {
                0
            };
            let b = a + if properties.message_expiry_interval is Some {
                1int
            } else {
                0
            };
            let c = b + if properties.payload_format_indicator is Some {
                1int
            } else {
                0
            };
            &&& parts.len() == c + properties.user_properties.len()
            &&& properties.content_type matches Some(v) ==> parts[0] == "content-type="@ + v
            &&& properties.message_expiry_interval matches Some(v) ==> parts[a]
                == "message-expiry-interval="@ + text::decimal_text(v as nat)
            &&& properties.payload_format_indicator matches Some(v) ==> parts[b]
                == "payload-format-indicator="@ + text::decimal_text(v as nat)
            &&& forall|i: int|
                0 <= i < properties.user_properties.len() ==> parts[c + i] == "user:"@ + (
                #[trigger] properties.user_properties[i]).0 + "="@
                    + properties.user_properties[i].1
            &&& property_line(properties) is None <==> parts.len() == 0
            &&& property_line(properties) matches Some(line) ==> line == vstd::utf8::encode_utf8(
                text::spaced(parts),
            )
        }),
{
}

/// A run starts with nothing seen and with its limit, unless that is zero: then there is none.
pub proof fn a_run_of_no_messages_never_starts(limit: Option<u64>)
    ensures
        SubscribeRun::spec_start(limit) is None <==> limit == Some(0u64),
        SubscribeRun::spec_start(limit) matches Some(run) ==> run.limit == limit && run.seen == 0,
{
}

/// Every message seen counts one; after the largest number the count starts over at zero.
pub proof fn messages_are_counted_one_by_one(seen: u64)
    ensures
        seen < u64::MAX ==> seen_after(seen) == seen + 1,
        seen == u64::MAX ==> seen_after(seen) == 0,
{
}

} // verus!
