//! Publishing: where the payload comes from, which properties go with it, and the acknowledgement
//! that each quality of service owes.

use crate::cli;
use crate::cli::PubArgs;
use crate::client;
use crate::client::Client;
use crate::error::{Error, ErrorView};
use crate::mqtt::packet::{Packet, Properties, PropertiesView, PubAck, Publish, PublishView};
use crate::mqtt::types::{ProtocolVersion, QoS, ReasonCode};
use crate::text;
use vstd::prelude::*;

verus! {

/// Where the payload, or payloads, to publish come from.
pub enum PayloadSource {
    /// One payload, one PUBLISH.
    Once(Vec<u8>),
    /// One PUBLISH per line of standard input, all over one connection.
    Lines,
}

/// What has to be read before the payload is known.
#[derive(Clone, Copy, Debug, PartialEq, Eq, Structural)]
pub enum PayloadInput {
    Nothing,
    /// All of standard input.
    Stdin,
    /// The file the arguments name.
    File,
}

/// What has to be read before the payload is known.
pub open spec fn spec_payload_input(args: &PubArgs) -> PayloadInput {
    if args.stdin_lines {
        PayloadInput::Nothing
    } else {
        match args.file {
            Some(path) => if path@ == "-"@ {
                PayloadInput::Stdin
            } else {
                PayloadInput::File
            },
            None => PayloadInput::Nothing,
        }
    }
}

/// What has to be read before the payload is known.
pub fn payload_input(args: &PubArgs) -> (input: PayloadInput)
    ensures
        input == spec_payload_input(args),
{
    if args.stdin_lines {
        return PayloadInput::Nothing;
    }
    match &args.file {
        Some(path) => if text::same(path.as_str(), "-") {
            PayloadInput::Stdin
        } else {
            PayloadInput::File
        },
        None => PayloadInput::Nothing,
    }
}

/// The failure to read standard input.
pub fn stdin_error(e: &str) -> (error: Error)
    ensures
        error@ == ErrorView::Usage("reading stdin: "@ + e@),
{
    let mut message = String::from_str("reading stdin: ");
    message.append(e);
    Error::Usage(message)
}

/// The failure to read a file.
pub fn file_error(path: &str, e: &str) -> (error: Error)
    ensures
        error@ == ErrorView::Usage(path@ + ": "@ + e@),
{
    let mut message = String::from_str(path);
    message.append(": ");
    message.append(e);
    Error::Usage(message)
}

/// Where the payload comes from: lines beat the file, the file beats the message, and without any
/// of them the payload is empty. `None` in an `Ok` stands for lines.
pub open spec fn chosen_payload(
    args: &PubArgs,
    read: Option<Result<Seq<u8>, Seq<char>>>,
) -> Result<Option<Seq<u8>>, ErrorView> {
    if args.stdin_lines {
        Ok(None)
    } else {
        match read {
            Some(Ok(bytes)) => Ok(Some(bytes)),
            Some(Err(e)) => if spec_payload_input(args) == PayloadInput::Stdin {
                Err(ErrorView::Usage("reading stdin: "@ + e))
            } else {
                Err(ErrorView::Usage(args.file->0@ + ": "@ + e))
            },
            None => Ok(Some(text::opt_bytes(args.message))),
        }
    }
}

/// What a payload source holds; `None` stands for lines.
pub open spec fn source_view(source: PayloadSource) -> Option<Seq<u8>> {
    match source {
        PayloadSource::Once(payload) => Some(payload@),
        PayloadSource::Lines => None,
    }
}

/// Where the payload comes from. `read` is what reading the `payload_input` gave, its contents or
/// the system's message.
pub fn resolve_payload(args: &PubArgs, read: Option<Result<Vec<u8>, String>>) -> (res: Result<
    PayloadSource,
    Error,
>)
    requires
        read.is_some() == (spec_payload_input(args) != PayloadInput::Nothing),
    ensures
        match (res, chosen_payload(args, cli::read_view(read))) {
            (Ok(source), Ok(payload)) => source_view(source) == payload,
            (Err(e), Err(fault)) => e@ == fault,
            _ => false,
        },
{
    if args.stdin_lines {
        return Ok(PayloadSource::Lines);
    }
    match read {
        Some(Ok(bytes)) => Ok(PayloadSource::Once(bytes)),
        Some(Err(e)) => match &args.file {
            Some(path) => if text::same(path.as_str(), "-") {
                Err(stdin_error(e.as_str()))
            } else {
                Err(file_error(path.as_str(), e.as_str()))
            },
            None => Err(stdin_error(e.as_str())),
        },
        None => Ok(PayloadSource::Once(text::bytes_or_empty(&args.message))),
    }
}

/// Whether the arguments ask for a property.
pub open spec fn asks_for_properties(args: &PubArgs) -> bool {
    ||| args.user_properties@.len() > 0
    ||| args.message_expiry_interval.is_some()
    ||| args.content_type.is_some()
    ||| args.payload_format_indicator
}

/// The properties that go with the message. Only v5 has any, and asking for one on another
/// version is refused before anything is dialled.
pub open spec fn chosen_properties(args: &PubArgs) -> Result<PropertiesView, ErrorView> {
    if args.conn.protocol.spec_version() == ProtocolVersion::V5 {
        Ok(
            PropertiesView {
                user_properties: text::pairs_view(args.user_properties@),
                message_expiry_interval: args.message_expiry_interval,
                content_type: text::opt_view(args.content_type),
                payload_format_indicator: if args.payload_format_indicator {
                    Some(1u8)
                } else {
                    None
                },
                ..PropertiesView::empty()
            },
        )
    } else if asks_for_properties(args) {
        Err(
            ErrorView::Usage(
                "--user-property/--message-expiry-interval/--content-type/--payload-format-indicator need v5 properties (--protocol 5)"@,
            ),
        )
    } else {
        Ok(PropertiesView::empty())
    }
}

/// The properties that go with the message.
pub fn resolve_properties(args: &PubArgs) -> (res: Result<Properties, Error>)
    ensures
        match (res, chosen_properties(args)) {
            (Ok(properties), Ok(expected)) => properties@ == expected,
            (Err(e), Err(fault)) => e@ == fault,
            _ => false,
        },
{
    if args.conn.version().has_properties() {
        let mut properties = Properties::new();
        properties.user_properties = text::clone_pairs(&args.user_properties);
        properties.message_expiry_interval = args.message_expiry_interval;
        properties.content_type = text::clone_opt(&args.content_type);
        if args.payload_format_indicator {
            properties.payload_format_indicator = Some(1);
        }
        return Ok(properties);
    }
    if args.user_properties.len() > 0 || args.message_expiry_interval.is_some()
        || args.content_type.is_some() || args.payload_format_indicator {
        return Err(
            Error::usage(
                "--user-property/--message-expiry-interval/--content-type/--payload-format-indicator need v5 properties (--protocol 5)",
            ),
        );
    }
    Ok(Properties::new())
}

/// What a `pub` run is made of, settled before anything is dialled.
pub struct PublishPlan {
    pub qos: QoS,
    pub source: PayloadSource,
    pub properties: Properties,
}

/// What keeps a `pub` run from being dialled, if anything: the first fault counts.
pub open spec fn plan_fault(
    args: &PubArgs,
    read: Option<Result<Seq<u8>, Seq<char>>>,
) -> Option<ErrorView> {
    if QoS::of(args.qos) is None {
        Some(ErrorView::Mqtt(QoS::invalid(args.qos)))
    } else if chosen_payload(args, read) is Err {
        Some(chosen_payload(args, read)->Err_0)
    } else if chosen_properties(args) is Err {
        Some(chosen_properties(args)->Err_0)
    } else {
        None
    }
}

/// Settle a `pub` run. `read` is what reading the `payload_input` gave.
pub fn plan(args: &PubArgs, read: Option<Result<Vec<u8>, String>>) -> (res: Result<
    PublishPlan,
    Error,
>)
    requires
        read.is_some() == (spec_payload_input(args) != PayloadInput::Nothing),
    ensures
        match res {
            Ok(plan) => {
                &&& plan_fault(args, cli::read_view(read)) is None
                &&& QoS::of(args.qos) == Some(plan.qos)
                &&& chosen_payload(args, cli::read_view(read)) == Ok::<
                    Option<Seq<u8>>,
                    ErrorView,
                >(source_view(plan.source))
                &&& chosen_properties(args) == Ok::<PropertiesView, ErrorView>(plan.properties@)
            },
            Err(e) => plan_fault(args, cli::read_view(read)) == Some(e@),
        },
{
    let qos = match QoS::from_u8(args.qos) {
        Ok(qos) => qos,
        Err(e) => {
            return Err(Error::from(e));
        },
    };
    let source = match resolve_payload(args, read) {
        Ok(source) => source,
        Err(e) => {
            return Err(e);
        },
    };
    match resolve_properties(args) {
        Ok(properties) => Ok(PublishPlan { qos, source, properties }),
        Err(e) => Err(e),
    }
}

/// A packet identifier, where the quality of service calls for one.
pub open spec fn id_for(qos: QoS, last: u16) -> Option<u16> {
    if qos == QoS::AtMostOnce {
        None
    } else {
        Some(client::id_after(last))
    }
}

/// The packet identifier given out last, after a message at this quality of service.
pub open spec fn last_id_after(qos: QoS, last: u16) -> u16 {
    match id_for(qos, last) {
        Some(id) => id,
        None => last,
    }
}

/// The PUBLISH of a message, when `last` is the packet identifier given out before.
pub open spec fn message_view(
    topic: Seq<char>,
    payload: Seq<u8>,
    qos: QoS,
    retain: bool,
    properties: PropertiesView,
    last: u16,
) -> PublishView {
    PublishView {
        dup: false,
        qos,
        retain,
        topic,
        packet_id: id_for(qos, last),
        properties,
        payload,
    }
}

/// The PUBLISH of a message, under a packet identifier of its own where the quality of service
/// calls for one.
pub fn publish_packet(
    client: &mut Client,
    topic: &str,
    payload: Vec<u8>,
    qos: QoS,
    retain: bool,
    properties: Properties,
) -> (publish: Publish)
    ensures
        publish@ == message_view(
            topic@,
            payload@,
            qos,
            retain,
            properties@,
            old(client).last_id(),
        ),
        final(client).last_id() == last_id_after(qos, old(client).last_id()),
        final(client).spec_version() == old(client).spec_version(),
        final(client).spec_keep_alive() == old(client).spec_keep_alive(),
        final(client).spec_max_packet_size() == old(client).spec_max_packet_size(),
{
    let packet_id = match qos {
        QoS::AtMostOnce => None,
        _ => Some(client.next_packet_id()),
    };
    Publish {
        dup: false,
        qos,
        retain,
        topic: String::from_str(topic),
        packet_id,
        properties,
        payload,
    }
}

/// What a packet says to someone waiting for an acknowledgement: its reason code, that none will
/// come, or nothing. Whatever else the broker sends in the meantime is ignored.
pub open spec fn ack_of(packet: Packet, what: Seq<char>) -> Result<Option<ReasonCode>, ErrorView> {
    match packet {
        Packet::Puback(a) => Ok(Some(a.reason_code)),
        Packet::Pubrec(a) => Ok(Some(a.reason_code)),
        Packet::Pubcomp(a) => Ok(Some(a.reason_code)),
        Packet::Disconnect(d) => Err(ErrorView::Rejected { what, code: d.reason_code }),
        _ => Ok(None),
    }
}

/// Read a packet as an acknowledgement. `None` is traffic to wait past.
pub fn expect_ack(packet: &Packet, what: &str) -> (res: Result<Option<ReasonCode>, Error>)
    ensures
        match (res, ack_of(*packet, what@)) {
            (Ok(code), Ok(expected)) => code == expected,
            (Err(e), Err(fault)) => e@ == fault,
            _ => false,
        },
{
    match packet {
        Packet::Puback(a) => Ok(Some(a.reason_code)),
        Packet::Pubrec(a) => Ok(Some(a.reason_code)),
        Packet::Pubcomp(a) => Ok(Some(a.reason_code)),
        Packet::Disconnect(d) => Err(Error::rejected(what, d.reason_code)),
        _ => Ok(None),
    }
}

/// What is wrong with a reason code, if it is a failure.
pub open spec fn refusal(code: ReasonCode, what: Seq<char>) -> Option<ErrorView> {
    if code.spec_is_error() {
        Some(ErrorView::Rejected { what, code })
    } else {
        None
    }
}

/// Refuse a reason code that is a failure. That a message matched no subscriber is none: it was
/// accepted and had nowhere to go.
pub fn check(code: ReasonCode, what: &str) -> (res: Result<(), Error>)
    ensures
        match res {
            Ok(_) => refusal(code, what@) is None,
            Err(e) => refusal(code, what@) == Some(e@),
        },
{
    if code.is_error() {
        Err(Error::rejected(what, code))
    } else {
        Ok(())
    }
}

/// How far the acknowledgement of one message has come.
#[derive(Clone, Copy, Debug, PartialEq, Eq, Structural)]
pub enum PublishFlow {
    /// Waiting for the one acknowledgement of QoS 1.
    AwaitPuback,
    /// Waiting for the first acknowledgement of QoS 2 message `0`.
    AwaitPubrec(u16),
    /// Waiting for the second acknowledgement of QoS 2.
    AwaitPubcomp,
    /// Nothing is owed any more.
    Done,
}

impl PublishFlow {
    /// What is owed after a PUBLISH went out: nothing for QoS 0.
    pub open spec fn spec_start(qos: QoS, packet_id: Option<u16>) -> PublishFlow {
        match (qos, packet_id) {
            (QoS::AtLeastOnce, _) => PublishFlow::AwaitPuback,
            (QoS::ExactlyOnce, Some(id)) => PublishFlow::AwaitPubrec(id),
            _ => PublishFlow::Done,
        }
    }

    /// What is owed after a PUBLISH went out: nothing for QoS 0, which is fire and forget.
    pub fn start(qos: QoS, packet_id: Option<u16>) -> (flow: PublishFlow)
        requires
            qos != QoS::AtMostOnce ==> packet_id.is_some(),
        ensures
            flow == Self::spec_start(qos, packet_id),
    {
        match (qos, packet_id) {
            (QoS::AtLeastOnce, _) => PublishFlow::AwaitPuback,
            (QoS::ExactlyOnce, Some(id)) => PublishFlow::AwaitPubrec(id),
            _ => PublishFlow::Done,
        }
    }

    /// What is owed after a good acknowledgement, and the packet to send first.
    pub open spec fn acknowledged(self) -> (PublishFlow, Option<Packet>) {
        match self {
            PublishFlow::AwaitPubrec(id) => (
                PublishFlow::AwaitPubcomp,
                Some(Packet::Pubrel(PubAck::spec_success(id))),
            ),
            _ => (PublishFlow::Done, None),
        }
    }

    /// What is owed after a packet arrived, and the packet to send first.
    pub open spec fn after(self, packet: Packet) -> Result<
        (PublishFlow, Option<Packet>),
        ErrorView,
    > {
        match ack_of(packet, "publish"@) {
            Ok(Some(code)) => if code.spec_is_error() {
                Err(ErrorView::Rejected { what: "publish"@, code })
            } else {
                Ok(self.acknowledged())
            },
            Ok(None) => Ok((self, None)),
            Err(fault) => Err(fault),
        }
    }

    /// A packet arrived while something was owed.
    pub fn on_packet(self, packet: &Packet) -> (res: Result<(PublishFlow, Option<Packet>), Error>)
        requires
            self != PublishFlow::Done,
        ensures
            match (res, self.after(*packet)) {
                (Ok(step), Ok(expected)) => step == expected,
                (Err(e), Err(fault)) => e@ == fault,
                _ => false,
            },
    {
        let code = match expect_ack(packet, "publish") {
            Ok(Some(code)) => code,
            Ok(None) => {
                return Ok((self, None));
            },
            Err(e) => {
                return Err(e);
            },
        };
        if let Err(e) = check(code, "publish") {
            return Err(e);
        }
        match self {
            PublishFlow::AwaitPubrec(id) => Ok(
                (PublishFlow::AwaitPubcomp, Some(Packet::Pubrel(PubAck::success(id)))),
            ),
            _ => Ok((PublishFlow::Done, None)),
        }
    }
}

/// Whether a packet accepts a message.
pub open spec fn accepts(packet: Packet) -> bool {
    ack_of(packet, "publish"@) matches Ok(Some(code)) && !code.spec_is_error()
}

/// QoS 0 owes nothing, QoS 1 is done after one good acknowledgement, and QoS 2 after two, with a
/// PUBREL for the message between them.
pub proof fn each_quality_completes_its_handshake(id: u16, first: Packet, second: Packet)
    requires
        accepts(first),
        accepts(second),
    ensures
        PublishFlow::spec_start(QoS::AtMostOnce, None) == PublishFlow::Done,
        PublishFlow::spec_start(QoS::AtLeastOnce, Some(id)).after(first) == Ok::<
            (PublishFlow, Option<Packet>),
            ErrorView,
        >((PublishFlow::Done, None)),
        PublishFlow::spec_start(QoS::ExactlyOnce, Some(id)).after(first) == Ok::<
            (PublishFlow, Option<Packet>),
            ErrorView,
        >((PublishFlow::AwaitPubcomp, Some(Packet::Pubrel(PubAck::spec_success(id))))),
        PublishFlow::AwaitPubcomp.after(second) == Ok::<(PublishFlow, Option<Packet>), ErrorView>(
            (PublishFlow::Done, None),
        ),
{
}

/// Whether a packet is an acknowledgement of a message.
pub open spec fn acknowledges(packet: Packet) -> bool {
    packet is Puback || packet is Pubrec || packet is Pubcomp
}

/// A refused message ends in an error wherever the handshake stands, and whatever is neither an
/// acknowledgement nor the end of the session is ignored: it changes nothing and is not answered.
pub proof fn a_refusal_is_reported(flow: PublishFlow, ack: PubAck, other: Packet)
    requires
        ack.reason_code.spec_is_error(),
        !acknowledges(other),
        !(other is Disconnect),
    ensures
        ({
            let refused = Err::<(PublishFlow, Option<Packet>), ErrorView>(
                ErrorView::Rejected { what: "publish"@, code: ack.reason_code },
            );
            &&& flow.after(Packet::Puback(ack)) == refused
            &&& flow.after(Packet::Pubrec(ack)) == refused
            &&& flow.after(Packet::Pubcomp(ack)) == refused
        }),
        flow.after(other) == Ok::<(PublishFlow, Option<Packet>), ErrorView>((flow, None)),
{
}

/// A message goes out as it was given: to its topic, with its bytes, at its quality, retained
/// exactly when asked, with its properties, and never as a duplicate. It has a packet identifier
/// exactly when its quality is acknowledged; that is never 0 and never the one before.
pub proof fn a_message_goes_out_as_given(
    topic: Seq<char>,
    payload: Seq<u8>,
    qos: QoS,
    retain: bool,
    properties: PropertiesView,
    last: u16,
)
    ensures
        ({
            let sent = message_view(topic, payload, qos, retain, properties, last);
            &&& !sent.dup
            &&& sent.retain <==> retain
            &&& sent.topic == topic
            &&& sent.payload == payload
            &&& sent.qos == qos
            &&& sent.properties == properties
            &&& sent.packet_id is None <==> qos == QoS::AtMostOnce
            &&& sent.packet_id matches Some(id) ==> id != 0 && id != last
            &&& sent.packet_id matches Some(id) ==> last < 65535 ==> id == last + 1
        }),
{
}

/// What has to be read: nothing when lines are published or no file was named, standard input when
/// the file is `-`, and the file otherwise.
pub proof fn what_is_read_follows_the_file(args: &PubArgs)
    ensures
        spec_payload_input(args) == PayloadInput::Nothing <==> args.stdin_lines || args.file is None,
        spec_payload_input(args) == PayloadInput::Stdin <==> !args.stdin_lines && (
        args.file matches Some(path) && path@ == "-"@),
        spec_payload_input(args) == PayloadInput::File <==> !args.stdin_lines && (
        args.file matches Some(path) && path@ != "-"@),
{
}

/// The payload is what was read, byte for byte, else the bytes of the message, else empty; with
/// lines there is no single payload. Only a failed read is an error.
pub proof fn the_payload_is_taken_unchanged(
    args: &PubArgs,
    read: Option<Result<Seq<u8>, Seq<char>>>,
)
    ensures
        args.stdin_lines ==> chosen_payload(args, read) == Ok::<Option<Seq<u8>>, ErrorView>(None),
        !args.stdin_lines ==> match read {
            Some(Ok(bytes)) => chosen_payload(args, read) == Ok::<Option<Seq<u8>>, ErrorView>(
                Some(bytes),
            ),
            Some(Err(e)) => chosen_payload(args, read) matches Err(ErrorView::Usage(m)) && m.len()
                >= e.len() && m.skip(m.len() - e.len()) == e,
            None => chosen_payload(args, read) matches Ok(Some(bytes)) && match args.message {
                Some(message) => bytes == vstd::utf8::encode_utf8(message@),
                None => bytes.len() == 0,
            },
        },
{
    text::a_text_is_its_bytes(args.message);
    if let Some(Err(e)) = read {
        let stdin = "reading stdin: "@ + e;
        let file = args.file->0@ + ": "@ + e;
        assert(stdin.skip(stdin.len() - e.len()) =~= e);
        assert(file.skip(file.len() - e.len()) =~= e);
    }
}

/// On v5 every property that was asked for goes with the message and no other does; on the other
/// versions asking for one is refused, and without asking none goes.
pub proof fn properties_go_with_v5_alone(args: &PubArgs)
    ensures
        ({
            let asked = args.user_properties@.len() > 0 || args.message_expiry_interval is Some
                || args.content_type is Some || args.payload_format_indicator;
            let v5 = args.conn.protocol == cli::Protocol::V5;
            &&& chosen_properties(args) is Err <==> !v5 && asked
            &&& chosen_properties(args) matches Err(e) ==> e == ErrorView::Usage(
                "--user-property/--message-expiry-interval/--content-type/--payload-format-indicator need v5 properties (--protocol 5)"@,
            )
            &&& chosen_properties(args) matches Ok(properties) ==> {
                &&& properties.message_expiry_interval == args.message_expiry_interval
                &&& properties.content_type is Some <==> args.content_type is Some
                &&& args.content_type matches Some(t) ==> properties.content_type == Some(t@)
                &&& args.payload_format_indicator ==> properties.payload_format_indicator == Some(
                    1u8,
                )
                &&& !args.payload_format_indicator ==> properties.payload_format_indicator is None
                &&& properties.user_properties.len() == args.user_properties@.len()
                &&& forall|i: int|
                    0 <= i < args.user_properties@.len() ==> #[trigger] properties.user_properties[i]
                        == (args.user_properties@[i].0@, args.user_properties@[i].1@)
                &&& properties.response_topic is None
                &&& properties.receive_maximum is None
                &&& properties.maximum_packet_size is None
            }
        }),
{
}

/// A run is settled exactly when its quality is one of the three, its payload could be read and
/// its properties can be sent; of several faults the first of these is reported.
pub proof fn a_run_is_refused_for_its_first_fault(
    args: &PubArgs,
    read: Option<Result<Seq<u8>, Seq<char>>>,
)
    ensures
        plan_fault(args, read) is None <==> {
            &&& args.qos <= 2
            &&& chosen_payload(args, read) is Ok
            &&& chosen_properties(args) is Ok
        },
        args.qos > 2 ==> (plan_fault(args, read) matches Some(e) && e is Mqtt),
        args.qos <= 2 && chosen_payload(args, read) is Err ==> plan_fault(args, read) == Some(
            chosen_payload(args, read)->Err_0,
        ),
{
}

/// Every acknowledgement with a code below 0x80 accepts the message, one that matched no subscriber
/// included, and the end of the session is a refusal with its own reason code.
pub proof fn acceptance_goes_by_the_code(packet: Packet, ack: PubAck, code: ReasonCode)
    requires
        packet == Packet::Puback(ack) || packet == Packet::Pubrec(ack) || packet == Packet::Pubcomp(
            ack,
        ),
    ensures
        accepts(packet) <==> ack.reason_code.byte < 0x80,
        ack_of(packet, "publish"@) == Ok::<Option<ReasonCode>, ErrorView>(Some(ack.reason_code)),
        ack_of(
            Packet::Disconnect(crate::mqtt::packet::Disconnect { reason_code: code }),
            "publish"@,
        ) == Err::<Option<ReasonCode>, ErrorView>(ErrorView::Rejected { what: "publish"@, code }),
{
}

/// A reason code is refused exactly from 0x80 on, and the error carries it together with what it is
/// about.
pub proof fn only_a_failing_code_is_refused(code: ReasonCode, what: Seq<char>)
    ensures
        refusal(code, what) is Some <==> code.byte >= 0x80,
        refusal(code, what) matches Some(fault) ==> fault == (ErrorView::Rejected { what, code }),
{
}

/// A message uses up a packet identifier exactly when it carries one, and then the one it carries.
pub proof fn an_identifier_is_used_up_by_its_message(qos: QoS, last: u16)
    ensures
        id_for(qos, last) is None <==> qos == QoS::AtMostOnce,
        qos == QoS::AtMostOnce ==> last_id_after(qos, last) == last,
        qos != QoS::AtMostOnce ==> id_for(qos, last) == Some(last_id_after(qos, last)),
        qos != QoS::AtMostOnce ==> last_id_after(qos, last) == client::id_after(last),
{
}

/// A failed read is blamed on what was read: standard input, or the file by its name.
pub proof fn a_failed_read_names_its_source(args: &PubArgs, e: Seq<char>)
    requires
        !args.stdin_lines,
        args.file is Some,
    ensures
        ({
            let path = args.file->0@;
            let failed = chosen_payload(args, Some(Err(e)));
            &&& path == "-"@ ==> failed == Err::<Option<Seq<u8>>, ErrorView>(
                ErrorView::Usage("reading stdin: "@ + e),
            )
            &&& path != "-"@ ==> (failed matches Err(ErrorView::Usage(m)) && path.is_prefix_of(m))
        }),
{
    let path = args.file->0@;
    assert(path =~= (path + ": "@ + e).take(path.len() as int));
}

} // verus!
