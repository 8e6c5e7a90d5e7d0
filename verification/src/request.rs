//! Request and response: subscribe to the replies, publish the request, wait.
//!
//! The subscription must stand before the request goes out, or a fast responder can answer before
//! anyone listens and the reply is lost.

use crate::cli::RequestArgs;
use crate::client::Client;
use crate::error::{Error, ErrorView};
use crate::mqtt::packet::{Packet, Properties, PropertiesView, PubAck, Publish, PublishView};
use crate::mqtt::types::{ProtocolVersion, QoS, ReasonCode};
use crate::publish;
use crate::subscribe;
use crate::text;
use vstd::prelude::*;

verus! {

/// What keeps a `request` run from being dialled, if anything: the first fault counts.
pub open spec fn plan_fault(args: &RequestArgs) -> Option<ErrorView> {
    if args.conn.protocol.spec_version() == ProtocolVersion::V3_1 {
        Some(
            ErrorView::Unsupported(
                "request requires MQTT v5.0 or v3.1.1: v3.1 has no Response Topic property and no way to correlate a reply"@,
            ),
        )
    } else if QoS::of(args.qos) is None {
        Some(ErrorView::Mqtt(QoS::invalid(args.qos)))
    } else {
        None
    }
}

/// Settle a `request` run: its quality of service.
pub fn plan(args: &RequestArgs) -> (res: Result<QoS, Error>)
    ensures
        match res {
            Ok(qos) => plan_fault(args) is None && QoS::of(args.qos) == Some(qos),
            Err(e) => plan_fault(args) == Some(e@),
        },
{
    match args.conn.version() {
        ProtocolVersion::V3_1 => Err(
            Error::Unsupported(
                String::from_str(
                    "request requires MQTT v5.0 or v3.1.1: v3.1 has no Response Topic property and no way to correlate a reply",
                ),
            ),
        ),
        _ => match QoS::from_u8(args.qos) {
            Ok(qos) => Ok(qos),
            Err(e) => Err(Error::from(e)),
        },
    }
}

/// The request. v5 carries the reply topic in a property, so the responder can find it; on v3.1.1
/// both sides must already agree on it.
pub open spec fn request_view(args: &RequestArgs, qos: QoS, last_id: u16) -> PublishView {
    PublishView {
        dup: false,
        qos,
        retain: false,
        topic: args.topic@,
        packet_id: publish::id_for(qos, last_id),
        properties: PropertiesView {
            response_topic: if args.conn.protocol.spec_version() == ProtocolVersion::V5 {
                Some(args.reply_topic@)
            } else {
                None
            },
            ..PropertiesView::empty()
        },
        payload: text::opt_bytes(args.message),
    }
}

/// The PUBLISH that carries the request.
pub fn request_packet(client: &mut Client, args: &RequestArgs, qos: QoS) -> (request: Publish)
    ensures
        request@ == request_view(args, qos, old(client).last_id()),
        final(client).last_id() == publish::last_id_after(qos, old(client).last_id()),
        final(client).spec_version() == old(client).spec_version(),
        final(client).spec_keep_alive() == old(client).spec_keep_alive(),
        final(client).spec_max_packet_size() == old(client).spec_max_packet_size(),
{
    let mut properties = Properties::new();
    if args.conn.version().has_properties() {
        properties.response_topic = Some(args.reply_topic.clone());
    }
    publish::publish_packet(
        client,
        args.topic.as_str(),
        text::bytes_or_empty(&args.message),
        qos,
        false,
        properties,
    )
}

/// What a `request` run is waiting for.
#[derive(Clone, Copy, Debug, PartialEq, Eq, Structural)]
pub enum Stage {
    /// The answer to SUBSCRIBE.
    Subscribing,
    /// The replies.
    Waiting,
}

/// What to do about a packet that arrived.
pub struct Step {
    /// Send this first.
    pub reply: Option<Packet>,
    /// The subscription stands: send the request now.
    pub publish: bool,
    /// The packet is a reply to print.
    pub print: bool,
    /// The run is over.
    pub finished: bool,
}

/// How far a `request` run has come.
#[derive(Clone, Copy, Debug, PartialEq, Eq, Structural)]
pub struct RequestRun {
    pub stage: Stage,
    /// How many replies to wait for.
    pub count: u64,
    pub seen: u64,
}

/// Nothing to do.
pub open spec fn idle() -> Step {
    Step { reply: None, publish: false, print: false, finished: false }
}

/// What to do about an acknowledgement of the request: a refusal ends the run.
pub open spec fn unless_refused(code: ReasonCode, step: Step) -> Result<Step, ErrorView> {
    if code.spec_is_error() {
        Err(ErrorView::Rejected { what: "request"@, code })
    } else {
        Ok(step)
    }
}

fn pass_unless_refused(code: ReasonCode, reply: Option<Packet>) -> (res: Result<Step, Error>)
    ensures
        match (res, unless_refused(code, (Step { reply, ..idle() }))) {
            (Ok(step), Ok(expected)) => step == expected,
            (Err(e), Err(fault)) => e@ == fault,
            _ => false,
        },
{
    match publish::check(code, "request") {
        Ok(_) => Ok(Step { reply, publish: false, print: false, finished: false }),
        Err(e) => Err(e),
    }
}

impl RequestRun {
    /// A run that is not over: fewer replies than it waits for, once it waits for them.
    pub open spec fn wf(self) -> bool {
        match self.stage {
            Stage::Subscribing => self.seen == 0,
            Stage::Waiting => self.seen < self.count,
        }
    }

    /// A run whose SUBSCRIBE has gone out.
    pub open spec fn spec_start(count: u64) -> RequestRun {
        RequestRun { stage: Stage::Subscribing, count, seen: 0 }
    }

    /// SUBSCRIBE has gone out.
    pub fn start(count: u64) -> (run: RequestRun)
        ensures
            run == Self::spec_start(count),
            run.wf(),
    {
        RequestRun { stage: Stage::Subscribing, count, seen: 0 }
    }

    /// The run after a packet.
    pub open spec fn after(self, filters: Seq<String>, packet: Packet) -> RequestRun {
        match self.stage {
            Stage::Subscribing => if subscribe::suback_of(filters, packet) == Ok::<
                bool,
                ErrorView,
            >(true) {
                RequestRun { stage: Stage::Waiting, ..self }
            } else {
                self
            },
            Stage::Waiting => if packet is Publish {
                RequestRun { seen: (self.seen + 1) as u64, ..self }
            } else {
                self
            },
        }
    }

    /// What to do about a packet.
    pub open spec fn step_for(self, filters: Seq<String>, packet: Packet) -> Result<
        Step,
        ErrorView,
    > {
        match self.stage {
            Stage::Subscribing => match subscribe::suback_of(filters, packet) {
                Ok(true) => Ok(Step { publish: true, finished: self.count == 0, ..idle() }),
                Ok(false) => Ok(idle()),
                Err(fault) => Err(fault),
            },
            Stage::Waiting => match packet {
                Packet::Publish(p) => Ok(
                    Step {
                        reply: subscribe::acknowledgement(p.qos, p.packet_id),
                        print: true,
                        finished: self.seen + 1 >= self.count,
                        ..idle()
                    },
                ),
                Packet::Pubrel(rel) => Ok(
                    Step {
                        reply: Some(Packet::Pubcomp(PubAck::spec_success(rel.packet_id))),
                        ..idle()
                    },
                ),
                Packet::Puback(ack) => unless_refused(ack.reason_code, idle()),
                Packet::Pubrec(rec) => unless_refused(
                    rec.reason_code,
                    Step {
                        reply: Some(Packet::Pubrel(PubAck::spec_success(rec.packet_id))),
                        ..idle()
                    },
                ),
                Packet::Pubcomp(comp) => unless_refused(comp.reason_code, idle()),
                Packet::Disconnect(d) => Err(
                    ErrorView::Rejected { what: "request"@, code: d.reason_code },
                ),
                _ => Ok(idle()),
            },
        }
    }

    /// A packet arrived. The acknowledgements of the request itself pass through on the way to
    /// the replies; one that refuses the request ends the run.
    pub fn on_packet(&mut self, filters: &Vec<String>, packet: &Packet) -> (res: Result<Step, Error>)
        requires
            old(self).wf(),
        ensures
            *final(self) == old(self).after(filters@, *packet),
            match (res, old(self).step_for(filters@, *packet)) {
                (Ok(step), Ok(expected)) => {
                    &&& step == expected
                    &&& !step.finished ==> final(self).wf()
                },
                (Err(e), Err(fault)) => e@ == fault && final(self).wf(),
                _ => false,
            },
    {
        match self.stage {
            Stage::Subscribing => match subscribe::check_suback(filters, packet) {
                Ok(true) => {
                    self.stage = Stage::Waiting;
                    Ok(
                        Step {
                            reply: None,
                            publish: true,
                            print: false,
                            finished: self.count == 0,
                        },
                    )
                },
                Ok(false) => Ok(Step { reply: None, publish: false, print: false, finished: false }),
                Err(e) => Err(e),
            },
            Stage::Waiting => match packet {
                Packet::Publish(p) => {
                    self.seen = self.seen + 1;
                    Ok(
                        Step {
                            reply: subscribe::acknowledge(p),
                            publish: false,
                            print: true,
                            finished: self.seen >= self.count,
                        },
                    )
                },
                Packet::Pubrel(rel) => Ok(
                    Step {
                        reply: Some(Packet::Pubcomp(PubAck::success(rel.packet_id))),
                        publish: false,
                        print: false,
                        finished: false,
                    },
                ),
                Packet::Puback(ack) => pass_unless_refused(ack.reason_code, None),
                Packet::Pubrec(rec) => pass_unless_refused(
                    rec.reason_code,
                    Some(Packet::Pubrel(PubAck::success(rec.packet_id))),
                ),
                Packet::Pubcomp(comp) => pass_unless_refused(comp.reason_code, None),
                Packet::Disconnect(d) => Err(Error::rejected("request", d.reason_code)),
                _ => Ok(Step { reply: None, publish: false, print: false, finished: false }),
            },
        }
    }
}

/// The request goes out only on a SUBACK that refused no filter, and only once: from then on the
/// run waits for replies and nothing makes it publish again.
pub proof fn the_subscription_precedes_the_request(
    run: RequestRun,
    filters: Seq<String>,
    packet: Packet,
    later: Packet,
)
    requires
        run.step_for(filters, packet) is Ok,
        (run.step_for(filters, packet)->Ok_0).publish,
    ensures
        run.stage == Stage::Subscribing,
        packet is Suback,
        run.after(filters, packet).stage == Stage::Waiting,
        run.after(filters, packet).step_for(filters, later) matches Ok(step) ==> !step.publish,
        run.after(filters, packet).after(filters, later).stage == Stage::Waiting,
{
}

/// A refused request ends in an error that carries the broker's reason code, whichever
/// acknowledgement it comes with, and is answered with nothing.
pub proof fn a_refused_request_is_reported(run: RequestRun, filters: Seq<String>, ack: PubAck)
    requires
        run.stage == Stage::Waiting,
        ack.reason_code.spec_is_error(),
    ensures
        ({
            let refused = Err::<Step, ErrorView>(
                ErrorView::Rejected { what: "request"@, code: ack.reason_code },
            );
            &&& run.step_for(filters, Packet::Puback(ack)) == refused
            &&& run.step_for(filters, Packet::Pubrec(ack)) == refused
            &&& run.step_for(filters, Packet::Pubcomp(ack)) == refused
        }),
{
}

/// The run ends with the reply that completes the count, and not before.
pub proof fn the_replies_are_counted(run: RequestRun, filters: Seq<String>, p: Publish)
    requires
        run.stage == Stage::Waiting,
        run.wf(),
    ensures
        run.step_for(filters, Packet::Publish(p)) matches Ok(step) && (step.finished <==> run.seen
            + 1 == run.count),
{
}

/// The request goes to its topic with the bytes of the message, at the quality asked for, neither
/// retained nor as a duplicate. On v5 it names the reply topic and carries no other property; on
/// the other versions it carries none.
pub proof fn the_request_says_what_was_asked(args: &RequestArgs, qos: QoS, last_id: u16)
    ensures
        ({
            let request = request_view(args, qos, last_id);
            &&& !request.retain
            &&& !request.dup
            &&& request.qos == qos
            &&& request.topic == args.topic@
            &&& args.message matches Some(m) ==> request.payload == vstd::utf8::encode_utf8(m@)
            &&& args.message is None ==> request.payload.len() == 0
            &&& request.packet_id is None <==> qos == QoS::AtMostOnce
            &&& request.packet_id matches Some(id) ==> id != 0 && id != last_id
            &&& args.conn.protocol == crate::cli::Protocol::V5 ==> request.properties.response_topic
                == Some(args.reply_topic@)
            &&& args.conn.protocol != crate::cli::Protocol::V5 ==> request.properties.response_topic
                is None
            &&& request.properties.payload_format_indicator is None
            &&& request.properties.message_expiry_interval is None
            &&& request.properties.content_type is None
            &&& request.properties.receive_maximum is None
            &&& request.properties.maximum_packet_size is None
            &&& request.properties.user_properties.len() == 0
        }),
{
    text::a_text_is_its_bytes(args.message);
}

/// A run is settled exactly when its version is not v3.1 and its quality is one of the three; the
/// version is reported first.
pub proof fn a_run_needs_a_version_that_correlates(args: &RequestArgs)
    ensures
        plan_fault(args) is None <==> args.conn.protocol != crate::cli::Protocol::V31 && args.qos
            <= 2,
        args.conn.protocol == crate::cli::Protocol::V31 ==> plan_fault(args) == Some(
            ErrorView::Unsupported(
                "request requires MQTT v5.0 or v3.1.1: v3.1 has no Response Topic property and no way to correlate a reply"@,
            ),
        ),
        args.conn.protocol != crate::cli::Protocol::V31 && args.qos > 2 ==> (plan_fault(
            args,
        ) matches Some(e) && e is Mqtt),
{
}

/// Once the request is out every message is a reply: it is printed, whatever its flags, topic,
/// quality or payload, answered as its quality asks, and counted, and nothing else is printed or
/// counted. Before that nothing is printed, answered or counted.
pub proof fn every_reply_is_printed_and_counted(
    run: RequestRun,
    filters: Seq<String>,
    packet: Packet,
)
    requires
        run.wf(),
    ensures
        run.step_for(filters, packet) matches Ok(step) ==> {
            &&& step.print <==> run.stage == Stage::Waiting && packet is Publish
            &&& run.stage == Stage::Subscribing ==> step.reply is None
            &&& step.publish ==> run.stage == Stage::Subscribing && packet is Suback
            &&& run.stage == Stage::Waiting ==> match packet {
                Packet::Publish(p) => step.reply == subscribe::acknowledgement(p.qos, p.packet_id),
                Packet::Pubrel(rel) => step.reply matches Some(Packet::Pubcomp(a)) && a.packet_id
                    == rel.packet_id && a.reason_code.byte == 0,
                Packet::Pubrec(rec) => step.reply matches Some(Packet::Pubrel(a)) && a.packet_id
                    == rec.packet_id && a.reason_code.byte == 0,
                _ => step.reply is None,
            }
        },
        run.stage == Stage::Waiting && packet is Publish ==> {
            &&& run.step_for(filters, packet) is Ok
            &&& run.after(filters, packet).seen == run.seen + 1
        },
        run.stage == Stage::Waiting && !(packet is Publish) ==> run.after(filters, packet) == run,
        run.stage == Stage::Subscribing ==> run.after(filters, packet).seen == 0,
        run.after(filters, packet).count == run.count,
{
}

/// A run that waits ends in an error on the end of the session, with its reason code, or on an
/// acknowledgement that refuses the request, and on no other packet.
pub proof fn only_a_refusal_ends_the_waiting_in_an_error(
    run: RequestRun,
    filters: Seq<String>,
    packet: Packet,
)
    requires
        run.stage == Stage::Waiting,
    ensures
        run.step_for(filters, packet) is Err <==> match packet {
            Packet::Disconnect(_) => true,
            Packet::Puback(ack) => ack.reason_code.byte >= 0x80,
            Packet::Pubrec(ack) => ack.reason_code.byte >= 0x80,
            Packet::Pubcomp(ack) => ack.reason_code.byte >= 0x80,
            _ => false,
        },
        packet matches Packet::Disconnect(d) ==> run.step_for(filters, packet)->Err_0 == (
        ErrorView::Rejected { what: "request"@, code: d.reason_code }),
{
}

/// The SUBACK that lets the request go out is one the subscription stands on; a run that waits for
/// no reply is over with it, and any other goes on.
pub proof fn the_request_goes_out_on_the_suback(
    run: RequestRun,
    filters: Seq<String>,
    packet: Packet,
)
    requires
        run.stage == Stage::Subscribing,
    ensures
        subscribe::suback_of(filters, packet) == Ok::<bool, ErrorView>(true) <==> (run.step_for(
            filters,
            packet,
        ) matches Ok(step) && step.publish),
        subscribe::suback_of(filters, packet) is Err <==> run.step_for(filters, packet) is Err,
        run.step_for(filters, packet) matches Ok(step) ==> (step.finished <==> step.publish
            && run.count == 0),
{
}

/// A run starts by waiting for its subscription, with no reply seen, for as many replies as were
/// asked for.
pub proof fn a_run_starts_by_subscribing(count: u64)
    ensures
        RequestRun::spec_start(count).stage == Stage::Subscribing,
        RequestRun::spec_start(count).count == count,
        RequestRun::spec_start(count).seen == 0,
        RequestRun::spec_start(count).wf(),
{
}

} // verus!
