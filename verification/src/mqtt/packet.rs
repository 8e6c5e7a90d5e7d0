//! The control packets, with the fields the client fills in or reads.

use crate::mqtt::secret::SecretBytes;
use crate::mqtt::types::{QoS, ReasonCode};
use crate::text;
use vstd::prelude::*;

verus! {

/// The v5 properties the client fills in or reads.
pub struct Properties {
    pub payload_format_indicator: Option<u8>,
    pub message_expiry_interval: Option<u32>,
    pub content_type: Option<String>,
    pub response_topic: Option<String>,
    pub receive_maximum: Option<u16>,
    pub maximum_packet_size: Option<u32>,
    pub user_properties: Vec<(String, String)>,
}

/// What `Properties` holds.
#[verifier::ext_equal]
pub struct PropertiesView {
    pub payload_format_indicator: Option<u8>,
    pub message_expiry_interval: Option<u32>,
    pub content_type: Option<Seq<char>>,
    pub response_topic: Option<Seq<char>>,
    pub receive_maximum: Option<u16>,
    pub maximum_packet_size: Option<u32>,
    pub user_properties: Seq<(Seq<char>, Seq<char>)>,
}

impl View for Properties {
    type V = PropertiesView;

    open spec fn view(&self) -> PropertiesView {
        PropertiesView {
            payload_format_indicator: self.payload_format_indicator,
            message_expiry_interval: self.message_expiry_interval,
            content_type: text::opt_view(self.content_type),
            response_topic: text::opt_view(self.response_topic),
            receive_maximum: self.receive_maximum,
            maximum_packet_size: self.maximum_packet_size,
            user_properties: text::pairs_view(self.user_properties@),
        }
    }
}

impl PropertiesView {
    /// No properties at all.
    pub open spec fn empty() -> PropertiesView {
        PropertiesView {
            payload_format_indicator: None,
            message_expiry_interval: None,
            content_type: None,
            response_topic: None,
            receive_maximum: None,
            maximum_packet_size: None,
            user_properties: Seq::empty(),
        }
    }
}

impl Properties {
    /// No properties at all.
    pub fn new() -> (res: Properties)
        ensures
            res@ == PropertiesView::empty(),
    {
        let res = Properties {
            payload_format_indicator: None,
            message_expiry_interval: None,
            content_type: None,
            response_topic: None,
            receive_maximum: None,
            maximum_packet_size: None,
            user_properties: Vec::new(),
        };
        assert(res@ =~= PropertiesView::empty());
        res
    }

    /// Whether there is no property.
    pub fn is_empty(&self) -> (res: bool)
        ensures
            res == (self@ == PropertiesView::empty()),
    {
        let res = self.payload_format_indicator.is_none() && self.message_expiry_interval.is_none()
            && self.content_type.is_none() && self.response_topic.is_none()
            && self.receive_maximum.is_none() && self.maximum_packet_size.is_none()
            && self.user_properties.len() == 0;
        proof {
            if res {
                assert(self@ =~= PropertiesView::empty());
            } else if self@ == PropertiesView::empty() {
                assert(text::pairs_view(self.user_properties@).len() == self.user_properties@.len());
            }
        }
        res
    }

    /// Copy the properties.
    pub fn duplicate(&self) -> (res: Properties)
        ensures
            res@ == self@,
    {
        Properties {
            payload_format_indicator: self.payload_format_indicator,
            message_expiry_interval: self.message_expiry_interval,
            content_type: text::clone_opt(&self.content_type),
            response_topic: text::clone_opt(&self.response_topic),
            receive_maximum: self.receive_maximum,
            maximum_packet_size: self.maximum_packet_size,
            user_properties: text::clone_pairs(&self.user_properties),
        }
    }
}

/// The message a broker publishes when a connection drops uncleanly.
pub struct Will {
    pub qos: QoS,
    pub retain: bool,
    pub properties: Properties,
    pub topic: String,
    pub payload: Vec<u8>,
}

/// What a `Will` holds.
#[verifier::ext_equal]
pub struct WillView {
    pub qos: QoS,
    pub retain: bool,
    pub properties: PropertiesView,
    pub topic: Seq<char>,
    pub payload: Seq<u8>,
}

impl View for Will {
    type V = WillView;

    open spec fn view(&self) -> WillView {
        WillView {
            qos: self.qos,
            retain: self.retain,
            properties: self.properties@,
            topic: self.topic@,
            payload: self.payload@,
        }
    }
}

/// CONNECT: the first packet of a session.
pub struct Connect {
    pub protocol_name: String,
    pub protocol_version: u8,
    pub clean_start: bool,
    pub keep_alive: u16,
    pub properties: Properties,
    pub client_id: String,
    pub will: Option<Will>,
    pub username: Option<String>,
    pub password: Option<SecretBytes>,
}

/// What a `Connect` holds.
#[verifier::ext_equal]
pub struct ConnectView {
    pub protocol_name: Seq<char>,
    pub protocol_version: u8,
    pub clean_start: bool,
    pub keep_alive: u16,
    pub properties: PropertiesView,
    pub client_id: Seq<char>,
    pub will: Option<WillView>,
    pub username: Option<Seq<char>>,
    pub password: Option<Seq<u8>>,
}

/// What an optional will holds.
pub open spec fn will_view(will: Option<Will>) -> Option<WillView> {
    match will {
        Some(w) => Some(w@),
        None => None,
    }
}

/// What an optional password holds.
pub open spec fn secret_view(secret: Option<SecretBytes>) -> Option<Seq<u8>> {
    match secret {
        Some(s) => Some(s@),
        None => None,
    }
}

impl View for Connect {
    type V = ConnectView;

    open spec fn view(&self) -> ConnectView {
        ConnectView {
            protocol_name: self.protocol_name@,
            protocol_version: self.protocol_version,
            clean_start: self.clean_start,
            keep_alive: self.keep_alive,
            properties: self.properties@,
            client_id: self.client_id@,
            will: will_view(self.will),
            username: text::opt_view(self.username),
            password: secret_view(self.password),
        }
    }
}

/// CONNACK: the broker's answer to CONNECT.
pub struct Connack {
    pub session_present: bool,
    pub reason_code: ReasonCode,
    pub properties: Properties,
}

/// PUBLISH: one message.
pub struct Publish {
    pub dup: bool,
    pub qos: QoS,
    pub retain: bool,
    pub topic: String,
    pub packet_id: Option<u16>,
    pub properties: Properties,
    pub payload: Vec<u8>,
}

/// What a `Publish` holds.
#[verifier::ext_equal]
pub struct PublishView {
    pub dup: bool,
    pub qos: QoS,
    pub retain: bool,
    pub topic: Seq<char>,
    pub packet_id: Option<u16>,
    pub properties: PropertiesView,
    pub payload: Seq<u8>,
}

impl View for Publish {
    type V = PublishView;

    open spec fn view(&self) -> PublishView {
        PublishView {
            dup: self.dup,
            qos: self.qos,
            retain: self.retain,
            topic: self.topic@,
            packet_id: self.packet_id,
            properties: self.properties@,
            payload: self.payload@,
        }
    }
}

/// PUBACK, PUBREC, PUBREL and PUBCOMP: one step of an acknowledgement.
#[derive(Clone, Copy, Debug, PartialEq, Eq, Structural)]
pub struct PubAck {
    pub packet_id: u16,
    pub reason_code: ReasonCode,
}

impl PubAck {
    /// The step that says all is well with message `packet_id`.
    pub open spec fn spec_success(packet_id: u16) -> PubAck {
        PubAck { packet_id, reason_code: ReasonCode::spec_success() }
    }

    /// The step that says all is well with message `packet_id`.
    pub fn success(packet_id: u16) -> (ack: PubAck)
        ensures
            ack == Self::spec_success(packet_id),
    {
        PubAck { packet_id, reason_code: ReasonCode::success() }
    }
}

/// One subscription a SUBSCRIBE asks for.
pub struct TopicFilter {
    pub filter: String,
    pub qos: QoS,
    pub no_local: bool,
    pub retain_as_published: bool,
    pub retain_handling: RetainHandling,
}

/// When the broker sends the retained messages of a subscription.
#[derive(Clone, Copy, Debug, PartialEq, Eq, Structural)]
pub enum RetainHandling {
    SendAtSubscribe,
    SendIfNewSubscription,
    DoNotSend,
}

/// What a `TopicFilter` holds.
#[verifier::ext_equal]
pub struct TopicFilterView {
    pub filter: Seq<char>,
    pub qos: QoS,
    pub no_local: bool,
    pub retain_as_published: bool,
    pub retain_handling: RetainHandling,
}

impl View for TopicFilter {
    type V = TopicFilterView;

    open spec fn view(&self) -> TopicFilterView {
        TopicFilterView {
            filter: self.filter@,
            qos: self.qos,
            no_local: self.no_local,
            retain_as_published: self.retain_as_published,
            retain_handling: self.retain_handling,
        }
    }
}

impl TopicFilterView {
    /// A plain subscription: own messages included, retained messages sent at once.
    pub open spec fn plain(filter: Seq<char>, qos: QoS) -> TopicFilterView {
        TopicFilterView {
            filter,
            qos,
            no_local: false,
            retain_as_published: false,
            retain_handling: RetainHandling::SendAtSubscribe,
        }
    }
}

impl TopicFilter {
    /// A plain subscription: own messages included, retained messages sent at once.
    pub fn plain(filter: &str, qos: QoS) -> (res: TopicFilter)
        ensures
            res@ == TopicFilterView::plain(filter@, qos),
    {
        TopicFilter {
            filter: String::from_str(filter),
            qos,
            no_local: false,
            retain_as_published: false,
            retain_handling: RetainHandling::SendAtSubscribe,
        }
    }
}

/// SUBSCRIBE: a request for one or more subscriptions.
pub struct Subscribe {
    pub packet_id: u16,
    pub properties: Properties,
    pub filters: Vec<TopicFilter>,
}

/// What a `Subscribe` holds.
#[verifier::ext_equal]
pub struct SubscribeView {
    pub packet_id: u16,
    pub properties: PropertiesView,
    pub filters: Seq<TopicFilterView>,
}

impl View for Subscribe {
    type V = SubscribeView;

    open spec fn view(&self) -> SubscribeView {
        SubscribeView {
            packet_id: self.packet_id,
            properties: self.properties@,
            filters: self.filters@.map_values(|f: TopicFilter| f@),
        }
    }
}

/// SUBACK: one reason code per requested subscription, in order.
pub struct Suback {
    pub packet_id: u16,
    pub reason_codes: Vec<ReasonCode>,
}

/// DISCONNECT: the last packet of a session.
#[derive(Clone, Copy, Debug, PartialEq, Eq, Structural)]
pub struct Disconnect {
    pub reason_code: ReasonCode,
}

/// A control packet.
pub enum Packet {
    Connect(Connect),
    Connack(Connack),
    Publish(Publish),
    Puback(PubAck),
    Pubrec(PubAck),
    Pubrel(PubAck),
    Pubcomp(PubAck),
    Subscribe(Subscribe),
    Suback(Suback),
    Unsubscribe,
    Unsuback,
    Pingreq,
    Pingresp,
    Disconnect(Disconnect),
    Auth,
}

impl Packet {
    /// The packet's name in the protocol.
    pub open spec fn spec_name(self) -> Seq<char> {
        match self {
            Packet::Connect(_) => "CONNECT"@,
            Packet::Connack(_) => "CONNACK"@,
            Packet::Publish(_) => "PUBLISH"@,
            Packet::Puback(_) => "PUBACK"@,
            Packet::Pubrec(_) => "PUBREC"@,
            Packet::Pubrel(_) => "PUBREL"@,
            Packet::Pubcomp(_) => "PUBCOMP"@,
            Packet::Subscribe(_) => "SUBSCRIBE"@,
            Packet::Suback(_) => "SUBACK"@,
            Packet::Unsubscribe => "UNSUBSCRIBE"@,
            Packet::Unsuback => "UNSUBACK"@,
            Packet::Pingreq => "PINGREQ"@,
            Packet::Pingresp => "PINGRESP"@,
            Packet::Disconnect(_) => "DISCONNECT"@,
            Packet::Auth => "AUTH"@,
        }
    }

    /// The packet's name in the protocol.
    pub fn name(&self) -> (name: &'static str)
        ensures
            name@ == self.spec_name(),
    {
        match self {
            Packet::Connect(_) => "CONNECT",
            Packet::Connack(_) => "CONNACK",
            Packet::Publish(_) => "PUBLISH",
            Packet::Puback(_) => "PUBACK",
            Packet::Pubrec(_) => "PUBREC",
            Packet::Pubrel(_) => "PUBREL",
            Packet::Pubcomp(_) => "PUBCOMP",
            Packet::Subscribe(_) => "SUBSCRIBE",
            Packet::Suback(_) => "SUBACK",
            Packet::Unsubscribe => "UNSUBSCRIBE",
            Packet::Unsuback => "UNSUBACK",
            Packet::Pingreq => "PINGREQ",
            Packet::Pingresp => "PINGRESP",
            Packet::Disconnect(_) => "DISCONNECT",
            Packet::Auth => "AUTH",
        }
    }
}

/// What reading from a connection gives: a packet, or its end.
pub enum ReadOutcome {
    Packet(Packet),
    Eof,
}

/// No properties means none: a list is empty exactly when not one of them is there.
pub proof fn empty_properties_carry_nothing(properties: PropertiesView)
    ensures
        properties == PropertiesView::empty() <==> {
            &&& properties.payload_format_indicator is None
            &&& properties.message_expiry_interval is None
            &&& properties.content_type is None
            &&& properties.response_topic is None
            &&& properties.receive_maximum is None
            &&& properties.maximum_packet_size is None
            &&& properties.user_properties.len() == 0
        },
{
    if properties.user_properties.len() == 0 {
        assert(properties.user_properties =~= Seq::<(Seq<char>, Seq<char>)>::empty());
    }
}

/// A plain subscription is to the filter and at the quality asked for, leaves out no message of
/// the client's own, and has the retained messages sent at once.
pub proof fn a_plain_subscription_hides_nothing(filter: Seq<char>, qos: QoS)
    ensures
        ({
            let plain = TopicFilterView::plain(filter, qos);
            &&& plain.filter == filter
            &&& plain.qos == qos
            &&& !plain.no_local
            &&& !plain.retain_as_published
            &&& plain.retain_handling == RetainHandling::SendAtSubscribe
        }),
{
}

/// A step of an acknowledgement is about the message it was made for, and refuses nothing.
pub proof fn a_good_step_is_about_its_message(id: u16)
    ensures
        PubAck::spec_success(id).packet_id == id,
        PubAck::spec_success(id).reason_code.byte == 0,
{
}

/// Every packet goes by its own name in the protocol.
pub proof fn packets_go_by_their_names(packet: Packet)
    ensures
        packet is Connect ==> packet.spec_name() == "CONNECT"@,
        packet is Connack ==> packet.spec_name() == "CONNACK"@,
        packet is Publish ==> packet.spec_name() == "PUBLISH"@,
        packet is Puback ==> packet.spec_name() == "PUBACK"@,
        packet is Pubrec ==> packet.spec_name() == "PUBREC"@,
        packet is Pubrel ==> packet.spec_name() == "PUBREL"@,
        packet is Pubcomp ==> packet.spec_name() == "PUBCOMP"@,
        packet is Subscribe ==> packet.spec_name() == "SUBSCRIBE"@,
        packet is Suback ==> packet.spec_name() == "SUBACK"@,
        packet is Unsubscribe ==> packet.spec_name() == "UNSUBSCRIBE"@,
        packet is Unsuback ==> packet.spec_name() == "UNSUBACK"@,
        packet is Pingreq ==> packet.spec_name() == "PINGREQ"@,
        packet is Pingresp ==> packet.spec_name() == "PINGRESP"@,
        packet is Disconnect ==> packet.spec_name() == "DISCONNECT"@,
        packet is Auth ==> packet.spec_name() == "AUTH"@,
{
}

} // verus!
