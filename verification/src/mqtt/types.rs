//! Protocol versions, quality of service and reason codes.

use crate::mqtt::error::{malformed, MqttError};
use crate::text;
use vstd::prelude::*;

verus! {

/// An MQTT protocol version.
#[derive(Clone, Copy, Debug, PartialEq, Eq, Structural)]
pub enum ProtocolVersion {
    V3_1,
    V3_1_1,
    V5,
}

impl ProtocolVersion {
    /// The protocol level byte CONNECT carries.
    pub open spec fn spec_level(self) -> u8 {
        match self {
            ProtocolVersion::V3_1 => 3,
            ProtocolVersion::V3_1_1 => 4,
            ProtocolVersion::V5 => 5,
        }
    }

    /// The protocol name CONNECT carries: v3.1 has one of its own.
    pub open spec fn spec_name(self) -> Seq<char> {
        match self {
            ProtocolVersion::V3_1 => "MQIsdp"@,
            _ => "MQTT"@,
        }
    }

    /// The protocol level byte CONNECT carries.
    pub fn level(self) -> (level: u8)
        ensures
            level == self.spec_level(),
    {
        match self {
            ProtocolVersion::V3_1 => 3,
            ProtocolVersion::V3_1_1 => 4,
            ProtocolVersion::V5 => 5,
        }
    }

    /// The protocol name CONNECT carries.
    pub fn name(self) -> (name: &'static str)
        ensures
            name@ == self.spec_name(),
    {
        match self {
            ProtocolVersion::V3_1 => "MQIsdp",
            _ => "MQTT",
        }
    }

    /// Whether packets of this version carry properties.
    pub fn has_properties(self) -> (res: bool)
        ensures
            res == (self == ProtocolVersion::V5),
    {
        matches!(self, ProtocolVersion::V5)
    }
}

/// Quality of service: how hard the two sides try to deliver a message.
#[derive(Clone, Copy, Debug, PartialEq, Eq, Structural)]
pub enum QoS {
    AtMostOnce,
    AtLeastOnce,
    ExactlyOnce,
}

impl QoS {
    /// The level a number stands for.
    pub open spec fn of(level: u8) -> Option<QoS> {
        if level == 0 {
            Some(QoS::AtMostOnce)
        } else if level == 1 {
            Some(QoS::AtLeastOnce)
        } else if level == 2 {
            Some(QoS::ExactlyOnce)
        } else {
            None
        }
    }

    /// The error for a number that is no level.
    pub open spec fn invalid(level: u8) -> crate::mqtt::error::MqttErrorView {
        crate::mqtt::error::MqttErrorView::Malformed(
            "invalid QoS "@ + text::decimal_text(level as nat),
        )
    }

    /// The level a number stands for: 0, 1 or 2.
    pub fn from_u8(level: u8) -> (res: Result<QoS, MqttError>)
        ensures
            match res {
                Ok(qos) => Self::of(level) == Some(qos),
                Err(e) => Self::of(level) is None && e@ == Self::invalid(level),
            },
    {
        match level {
            0 => Ok(QoS::AtMostOnce),
            1 => Ok(QoS::AtLeastOnce),
            2 => Ok(QoS::ExactlyOnce),
            _ => {
                let mut message = String::from_str("invalid QoS ");
                message.append(text::decimal(level as u64).as_str());
                Err(malformed(message))
            },
        }
    }

    /// The number that stands for this level.
    pub fn as_u8(self) -> (level: u8)
        ensures
            Self::of(level) == Some(self),
            level <= 2,
    {
        match self {
            QoS::AtMostOnce => 0,
            QoS::AtLeastOnce => 1,
            QoS::ExactlyOnce => 2,
        }
    }
}

/// A reason code: one byte, of which 0x80 and above are failures.
#[derive(Clone, Copy, Debug, PartialEq, Eq, Structural)]
pub struct ReasonCode {
    /// The byte on the wire.
    pub byte: u8,
}

/// The byte for success, also a normal disconnection and a granted QoS 0.
pub const SUCCESS: u8 = 0x00;

/// The byte for an unspecified error.
pub const UNSPECIFIED_ERROR: u8 = 0x80;

/// The byte for a packet that could not be decoded.
pub const MALFORMED_PACKET: u8 = 0x81;

/// The byte for a packet that breaks a rule of the protocol.
pub const PROTOCOL_ERROR: u8 = 0x82;

/// The bytes that MQTT assigns a meaning as a reason code.
pub open spec fn assigned_reason(byte: u8) -> bool {
    ||| byte <= 0x02
    ||| byte == 0x04
    ||| byte == 0x10
    ||| byte == 0x11
    ||| byte == 0x18
    ||| byte == 0x19
    ||| 0x80 <= byte <= 0xA2
}

/// The name of the reason code a byte stands for, as the protocol crate spells it.
pub uninterp spec fn reason_name(byte: u8) -> Seq<char>;

/// Whether a byte is a reason code.
///
/// Trusted: `wispmq_protocol::types::ReasonCode::from_u8`. It succeeds on the assigned bytes and on
/// no others.
#[verifier::external_body]
fn is_assigned(byte: u8) -> (res: bool)
    ensures
        res == assigned_reason(byte),
{
    wispmq_protocol::types::ReasonCode::from_u8(byte).is_ok()
}

/// The name of the reason code a byte stands for.
///
/// Trusted: the derived `Debug` of `wispmq_protocol::types::ReasonCode`, reached through
/// `from_u8`. The name is a function of the byte; it is named, not listed. A byte that is no
/// reason code gives the decoding error's own `Debug` text.
#[verifier::external_body]
fn debug_name(byte: u8) -> (res: String)
    ensures
        res@ == reason_name(byte),
{
    match wispmq_protocol::types::ReasonCode::from_u8(byte) {
        Ok(code) => format!("{:?}", code),
        Err(e) => format!("{:?}", e),
    }
}

impl ReasonCode {
    /// The code for success.
    pub open spec fn spec_success() -> ReasonCode {
        ReasonCode { byte: SUCCESS }
    }

    /// Codes at 0x80 and above are failures.
    pub open spec fn spec_is_error(self) -> bool {
        self.byte >= 0x80
    }

    /// How messages show a code: its name, then its byte.
    pub open spec fn shown(self) -> Seq<char> {
        reason_name(self.byte) + " (0x"@ + text::upper_hex_byte_text(self.byte) + ")"@
    }

    /// The code for success.
    pub fn success() -> (code: ReasonCode)
        ensures
            code == Self::spec_success(),
    {
        ReasonCode { byte: SUCCESS }
    }

    /// Decode a reason code byte; a byte without a meaning is malformed.
    pub fn from_u8(byte: u8) -> (res: Result<ReasonCode, MqttError>)
        ensures
            match res {
                Ok(code) => assigned_reason(byte) && code.byte == byte,
                Err(e) => !assigned_reason(byte) && e@
                    == crate::mqtt::error::MqttErrorView::Malformed(
                    "unknown reason code 0x"@ + text::upper_hex_byte_text(byte),
                ),
            },
    {
        if is_assigned(byte) {
            Ok(ReasonCode { byte })
        } else {
            let mut message = String::from_str("unknown reason code 0x");
            message.append(text::upper_hex_byte(byte).as_str());
            Err(malformed(message))
        }
    }

    /// The byte on the wire.
    pub fn as_u8(self) -> (byte: u8)
        ensures
            byte == self.byte,
    {
        self.byte
    }

    /// Whether the code is a failure.
    pub fn is_error(self) -> (res: bool)
        ensures
            res == self.spec_is_error(),
    {
        self.byte >= 0x80
    }

    /// The code's name.
    pub fn name(self) -> (res: String)
        ensures
            res@ == reason_name(self.byte),
    {
        debug_name(self.byte)
    }

    /// The code as messages show it: its name, then its byte.
    pub fn show(self) -> (res: String)
        ensures
            res@ == self.shown(),
    {
        let mut res = self.name();
        res.append(" (0x");
        res.append(text::upper_hex_byte(self.byte).as_str());
        res.append(")");
        res
    }
}

/// The three qualities of service are the numbers 0, 1 and 2, and no other number is one.
pub proof fn the_qualities_are_numbered(level: u8)
    ensures
        QoS::of(level) is Some <==> level <= 2,
        QoS::of(level) == Some(QoS::AtMostOnce) <==> level == 0,
        QoS::of(level) == Some(QoS::AtLeastOnce) <==> level == 1,
        QoS::of(level) == Some(QoS::ExactlyOnce) <==> level == 2,
{
}

/// A reason code is a failure from 0x80 on and never below; success is the byte 0.
pub proof fn failures_start_at_0x80(code: ReasonCode)
    ensures
        code.spec_is_error() <==> code.byte >= 128,
        code == ReasonCode::spec_success() <==> code.byte == 0,
{
}

/// Each protocol version has its level on the wire, and v3.1 alone its own protocol name.
pub proof fn versions_have_their_wire_form(version: ProtocolVersion)
    ensures
        version.spec_level() == 3 <==> version == ProtocolVersion::V3_1,
        version.spec_level() == 4 <==> version == ProtocolVersion::V3_1_1,
        version.spec_level() == 5 <==> version == ProtocolVersion::V5,
        version == ProtocolVersion::V3_1 ==> version.spec_name() == "MQIsdp"@,
        version != ProtocolVersion::V3_1 ==> version.spec_name() == "MQTT"@,
{
}

proof fn lemma_shown(name: Seq<char>, hex: Seq<char>)
    ensures
        text::holds(name + " (0x"@ + hex + ")"@, name),
        text::holds(name + " (0x"@ + hex + ")"@, "(0x"@ + hex + ")"@),
        (name + " (0x"@ + hex + ")"@).len() == name.len() + hex.len() + 5,
{
    reveal_strlit(" (0x");
    reveal_strlit("(0x");
    reveal_strlit(")");
    let shown = name + " (0x"@ + hex + ")"@;
    let byte = "(0x"@ + hex + ")"@;
    let at = name.len() as int + 1;
    assert(shown.subrange(0, name.len() as int) =~= name);
    assert(text::holds_at(shown, name, 0));
    assert(shown.subrange(at, at + byte.len()) =~= byte);
    assert(text::holds_at(shown, byte, at));
}

/// A code is shown with its name and its byte: both can be read off.
pub proof fn a_code_shows_its_name_and_byte(code: ReasonCode)
    ensures
        text::holds(code.shown(), reason_name(code.byte)),
        text::holds(code.shown(), "(0x"@ + text::upper_hex_byte_text(code.byte) + ")"@),
        code.shown().len() == reason_name(code.byte).len() + 7,
{
    lemma_shown(reason_name(code.byte), text::upper_hex_byte_text(code.byte));
}

/// The bytes that MQTT gives a meaning are 0 to 2, 4, the two codes from 16 on, the two from 24 on,
/// and every failure up to the last one, 162.
pub proof fn reason_codes_are_assigned(byte: u8)
    ensures
        byte >= 128 ==> (assigned_reason(byte) <==> byte <= 162),
        byte < 128 ==> (assigned_reason(byte) <==> byte <= 2 || byte == 4 || byte / 2 == 8 || byte
            / 2 == 12),
{
}

} // verus!
