//! Failures of the protocol layer.

use crate::mqtt::types;
use crate::mqtt::types::ReasonCode;
use crate::text;
use vstd::prelude::*;

verus! {

/// A failure of the protocol layer.
#[derive(Debug)]
pub enum MqttError {
    /// The bytes on the wire could not be decoded.
    Malformed(String),
    /// The packet decoded but breaks a rule of the protocol.
    Protocol(String),
    /// A violation with a reason code of its own to return to the peer.
    Reason(ReasonCode, String),
    /// The transport failed; holds the system's message.
    Io(String),
}

/// What an `MqttError` says.
#[verifier::ext_equal]
pub enum MqttErrorView {
    Malformed(Seq<char>),
    Protocol(Seq<char>),
    Reason(ReasonCode, Seq<char>),
    Io(Seq<char>),
}

impl View for MqttError {
    type V = MqttErrorView;

    open spec fn view(&self) -> MqttErrorView {
        match self {
            MqttError::Malformed(m) => MqttErrorView::Malformed(m@),
            MqttError::Protocol(m) => MqttErrorView::Protocol(m@),
            MqttError::Reason(code, m) => MqttErrorView::Reason(*code, m@),
            MqttError::Io(m) => MqttErrorView::Io(m@),
        }
    }
}

impl MqttErrorView {
    /// The reason code that describes the error.
    pub open spec fn reason(self) -> ReasonCode {
        match self {
            MqttErrorView::Malformed(_) => ReasonCode { byte: types::MALFORMED_PACKET },
            MqttErrorView::Protocol(_) => ReasonCode { byte: types::PROTOCOL_ERROR },
            MqttErrorView::Reason(code, _) => code,
            MqttErrorView::Io(_) => ReasonCode { byte: types::UNSPECIFIED_ERROR },
        }
    }

    /// The sentence a user reads.
    pub open spec fn text(self) -> Seq<char> {
        match self {
            MqttErrorView::Malformed(m) => "malformed packet: "@ + m,
            MqttErrorView::Protocol(m) => "protocol error: "@ + m,
            MqttErrorView::Reason(code, m) => "protocol error ("@ + types::reason_name(code.byte)
                + "): "@ + m,
            MqttErrorView::Io(m) => "io error: "@ + m,
        }
    }
}

impl MqttError {
    /// The reason code that best describes this error, for a CONNACK or DISCONNECT packet.
    pub fn reason_code(&self) -> (code: ReasonCode)
        ensures
            code == self@.reason(),
    {
        match self {
            MqttError::Malformed(_) => ReasonCode { byte: types::MALFORMED_PACKET },
            MqttError::Protocol(_) => ReasonCode { byte: types::PROTOCOL_ERROR },
            MqttError::Reason(code, _) => *code,
            MqttError::Io(_) => ReasonCode { byte: types::UNSPECIFIED_ERROR },
        }
    }

    /// The sentence a user reads.
    pub fn message(&self) -> (res: String)
        ensures
            res@ == self@.text(),
    {
        let mut res = String::new();
        match self {
            MqttError::Malformed(m) => {
                res.append("malformed packet: ");
                res.append(m.as_str());
            },
            MqttError::Protocol(m) => {
                res.append("protocol error: ");
                res.append(m.as_str());
            },
            MqttError::Reason(code, m) => {
                res.append("protocol error (");
                res.append(code.name().as_str());
                res.append("): ");
                res.append(m.as_str());
            },
            MqttError::Io(m) => {
                res.append("io error: ");
                res.append(m.as_str());
            },
        }
        assert(res@ =~= self@.text());
        res
    }
}

/// A decoding failure.
pub fn malformed(message: String) -> (error: MqttError)
    ensures
        error@ == MqttErrorView::Malformed(message@),
{
    MqttError::Malformed(message)
}

/// A breach of the protocol.
pub fn protocol(message: String) -> (error: MqttError)
    ensures
        error@ == MqttErrorView::Protocol(message@),
{
    MqttError::Protocol(message)
}

/// Each failure of the protocol has its reason code: malformed packets 0x81, breaches of the
/// protocol 0x82, a failed transport 0x80, and one that brought its own keeps it.
pub proof fn each_failure_has_its_reason(message: Seq<char>, code: ReasonCode)
    ensures
        MqttErrorView::Malformed(message).reason().byte == 0x81,
        MqttErrorView::Protocol(message).reason().byte == 0x82,
        MqttErrorView::Reason(code, message).reason() == code,
        MqttErrorView::Io(message).reason().byte == 0x80,
{
}

/// What went wrong is in the sentence a user reads, and for a failure with a reason code of its
/// own the code's name too.
pub proof fn the_sentence_says_what_went_wrong(message: Seq<char>, code: ReasonCode)
    ensures
        text::holds(MqttErrorView::Malformed(message).text(), message),
        text::holds(MqttErrorView::Protocol(message).text(), message),
        text::holds(MqttErrorView::Reason(code, message).text(), message),
        text::holds(MqttErrorView::Reason(code, message).text(), types::reason_name(code.byte)),
        text::holds(MqttErrorView::Io(message).text(), message),
        text::holds(MqttErrorView::Malformed(message).text(), "malformed packet"@),
        text::holds(MqttErrorView::Protocol(message).text(), "protocol error"@),
        text::holds(MqttErrorView::Reason(code, message).text(), "protocol error"@),
        text::holds(MqttErrorView::Io(message).text(), "io error"@),
{
    let name = types::reason_name(code.byte);
    text::lemma_holds_appended("malformed packet: "@, message, message);
    text::lemma_holds_appended("protocol error: "@, message, message);
    text::lemma_holds_appended("io error: "@, message, message);
    text::lemma_holds_appended("protocol error ("@ + name + "): "@, message, message);
    text::lemma_holds_appended("protocol error ("@, name, name);
    text::lemma_holds_appended("protocol error ("@ + name, name, "): "@);
    text::lemma_holds_appended("protocol error ("@ + name + "): "@, name, message);
    reveal_strlit("malformed packet");
    reveal_strlit("malformed packet: ");
    reveal_strlit("protocol error");
    reveal_strlit("protocol error: ");
    reveal_strlit("protocol error (");
    reveal_strlit("io error");
    reveal_strlit("io error: ");
    let shown = MqttErrorView::Malformed(message).text();
    assert(shown.subrange(0, 16) =~= "malformed packet"@);
    assert(text::holds_at(shown, "malformed packet"@, 0));
    let shown = MqttErrorView::Protocol(message).text();
    assert(shown.subrange(0, 14) =~= "protocol error"@);
    assert(text::holds_at(shown, "protocol error"@, 0));
    let shown = MqttErrorView::Reason(code, message).text();
    assert(shown.subrange(0, 14) =~= "protocol error"@);
    assert(text::holds_at(shown, "protocol error"@, 0));
    let shown = MqttErrorView::Io(message).text();
    assert(shown.subrange(0, 8) =~= "io error"@);
    assert(text::holds_at(shown, "io error"@, 0));
}

} // verus!
