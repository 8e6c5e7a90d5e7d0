//! Failures a user needs to tell apart: bad arguments, a broker that answered with a reason code,
//! and everything underneath.

use crate::mqtt::error::{MqttError, MqttErrorView};
use crate::mqtt::types;
use crate::mqtt::types::ReasonCode;
use crate::text;
use vstd::prelude::*;

verus! {

/// A failure of a command.
#[derive(Debug)]
pub enum Error {
    /// Bad or contradictory arguments.
    Usage(String),
    /// The broker answered with a reason code; `what` names the operation.
    Rejected { what: String, code: ReasonCode },
    /// The broker closed the connection where a reply was expected.
    Disconnected(String),
    /// The feature does not exist in the protocol version.
    Unsupported(String),
    /// Transport or codec failure.
    Mqtt(MqttError),
}

/// What an `Error` says.
#[verifier::ext_equal]
pub enum ErrorView {
    Usage(Seq<char>),
    Rejected { what: Seq<char>, code: ReasonCode },
    Disconnected(Seq<char>),
    Unsupported(Seq<char>),
    Mqtt(MqttErrorView),
}

impl View for Error {
    type V = ErrorView;

    open spec fn view(&self) -> ErrorView {
        match self {
            Error::Usage(m) => ErrorView::Usage(m@),
            Error::Rejected { what, code } => ErrorView::Rejected { what: what@, code: *code },
            Error::Disconnected(m) => ErrorView::Disconnected(m@),
            Error::Unsupported(m) => ErrorView::Unsupported(m@),
            Error::Mqtt(e) => ErrorView::Mqtt(e@),
        }
    }
}

impl ErrorView {
    /// The sentence a user reads.
    pub open spec fn text(self) -> Seq<char> {
        match self {
            ErrorView::Usage(m) => m,
            ErrorView::Rejected { what, code } => what + " rejected by broker: "@ + code.shown(),
            ErrorView::Disconnected(m) => "broker closed the connection "@ + m,
            ErrorView::Unsupported(m) => m,
            ErrorView::Mqtt(e) => e.text(),
        }
    }
}

impl Error {
    /// The sentence a user reads.
    pub fn message(&self) -> (res: String)
        ensures
            res@ == self@.text(),
    {
        match self {
            Error::Usage(m) => m.clone(),
            Error::Rejected { what, code } => {
                let mut res = what.clone();
                res.append(" rejected by broker: ");
                res.append(code.show().as_str());
                res
            },
            Error::Disconnected(m) => {
                let mut res = String::from_str("broker closed the connection ");
                res.append(m.as_str());
                res
            },
            Error::Unsupported(m) => m.clone(),
            Error::Mqtt(e) => e.message(),
        }
    }

    /// A failure that puts the blame on the arguments.
    pub fn usage(message: &str) -> (error: Error)
        ensures
            error@ == ErrorView::Usage(message@),
    {
        Error::Usage(String::from_str(message))
    }

    /// A refusal by the broker.
    pub fn rejected(what: &str, code: ReasonCode) -> (error: Error)
        ensures
            error@ == (ErrorView::Rejected { what: what@, code }),
    {
        Error::Rejected { what: String::from_str(what), code }
    }
}

impl From<MqttError> for Error {
    fn from(e: MqttError) -> (res: Error) {
        Error::Mqtt(e)
    }
}

impl vstd::std_specs::convert::FromSpecImpl<MqttError> for Error {
    open spec fn obeys_from_spec() -> bool {
        true
    }

    open spec fn from_spec(e: MqttError) -> Error {
        Error::Mqtt(e)
    }
}

/// A refusal by the broker is reported with the operation it refused and the reason code, by name
/// and by byte.
pub proof fn a_refusal_is_told_with_its_reason(what: Seq<char>, code: ReasonCode)
    ensures
        ({
            let shown = ErrorView::Rejected { what, code }.text();
            &&& text::holds(shown, what)
            &&& text::holds(shown, "rejected by broker"@)
            &&& text::holds(shown, types::reason_name(code.byte))
            &&& text::holds(shown, "(0x"@ + text::upper_hex_byte_text(code.byte) + ")"@)
        }),
{
    let said = what + " rejected by broker: "@;
    let shown = said + code.shown();
    let name = types::reason_name(code.byte);
    let byte = "(0x"@ + text::upper_hex_byte_text(code.byte) + ")"@;
    types::a_code_shows_its_name_and_byte(code);
    text::lemma_holds_appended(" rejected by broker: "@, what, what);
    text::lemma_holds_appended(said, what, code.shown());
    text::lemma_holds_within(said, code.shown(), name);
    text::lemma_holds_within(said, code.shown(), byte);
    reveal_strlit(" rejected by broker: ");
    reveal_strlit("rejected by broker");
    let at = what.len() as int + 1;
    assert(shown.subrange(at, at + 18) =~= "rejected by broker"@);
    assert(text::holds_at(shown, "rejected by broker"@, at));
}

/// The other failures are told in their own words, which a closed connection puts behind saying
/// that it was the broker who closed it.
pub proof fn the_words_of_a_failure_are_kept(message: Seq<char>, inner: MqttErrorView)
    ensures
        ErrorView::Usage(message).text() == message,
        ErrorView::Unsupported(message).text() == message,
        ErrorView::Mqtt(inner).text() == inner.text(),
        text::holds(ErrorView::Disconnected(message).text(), message),
        text::holds(ErrorView::Disconnected(message).text(), "broker closed the connection"@),
{
    text::lemma_holds_appended("broker closed the connection "@, message, message);
    reveal_strlit("broker closed the connection ");
    reveal_strlit("broker closed the connection");
    let shown = ErrorView::Disconnected(message).text();
    assert(shown.subrange(0, 28) =~= "broker closed the connection"@);
    assert(text::holds_at(shown, "broker closed the connection"@, 0));
}

} // verus!
