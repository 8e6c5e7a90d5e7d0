//! The arguments of the commands: what was asked for, and every "which option wins" decision.

use crate::bench::OfferedRate;
use crate::error::{Error, ErrorView};
use crate::mqtt::packet;
use crate::mqtt::packet::{Properties, PropertiesView, Will, WillView};
use crate::mqtt::secret::SecretBytes;
use crate::mqtt::types::{ProtocolVersion, QoS};
use crate::text;
use vstd::prelude::*;

verus! {

/// Largest inbound packet accepted unless the arguments say otherwise.
///
/// Everything the broker sends is untrusted input and a packet's buffer is sized from its declared
/// length, so the ceiling is set here rather than taken on the broker's word.
pub const DEFAULT_MAX_PACKET_SIZE: u32 = 1_048_576;

/// The protocol's own ceiling on a packet: its length is a four-byte variable byte integer.
pub const PROTOCOL_MAX_PACKET_SIZE: u32 = 268_435_455;

/// Environment variable holding the password, used when the arguments give none.
pub const PASSWORD_ENV_VAR: &'static str = "WISPMQ_PASSWORD";

/// How many messages `sub` receives at most unless the arguments say otherwise: generous enough
/// that no real workflow hits it, finite so that an unbounded run is not the silent default.
pub const DEFAULT_MAX_MESSAGES: u64 = 1_000_000;

/// The port registered for MQTT over plain TCP.
pub const PLAIN_PORT: u16 = 1883;

/// The port registered for MQTT over TLS.
pub const TLS_PORT: u16 = 8883;

/// The protocol versions, spelled the way the standards are numbered.
#[derive(Clone, Copy, Debug, PartialEq, Eq, Structural)]
pub enum Protocol {
    V5,
    V311,
    V31,
}

impl Protocol {
    /// The spelling of a version.
    pub open spec fn spec_spelling(self) -> Seq<char> {
        match self {
            Protocol::V5 => "5"@,
            Protocol::V311 => "3.1.1"@,
            Protocol::V31 => "3.1"@,
        }
    }

    /// The other spelling of a version.
    pub open spec fn spec_alias(self) -> Seq<char> {
        match self {
            Protocol::V5 => "5.0"@,
            Protocol::V311 => "311"@,
            Protocol::V31 => "31"@,
        }
    }

    /// Whether a text spells this version.
    pub open spec fn spelled(self, spelling: Seq<char>) -> bool {
        spelling == self.spec_spelling() || spelling == self.spec_alias()
    }

    /// The protocol version a choice stands for.
    pub open spec fn spec_version(self) -> ProtocolVersion {
        match self {
            Protocol::V5 => ProtocolVersion::V5,
            Protocol::V311 => ProtocolVersion::V3_1_1,
            Protocol::V31 => ProtocolVersion::V3_1,
        }
    }

    /// The name of the choice.
    pub open spec fn spec_name(self) -> Seq<char> {
        match self {
            Protocol::V5 => "V5"@,
            Protocol::V311 => "V311"@,
            Protocol::V31 => "V31"@,
        }
    }

    /// The spelling of a version.
    pub fn spelling(self) -> (res: &'static str)
        ensures
            res@ == self.spec_spelling(),
    {
        match self {
            Protocol::V5 => "5",
            Protocol::V311 => "3.1.1",
            Protocol::V31 => "3.1",
        }
    }

    /// The other spelling of a version.
    pub fn alias(self) -> (res: &'static str)
        ensures
            res@ == self.spec_alias(),
    {
        match self {
            Protocol::V5 => "5.0",
            Protocol::V311 => "311",
            Protocol::V31 => "31",
        }
    }

    /// The name of the choice.
    pub fn name(self) -> (res: &'static str)
        ensures
            res@ == self.spec_name(),
    {
        match self {
            Protocol::V5 => "V5",
            Protocol::V311 => "V311",
            Protocol::V31 => "V31",
        }
    }

    /// The version a text spells, if it spells one.
    pub fn from_spelling(spelling: &str) -> (res: Option<Protocol>)
        ensures
            match res {
                Some(protocol) => protocol.spelled(spelling@),
                None => forall|protocol: Protocol| !#[trigger] protocol.spelled(spelling@),
            },
    {
        let choices = [Protocol::V5, Protocol::V311, Protocol::V31];
        let mut i: usize = 0;
        while i < 3
            invariant
                i <= 3,
                choices@ == seq![Protocol::V5, Protocol::V311, Protocol::V31],
                forall|j: int| 0 <= j < i ==> !#[trigger] choices@[j].spelled(spelling@),
            decreases 3 - i,
        {
            let choice = choices[i];
            if text::same(spelling, choice.spelling()) || text::same(spelling, choice.alias()) {
                return Some(choice);
            }
            i += 1;
        }
        assert(!choices@[0].spelled(spelling@));
        assert(!choices@[1].spelled(spelling@));
        assert(!choices@[2].spelled(spelling@));
        None
    }

    /// The protocol version a choice stands for.
    pub fn version(self) -> (version: ProtocolVersion)
        ensures
            version == self.spec_version(),
    {
        match self {
            Protocol::V5 => ProtocolVersion::V5,
            Protocol::V311 => ProtocolVersion::V3_1_1,
            Protocol::V31 => ProtocolVersion::V3_1,
        }
    }
}

impl From<Protocol> for ProtocolVersion {
    fn from(protocol: Protocol) -> (version: ProtocolVersion) {
        protocol.version()
    }
}

impl vstd::std_specs::convert::FromSpecImpl<Protocol> for ProtocolVersion {
    open spec fn obeys_from_spec() -> bool {
        true
    }

    open spec fn from_spec(protocol: Protocol) -> ProtocolVersion {
        protocol.spec_version()
    }
}

/// No text spells two versions.
pub proof fn spellings_are_unambiguous(spelling: Seq<char>, a: Protocol, b: Protocol)
    requires
        a.spelled(spelling),
        b.spelled(spelling),
    ensures
        a == b,
{
    reveal_strlit("5");
    reveal_strlit("5.0");
    reveal_strlit("3.1.1");
    reveal_strlit("311");
    reveal_strlit("3.1");
    reveal_strlit("31");
    assert("5"@.len() == 1 && "3.1.1"@.len() == 5 && "31"@.len() == 2);
    assert("5.0"@[0] == '5' && "311"@[1] == '1' && "3.1"@[0] == '3' && "3.1"@[1] == '.');
}

/// How to reach the broker, shared by every command. Paths are held as they are shown.
pub struct ConnectionArgs {
    /// Broker hostname or address.
    pub broker: String,
    /// Broker port, when one was given.
    pub port_arg: Option<u16>,
    /// Client identifier, when one was given.
    pub client_id: Option<String>,
    /// Protocol version to speak.
    pub protocol: Protocol,
    pub user: Option<String>,
    pub password: Option<String>,
    pub password_file: Option<String>,
    /// Keep-alive interval in seconds; 0 disables it.
    pub keepalive: u16,
    /// Largest inbound packet to accept, in bytes.
    pub max_packet_size: u32,
    /// Resume the broker's session instead of starting clean.
    pub persistent_session: bool,
    pub tls: bool,
    /// CA bundle to verify the broker against; the system's trust store when there is none.
    pub cafile: Option<String>,
    /// Client certificate for mutual TLS.
    pub cert: Option<String>,
    /// Private key matching the client certificate.
    pub key: Option<String>,
    /// Skip verification of the broker's certificate.
    pub insecure: bool,
    pub websocket: bool,
    /// Topic of the will message; there is no will without one.
    pub will_topic: Option<String>,
    pub will_payload: Option<String>,
    pub will_qos: u8,
    pub will_retain: bool,
}

/// Whether a byte ends a line.
pub open spec fn ends_line(byte: u8) -> bool {
    byte == 0x0A || byte == 0x0D
}

/// Bytes without the line ends behind them.
pub open spec fn without_line_ends(bytes: Seq<u8>) -> Seq<u8>
    decreases bytes.len(),
{
    if bytes.len() > 0 && ends_line(bytes.last()) {
        without_line_ends(bytes.drop_last())
    } else {
        bytes
    }
}

fn strip_line_ends(bytes: &mut Vec<u8>)
    ensures
        final(bytes)@ == without_line_ends(old(bytes)@),
{
    loop
        invariant
            without_line_ends(bytes@) == without_line_ends(old(bytes)@),
        decreases bytes@.len(),
    {
        let len: usize = bytes.len();
        if len == 0 {
            return;
        }
        let last: u8 = bytes[len - 1];
        if last != 0x0A && last != 0x0D {
            return;
        }
        let ghost before = bytes@;
        let _ = bytes.pop();
        assert(bytes@ =~= before.drop_last());
    }
}

/// How `{:?}` shows an optional string.
pub open spec fn quoted_option(value: Option<Seq<char>>) -> Seq<char> {
    match value {
        Some(v) => "Some("@ + text::quoted_text(v) + ")"@,
        None => "None"@,
    }
}

/// How `{:?}` shows a truth value.
pub open spec fn bool_text(value: bool) -> Seq<char> {
    if value {
        "true"@
    } else {
        "false"@
    }
}

/// How `{:?}` shows an optional port.
pub open spec fn port_text(port: Option<u16>) -> Seq<char> {
    match port {
        Some(p) => "Some("@ + text::decimal_text(p as nat) + ")"@,
        None => "None"@,
    }
}

/// How a debug dump shows an optional password.
pub open spec fn redacted_option(given: bool) -> Seq<char> {
    if given {
        "Some(\"<redacted>\")"@
    } else {
        "None"@
    }
}

fn append_port(out: &mut String, port: Option<u16>)
    ensures
        final(out)@ == old(out)@ + port_text(port),
{
    match port {
        Some(p) => {
            out.append("Some(");
            out.append(text::decimal(p as u64).as_str());
            out.append(")");
        },
        None => {
            out.append("None");
        },
    }
    assert(out@ =~= old(out)@ + port_text(port));
}

fn append_redacted(out: &mut String, given: bool)
    ensures
        final(out)@ == old(out)@ + redacted_option(given),
{
    if given {
        out.append("Some(\"<redacted>\")");
    } else {
        out.append("None");
    }
}

fn append_option(out: &mut String, value: &Option<String>)
    ensures
        final(out)@ == old(out)@ + quoted_option(text::opt_view(*value)),
{
    match value {
        Some(v) => {
            out.append("Some(");
            out.append(text::quoted(v.as_str()).as_str());
            out.append(")");
        },
        None => {
            out.append("None");
        },
    }
    assert(out@ =~= old(out)@ + quoted_option(text::opt_view(*value)));
}

fn append_bool(out: &mut String, value: bool)
    ensures
        final(out)@ == old(out)@ + bool_text(value),
{
    if value {
        out.append("true");
    } else {
        out.append("false");
    }
}

impl ConnectionArgs {
    /// Whether two sets of arguments say the same.
    pub open spec fn same_as(&self, other: &ConnectionArgs) -> bool {
        &&& self.broker@ == other.broker@
        &&& self.port_arg == other.port_arg
        &&& text::opt_view(self.client_id) == text::opt_view(other.client_id)
        &&& self.protocol == other.protocol
        &&& text::opt_view(self.user) == text::opt_view(other.user)
        &&& text::opt_view(self.password) == text::opt_view(other.password)
        &&& text::opt_view(self.password_file) == text::opt_view(other.password_file)
        &&& self.keepalive == other.keepalive
        &&& self.max_packet_size == other.max_packet_size
        &&& self.persistent_session == other.persistent_session
        &&& self.tls == other.tls
        &&& text::opt_view(self.cafile) == text::opt_view(other.cafile)
        &&& text::opt_view(self.cert) == text::opt_view(other.cert)
        &&& text::opt_view(self.key) == text::opt_view(other.key)
        &&& self.insecure == other.insecure
        &&& self.websocket == other.websocket
        &&& text::opt_view(self.will_topic) == text::opt_view(other.will_topic)
        &&& text::opt_view(self.will_payload) == text::opt_view(other.will_payload)
        &&& self.will_qos == other.will_qos
        &&& self.will_retain == other.will_retain
    }

    /// The documented defaults.
    pub open spec fn is_default(&self) -> bool {
        &&& self.broker@ == "localhost"@
        &&& self.port_arg is None
        &&& self.client_id is None
        &&& self.protocol == Protocol::V5
        &&& self.user is None
        &&& self.password is None
        &&& self.password_file is None
        &&& self.keepalive == 60
        &&& self.max_packet_size == DEFAULT_MAX_PACKET_SIZE
        &&& !self.persistent_session
        &&& !self.tls
        &&& self.cafile is None
        &&& self.cert is None
        &&& self.key is None
        &&& !self.insecure
        &&& !self.websocket
        &&& self.will_topic is None
        &&& self.will_payload is None
        &&& self.will_qos == 0
        &&& !self.will_retain
    }

    /// The password that goes on the wire. Explicit beats ambient: the file, then the argument,
    /// then the environment. `file` is what reading the password file gave.
    pub open spec fn chosen_password(
        &self,
        file: Option<Result<Seq<u8>, Seq<char>>>,
        environment: Option<Seq<u8>>,
    ) -> Result<Option<Seq<u8>>, ErrorView> {
        match file {
            Some(Ok(bytes)) => Ok(Some(without_line_ends(bytes))),
            Some(Err(e)) => Err(ErrorView::Usage("cannot read the password file: "@ + e)),
            None => match self.password {
                Some(password) => Ok(Some(vstd::utf8::encode_utf8(password@))),
                None => Ok(environment),
            },
        }
    }

    /// The will the arguments describe.
    pub open spec fn chosen_will(&self) -> Option<WillView> {
        match self.will_topic {
            Some(topic) => Some(
                WillView {
                    qos: QoS::of(self.will_qos)->0,
                    retain: self.will_retain,
                    properties: PropertiesView::empty(),
                    topic: topic@,
                    payload: text::opt_bytes(self.will_payload),
                },
            ),
            None => None,
        }
    }

    /// Whether the session starts clean.
    pub fn clean_start(&self) -> (res: bool)
        ensures
            res == !self.persistent_session,
    {
        !self.persistent_session
    }

    /// The protocol version to speak.
    pub fn version(&self) -> (version: ProtocolVersion)
        ensures
            version == self.protocol.spec_version(),
    {
        self.protocol.version()
    }

    /// The port to dial: the one given, else the one registered for the transport.
    pub open spec fn spec_port(&self) -> u16 {
        match self.port_arg {
            Some(port) => port,
            None => if self.tls {
                TLS_PORT
            } else {
                PLAIN_PORT
            },
        }
    }

    /// The port to dial: the one given, else the one registered for the transport.
    pub fn port(&self) -> (port: u16)
        ensures
            port == self.spec_port(),
    {
        match self.port_arg {
            Some(port) => port,
            None => if self.tls {
                TLS_PORT
            } else {
                PLAIN_PORT
            },
        }
    }

    /// What is wrong with the inbound packet ceiling, if anything. Zero is an error of the
    /// protocol; nothing above the protocol's own maximum can be framed.
    pub open spec fn packet_size_fault(&self) -> Option<Seq<char>> {
        if self.max_packet_size == 0 {
            Some("--max-packet-size must be at least 1"@)
        } else if self.max_packet_size > PROTOCOL_MAX_PACKET_SIZE {
            Some(
                "--max-packet-size "@ + text::decimal_text(self.max_packet_size as nat)
                    + " exceeds the protocol maximum "@ + text::decimal_text(
                    PROTOCOL_MAX_PACKET_SIZE as nat,
                ),
            )
        } else {
            None
        }
    }

    /// The inbound packet ceiling, validated.
    pub fn max_packet_size(&self) -> (res: Result<u32, String>)
        ensures
            match res {
                Ok(n) => self.packet_size_fault() is None && n == self.max_packet_size,
                Err(e) => self.packet_size_fault() == Some(e@),
            },
    {
        let n: u32 = self.max_packet_size;
        if n == 0 {
            Err(String::from_str("--max-packet-size must be at least 1"))
        } else if n > PROTOCOL_MAX_PACKET_SIZE {
            let mut e = String::from_str("--max-packet-size ");
            e.append(text::decimal(n as u64).as_str());
            e.append(" exceeds the protocol maximum ");
            e.append(text::decimal(PROTOCOL_MAX_PACKET_SIZE as u64).as_str());
            Err(e)
        } else {
            Ok(n)
        }
    }

    /// The password from whichever source was given.
    ///
    /// `file` is what reading the password file gave, its contents or the system's message, and
    /// is there exactly when a password file was asked for. `environment` is the value of
    /// `PASSWORD_ENV_VAR`. The environment comes last so that a variable left in a shell profile
    /// cannot quietly override the credential someone just typed.
    pub fn password(
        &self,
        file: Option<Result<Vec<u8>, String>>,
        environment: Option<Vec<u8>>,
    ) -> (res: Result<Option<SecretBytes>, Error>)
        requires
            file.is_some() == self.password_file.is_some(),
        ensures
            match (res, self.chosen_password(read_view(file), bytes_view(environment))) {
                (Ok(secret), Ok(bytes)) => packet::secret_view(secret) == bytes,
                (Err(e), Err(fault)) => e@ == fault,
                _ => false,
            },
    {
        match file {
            Some(Ok(contents)) => {
                let mut bytes = contents;
                strip_line_ends(&mut bytes);
                Ok(Some(SecretBytes::new(bytes)))
            },
            Some(Err(e)) => {
                let mut message = String::from_str("cannot read the password file: ");
                message.append(e.as_str());
                Err(Error::Usage(message))
            },
            None => match &self.password {
                Some(password) => Ok(
                    Some(
                        SecretBytes::new(
                            vstd::slice::slice_to_vec(password.as_str().as_bytes()),
                        ),
                    ),
                ),
                None => match environment {
                    Some(bytes) => Ok(Some(SecretBytes::new(bytes))),
                    None => Ok(None),
                },
            },
        }
    }

    /// The will message to attach to CONNECT, when a will topic was given.
    pub fn will(&self) -> (will: Option<Will>)
        requires
            self.will_topic.is_some() ==> self.will_qos <= 2,
        ensures
            packet::will_view(will) == self.chosen_will(),
    {
        match &self.will_topic {
            Some(topic) => {
                let qos = match self.will_qos {
                    0 => QoS::AtMostOnce,
                    1 => QoS::AtLeastOnce,
                    _ => QoS::ExactlyOnce,
                };
                Some(
                    Will {
                        qos,
                        retain: self.will_retain,
                        properties: Properties::new(),
                        topic: topic.clone(),
                        payload: text::bytes_or_empty(&self.will_payload),
                    },
                )
            },
            None => None,
        }
    }

    /// Whether any password source is configured, without reading it.
    pub open spec fn spec_has_password_source(&self, in_environment: bool) -> bool {
        self.password_file.is_some() || self.password.is_some() || in_environment
    }

    /// Whether any password source is configured, without reading it. `in_environment` says
    /// whether `PASSWORD_ENV_VAR` is set.
    pub fn has_password_source(&self, in_environment: bool) -> (res: bool)
        ensures
            res == self.spec_has_password_source(in_environment),
    {
        self.password_file.is_some() || self.password.is_some() || in_environment
    }

    /// The warning to print when a password will cross the network in the clear.
    pub open spec fn spec_plaintext_password_warning(&self, in_environment: bool) -> Option<
        Seq<char>,
    > {
        if self.spec_has_password_source(in_environment) && !self.tls {
            Some(
                "wispmq-cli: warning: sending a password without --tls; it crosses the network in the clear"@,
            )
        } else {
            None
        }
    }

    /// The warning to print when a password is configured and the connection will not be
    /// encrypted: credentials otherwise cross the network in the clear with nothing saying so.
    pub fn plaintext_password_warning(&self, in_environment: bool) -> (res: Option<&'static str>)
        ensures
            match res {
                Some(warning) => self.spec_plaintext_password_warning(in_environment) == Some(
                    warning@,
                ),
                None => self.spec_plaintext_password_warning(in_environment) is None,
            },
    {
        if self.has_password_source(in_environment) && !self.tls {
            Some(
                "wispmq-cli: warning: sending a password without --tls; it crosses the network in the clear",
            )
        } else {
            None
        }
    }

    /// How `{:?}` shows the arguments. The password is replaced whatever it is, so that a debug
    /// dump can never put it in a log or a terminal.
    pub open spec fn debug_view(&self) -> Seq<char> {
        "ConnectionArgs { broker: "@ + text::quoted_text(self.broker@) + ", port_arg: "@
            + port_text(self.port_arg) + ", client_id: "@ + quoted_option(text::opt_view(self.client_id)) + ", protocol: "@
            + self.protocol.spec_name() + ", user: "@ + quoted_option(text::opt_view(self.user))
            + ", password: "@ + redacted_option(self.password.is_some()) + ", password_file: "@ + quoted_option(
            text::opt_view(self.password_file),
        ) + ", keepalive: "@ + text::decimal_text(self.keepalive as nat) + ", max_packet_size: "@
            + text::decimal_text(self.max_packet_size as nat) + ", persistent_session: "@
            + bool_text(self.persistent_session) + ", tls: "@ + bool_text(self.tls) + ", cafile: "@
            + quoted_option(text::opt_view(self.cafile)) + ", cert: "@ + quoted_option(
            text::opt_view(self.cert),
        ) + ", key: "@ + quoted_option(text::opt_view(self.key)) + ", insecure: "@ + bool_text(
            self.insecure,
        ) + ", websocket: "@ + bool_text(self.websocket) + ", will_topic: "@ + quoted_option(
            text::opt_view(self.will_topic),
        ) + ", will_payload: "@ + quoted_option(text::opt_view(self.will_payload))
            + ", will_qos: "@ + text::decimal_text(self.will_qos as nat) + ", will_retain: "@
            + bool_text(self.will_retain) + " }"@
    }

    /// The arguments as a debug dump shows them, the password replaced.
    pub fn debug_text(&self) -> (res: String)
        ensures
            res@ == self.debug_view(),
    {
        let mut out = String::from_str("ConnectionArgs { broker: ");
        out.append(text::quoted(self.broker.as_str()).as_str());
        out.append(", port_arg: ");
        append_port(&mut out, self.port_arg);
        out.append(", client_id: ");
        append_option(&mut out, &self.client_id);
        out.append(", protocol: ");
        out.append(self.protocol.name());
        out.append(", user: ");
        append_option(&mut out, &self.user);
        out.append(", password: ");
        append_redacted(&mut out, self.password.is_some());
        out.append(", password_file: ");
        append_option(&mut out, &self.password_file);
        out.append(", keepalive: ");
        out.append(text::decimal(self.keepalive as u64).as_str());
        out.append(", max_packet_size: ");
        out.append(text::decimal(self.max_packet_size as u64).as_str());
        out.append(", persistent_session: ");
        append_bool(&mut out, self.persistent_session);
        out.append(", tls: ");
        append_bool(&mut out, self.tls);
        out.append(", cafile: ");
        append_option(&mut out, &self.cafile);
        out.append(", cert: ");
        append_option(&mut out, &self.cert);
        out.append(", key: ");
        append_option(&mut out, &self.key);
        out.append(", insecure: ");
        append_bool(&mut out, self.insecure);
        out.append(", websocket: ");
        append_bool(&mut out, self.websocket);
        out.append(", will_topic: ");
        append_option(&mut out, &self.will_topic);
        out.append(", will_payload: ");
        append_option(&mut out, &self.will_payload);
        out.append(", will_qos: ");
        out.append(text::decimal(self.will_qos as u64).as_str());
        out.append(", will_retain: ");
        append_bool(&mut out, self.will_retain);
        out.append(" }");
        out
    }
}

impl Clone for ConnectionArgs {
    fn clone(&self) -> (res: ConnectionArgs)
        ensures
            res.same_as(self),
    {
        ConnectionArgs {
            broker: self.broker.clone(),
            port_arg: self.port_arg,
            client_id: text::clone_opt(&self.client_id),
            protocol: self.protocol,
            user: text::clone_opt(&self.user),
            password: text::clone_opt(&self.password),
            password_file: text::clone_opt(&self.password_file),
            keepalive: self.keepalive,
            max_packet_size: self.max_packet_size,
            persistent_session: self.persistent_session,
            tls: self.tls,
            cafile: text::clone_opt(&self.cafile),
            cert: text::clone_opt(&self.cert),
            key: text::clone_opt(&self.key),
            insecure: self.insecure,
            websocket: self.websocket,
            will_topic: text::clone_opt(&self.will_topic),
            will_payload: text::clone_opt(&self.will_payload),
            will_qos: self.will_qos,
            will_retain: self.will_retain,
        }
    }
}

/// What reading a file gave.
pub open spec fn read_view(
    read: Option<Result<Vec<u8>, String>>,
) -> Option<Result<Seq<u8>, Seq<char>>> {
    match read {
        Some(Ok(bytes)) => Some(Ok(bytes@)),
        Some(Err(e)) => Some(Err(e@)),
        None => None,
    }
}

/// What optional bytes hold.
pub open spec fn bytes_view(bytes: Option<Vec<u8>>) -> Option<Seq<u8>> {
    match bytes {
        Some(b) => Some(b@),
        None => None,
    }
}

impl Default for ConnectionArgs {
    /// The documented defaults.
    fn default() -> (args: ConnectionArgs)
        ensures
            args.is_default(),
    {
        ConnectionArgs {
            broker: String::from_str("localhost"),
            port_arg: None,
            client_id: None,
            protocol: Protocol::V5,
            user: None,
            password: None,
            password_file: None,
            keepalive: 60,
            max_packet_size: DEFAULT_MAX_PACKET_SIZE,
            persistent_session: false,
            tls: false,
            cafile: None,
            cert: None,
            key: None,
            insecure: false,
            websocket: false,
            will_topic: None,
            will_payload: None,
            will_qos: 0,
            will_retain: false,
        }
    }
}

/// A debug dump says nothing of the password but whether there is one.
pub proof fn debug_never_shows_the_password(a: ConnectionArgs, b: ConnectionArgs)
    requires
        a.password.is_some() == b.password.is_some(),
        (ConnectionArgs { password: a.password, ..b }) == a,
    ensures
        a.debug_view() == b.debug_view(),
{
}

/// An explicit password source wins: the environment has no say next to it, and the argument has
/// none next to the file.
pub proof fn explicit_password_beats_ambient(
    args: ConnectionArgs,
    other: ConnectionArgs,
    file: Option<Result<Seq<u8>, Seq<char>>>,
    environment: Option<Seq<u8>>,
    other_environment: Option<Seq<u8>>,
)
    ensures
        file.is_some() || args.password.is_some() ==> args.chosen_password(file, environment)
            == args.chosen_password(file, other_environment),
        file.is_some() ==> args.chosen_password(file, environment) == other.chosen_password(
            file,
            other_environment,
        ),
        file is None && args.password is None ==> args.chosen_password(file, environment) == Ok::<
            Option<Seq<u8>>,
            ErrorView,
        >(environment),
{
}

/// A password from a file is the file without the line ends behind it, and nothing else changed.
pub proof fn line_ends_are_stripped(bytes: Seq<u8>)
    ensures
        without_line_ends(bytes).len() <= bytes.len(),
        without_line_ends(bytes) == bytes.take(without_line_ends(bytes).len() as int),
        without_line_ends(bytes).len() > 0 ==> !ends_line(without_line_ends(bytes).last()),
        forall|i: int|
            without_line_ends(bytes).len() <= i < bytes.len() ==> ends_line(#[trigger] bytes[i]),
    decreases bytes.len(),
{
    if bytes.len() > 0 && ends_line(bytes.last()) {
        let shorter = bytes.drop_last();
        line_ends_are_stripped(shorter);
        let kept = without_line_ends(shorter);
        assert(shorter.take(kept.len() as int) =~= bytes.take(kept.len() as int));
        assert forall|i: int| kept.len() <= i < bytes.len() implies ends_line(
            #[trigger] bytes[i],
        ) by {
            if i < shorter.len() {
                assert(shorter[i] == bytes[i]);
            }
        }
    } else {
        assert(bytes.take(bytes.len() as int) =~= bytes);
    }
}

/// Whether others than the owner may do anything with a file of this mode.
pub open spec fn open_to_others(mode: u32) -> bool {
    mode % 64 != 0
}

/// The warning to print when a password file is open to anyone but its owner.
pub open spec fn others_warning(path: Seq<char>, mode: u32) -> Option<Seq<char>> {
    if open_to_others(mode) {
        Some(
            "wispmq-cli: warning: "@ + path + " is readable by others (mode "@
                + text::octal_mode_text(mode as nat) + "); consider chmod 600"@,
        )
    } else {
        None
    }
}

/// The warning to print when a password file is open to anyone but its owner.
///
/// A warning rather than a refusal: the credential is the operator's to manage. The low six bits
/// of the mode are those of the group and of everyone.
pub fn readable_by_others_warning(path: &str, mode: u32) -> (res: Option<String>)
    ensures
        text::opt_view(res) == others_warning(path@, mode),
{
    if mode % 64 == 0 {
        return None;
    }
    let mut warning = String::from_str("wispmq-cli: warning: ");
    warning.append(path);
    warning.append(" is readable by others (mode ");
    warning.append(text::octal_mode(mode).as_str());
    warning.append("); consider chmod 600");
    Some(warning)
}

/// What `pub` was asked to do. At most one of `message`, `file` and `stdin_lines` is given.
pub struct PubArgs {
    pub conn: ConnectionArgs,
    pub topic: String,
    /// The payload; empty when nothing else supplies one.
    pub message: Option<String>,
    /// Read the payload from this file, or from standard input if it is `-`.
    pub file: Option<String>,
    /// Publish one message per line of standard input.
    pub stdin_lines: bool,
    pub qos: u8,
    pub retain: bool,
    pub user_properties: Vec<(String, String)>,
    pub message_expiry_interval: Option<u32>,
    pub content_type: Option<String>,
    pub payload_format_indicator: bool,
}

impl PubArgs {
    /// The documented defaults for a topic.
    pub fn new(topic: &str) -> (args: PubArgs)
        ensures
            args.conn.is_default(),
            args.topic@ == topic@,
            args.message is None,
            args.file is None,
            !args.stdin_lines,
            args.qos == 0,
            !args.retain,
            args.user_properties@.len() == 0,
            args.message_expiry_interval is None,
            args.content_type is None,
            !args.payload_format_indicator,
    {
        PubArgs {
            conn: ConnectionArgs::default(),
            topic: String::from_str(topic),
            message: None,
            file: None,
            stdin_lines: false,
            qos: 0,
            retain: false,
            user_properties: Vec::new(),
            message_expiry_interval: None,
            content_type: None,
            payload_format_indicator: false,
        }
    }
}

/// Whether a text is this key and this value, with the first `=` between them.
pub open spec fn reads_as(s: Seq<char>, key: Seq<char>, value: Seq<char>) -> bool {
    &&& s == key + seq!['='] + value
    &&& !key.contains('=')
}

/// Parse a user property, `KEY=VALUE`, splitting on the first `=`: nothing forbids another one
/// inside the value.
pub fn parse_user_property(s: &str) -> (res: Result<(String, String), String>)
    ensures
        match res {
            Ok((key, value)) => reads_as(s@, key@, value@),
            Err(e) => {
                &&& !s@.contains('=')
                &&& e@ == "expected KEY=VALUE, got "@ + text::quoted_text(s@)
            },
        },
{
    match text::split_at_equals(s) {
        Some((key, value)) => Ok((String::from_str(key), String::from_str(value))),
        None => {
            let mut e = String::from_str("expected KEY=VALUE, got ");
            e.append(text::quoted(s).as_str());
            Err(e)
        },
    }
}

/// A user property says which part is the key: two readings of one text are the same.
pub proof fn user_property_has_one_reading(
    key: Seq<char>,
    value: Seq<char>,
    other_key: Seq<char>,
    other_value: Seq<char>,
)
    requires
        key + seq!['='] + value == other_key + seq!['='] + other_value,
        !key.contains('='),
        !other_key.contains('='),
    ensures
        key == other_key,
        value == other_value,
{
    let whole = key + seq!['='] + value;
    let other = other_key + seq!['='] + other_value;
    assert(whole[key.len() as int] == '=');
    assert(other[other_key.len() as int] == '=');
    if key.len() < other_key.len() {
        assert(other[key.len() as int] == other_key[key.len() as int]);
    }
    if other_key.len() < key.len() {
        assert(whole[other_key.len() as int] == key[other_key.len() as int]);
    }
    assert(key =~= whole.take(key.len() as int));
    assert(other_key =~= other.take(key.len() as int));
    assert(value =~= whole.skip(key.len() as int + 1));
    assert(other_value =~= other.skip(key.len() as int + 1));
}

/// What `sub` was asked to do.
pub struct SubArgs {
    pub conn: ConnectionArgs,
    /// The topic filters to subscribe to.
    pub topic: Vec<String>,
    pub qos: u8,
    /// Print the topic name before each payload.
    pub show_topic: bool,
    /// Exit after this many messages.
    pub count: Option<u64>,
    /// Exit after this many messages whatever `count` says; 0 removes the ceiling.
    pub max_messages: u64,
}

impl SubArgs {
    /// The documented defaults.
    pub fn new() -> (args: SubArgs)
        ensures
            args.conn.is_default(),
            args.topic@.len() == 0,
            args.qos == 0,
            !args.show_topic,
            args.count is None,
            args.max_messages == DEFAULT_MAX_MESSAGES,
    {
        SubArgs {
            conn: ConnectionArgs::default(),
            topic: Vec::new(),
            qos: 0,
            show_topic: false,
            count: None,
            max_messages: DEFAULT_MAX_MESSAGES,
        }
    }

    /// Whether `n` messages are as many as the arguments allow.
    pub open spec fn allows(&self, n: u64) -> bool {
        &&& self.count matches Some(count) ==> n <= count
        &&& self.max_messages != 0 ==> n <= self.max_messages
    }

    /// The smaller of the two limits, an absent count and a ceiling of zero both meaning "no
    /// limit from this source". `None` is genuinely unbounded.
    pub open spec fn spec_effective_limit(&self) -> Option<u64> {
        match self.count {
            Some(count) => if self.max_messages != 0 && self.max_messages < count {
                Some(self.max_messages)
            } else {
                Some(count)
            },
            None => if self.max_messages != 0 {
                Some(self.max_messages)
            } else {
                None
            },
        }
    }

    /// The smaller of the two limits.
    pub fn effective_limit(&self) -> (limit: Option<u64>)
        ensures
            limit == self.spec_effective_limit(),
    {
        match self.count {
            Some(count) => if self.max_messages != 0 && self.max_messages < count {
                Some(self.max_messages)
            } else {
                Some(count)
            },
            None => if self.max_messages != 0 {
                Some(self.max_messages)
            } else {
                None
            },
        }
    }
}

/// The effective limit is the largest number of messages that both limits allow.
pub proof fn effective_limit_is_the_tightest(args: SubArgs, n: u64)
    ensures
        args.allows(n) <==> (args.spec_effective_limit() matches Some(limit) ==> n <= limit),
        args.spec_effective_limit() is None <==> args.count is None && args.max_messages == 0,
{
}

/// What `request` was asked to do.
pub struct RequestArgs {
    pub conn: ConnectionArgs,
    pub topic: String,
    /// Topic to receive the reply on.
    pub reply_topic: String,
    pub message: Option<String>,
    pub qos: u8,
    /// Print the topic name before each reply.
    pub show_topic: bool,
    /// Exit after this many replies.
    pub count: u64,
}

impl RequestArgs {
    /// The documented defaults for a topic and the topic of the replies.
    pub fn new(topic: &str, reply_topic: &str) -> (args: RequestArgs)
        ensures
            args.conn.is_default(),
            args.topic@ == topic@,
            args.reply_topic@ == reply_topic@,
            args.message is None,
            args.qos == 0,
            !args.show_topic,
            args.count == 1,
    {
        RequestArgs {
            conn: ConnectionArgs::default(),
            topic: String::from_str(topic),
            reply_topic: String::from_str(reply_topic),
            message: None,
            qos: 0,
            show_topic: false,
            count: 1,
        }
    }
}

/// What `bench` was asked to do.
pub struct BenchArgs {
    pub conn: ConnectionArgs,
    /// Number of publishing connections.
    pub publishers: usize,
    /// Number of subscribing connections.
    pub subscribers: usize,
    /// Root of the topic tree.
    pub topic_prefix: String,
    pub qos: u8,
    /// Payload size in bytes.
    pub payload_size: usize,
    /// Total messages to publish across all publishers.
    pub count: Option<u64>,
    /// Stop after this many seconds.
    pub duration: Option<u64>,
    /// Offered load, split across publishers.
    pub rate: Option<OfferedRate>,
    /// Unacknowledged messages allowed per publisher.
    pub inflight: usize,
    /// Discard samples recorded during this many seconds at the start.
    pub warmup: u64,
    /// Seconds to keep subscribers running after the publishers finish.
    pub drain: u64,
    /// Emit the report as JSON instead of a table.
    pub json: bool,
}

impl BenchArgs {
    /// The documented defaults.
    pub fn new() -> (args: BenchArgs)
        ensures
            args.conn.is_default(),
            args.publishers == 1,
            args.subscribers == 0,
            args.topic_prefix@ == "bench"@,
            args.qos == 0,
            args.payload_size == 64,
            args.count is None,
            args.duration is None,
            args.rate is None,
            args.inflight == 100,
            args.warmup == 0,
            args.drain == 2,
            !args.json,
    {
        BenchArgs {
            conn: ConnectionArgs::default(),
            publishers: 1,
            subscribers: 0,
            topic_prefix: String::from_str("bench"),
            qos: 0,
            payload_size: 64,
            count: None,
            duration: None,
            rate: None,
            inflight: 100,
            warmup: 0,
            drain: 2,
            json: false,
        }
    }
}

/// The password is taken from its source unchanged: a file gives its bytes without the newlines
/// and carriage returns at its end, and nothing else of it is cut; the argument gives its bytes,
/// the environment its value, and an unreadable file is an error whatever else is there.
pub proof fn the_password_is_taken_unchanged(
    args: ConnectionArgs,
    file: Option<Result<Seq<u8>, Seq<char>>>,
    environment: Option<Seq<u8>>,
)
    ensures
        match file {
            Some(Ok(bytes)) => args.chosen_password(file, environment) matches Ok(Some(password)) && {
                &&& password.len() <= bytes.len()
                &&& password == bytes.take(password.len() as int)
                &&& password.len() > 0 ==> password.last() != 10 && password.last() != 13
                &&& forall|i: int|
                    password.len() <= i < bytes.len() ==> #[trigger] bytes[i] == 10 || bytes[i]
                        == 13
            },
            Some(Err(e)) => args.chosen_password(file, environment) is Err,
            None => args.chosen_password(file, environment) is Ok,
        },
        file is None ==> match args.password {
            Some(password) => args.chosen_password(file, environment)->Ok_0 == Some(
                vstd::utf8::encode_utf8(password@),
            ),
            None => args.chosen_password(file, environment)->Ok_0 == environment,
        },
{
    if let Some(Ok(bytes)) = file {
        line_ends_are_stripped(bytes);
    }
}

/// There is a will exactly when a will topic was given. It goes to that topic, at the quality that
/// was asked for, retained exactly when asked, with the bytes of the will payload.
pub proof fn the_will_is_what_was_asked_for(args: ConnectionArgs)
    requires
        args.will_qos <= 2,
    ensures
        args.chosen_will() is Some <==> args.will_topic is Some,
        args.chosen_will() matches Some(will) ==> {
            &&& will.topic == args.will_topic->0@
            &&& will.retain <==> args.will_retain
            &&& will.qos == QoS::AtMostOnce <==> args.will_qos == 0
            &&& will.qos == QoS::AtLeastOnce <==> args.will_qos == 1
            &&& will.qos == QoS::ExactlyOnce <==> args.will_qos == 2
            &&& args.will_payload matches Some(p) ==> will.payload == vstd::utf8::encode_utf8(p@)
            &&& args.will_payload is None ==> will.payload.len() == 0
            &&& will.properties == PropertiesView::empty()
        },
{
    text::a_text_is_its_bytes(args.will_payload);
}

/// A port that was given is dialled. Without one it is 8883 with TLS and 1883 without, whatever
/// else was asked for.
pub proof fn the_port_is_the_one_given_or_registered(args: ConnectionArgs)
    ensures
        args.port_arg matches Some(port) ==> args.spec_port() == port,
        args.port_arg is None && args.tls ==> args.spec_port() == 8883,
        args.port_arg is None && !args.tls ==> args.spec_port() == 1883,
{
}

/// A packet ceiling is refused exactly when it is 0 or above what a packet's length can say.
pub proof fn only_impossible_ceilings_are_refused(args: ConnectionArgs)
    ensures
        args.packet_size_fault() is None <==> 1 <= args.max_packet_size <= 268_435_455,
{
}

/// Any of the three sources is a password source, and without all of them there is none.
pub proof fn a_password_source_is_any_of_three(args: ConnectionArgs, in_environment: bool)
    ensures
        args.spec_has_password_source(in_environment) <==> !(args.password_file is None
            && args.password is None && !in_environment),
{
}

/// A password file is open to others exactly when one of the permission bits of the group or of
/// everyone is set; the owner's bits and those above them do not matter.
pub proof fn others_are_the_group_and_everyone(mode: u32)
    ensures
        open_to_others(mode) <==> mode & 0x3F != 0,
{
    assert(mode % 64 != 0 <==> mode & 0x3F != 0) by (bit_vector);
}

/// The version that is spoken is the one that was chosen.
pub proof fn the_chosen_version_is_spoken(choice: Protocol)
    ensures
        choice.spec_version() == ProtocolVersion::V5 <==> choice == Protocol::V5,
        choice.spec_version() == ProtocolVersion::V3_1_1 <==> choice == Protocol::V311,
        choice.spec_version() == ProtocolVersion::V3_1 <==> choice == Protocol::V31,
{
}

/// A debug dump shows every argument under its name, the password apart.
pub proof fn debug_shows_every_argument(args: &ConnectionArgs)
    ensures
        ({
            let dump = args.debug_view();
            &&& text::holds(dump, "ConnectionArgs { broker: "@ + text::quoted_text(args.broker@))
            &&& text::holds(dump, ", port_arg: "@ + port_text(args.port_arg))
            &&& text::holds(dump, ", client_id: "@ + quoted_option(text::opt_view(args.client_id)))
            &&& text::holds(dump, ", protocol: "@ + args.protocol.spec_name())
            &&& text::holds(dump, ", user: "@ + quoted_option(text::opt_view(args.user)))
            &&& text::holds(dump, ", password: "@ + redacted_option(args.password.is_some()))
            &&& text::holds(dump, ", password_file: "@ + quoted_option(text::opt_view(args.password_file)))
            &&& text::holds(dump, ", keepalive: "@ + text::decimal_text(args.keepalive as nat))
            &&& text::holds(dump, ", max_packet_size: "@ + text::decimal_text(args.max_packet_size as nat))
            &&& text::holds(dump, ", persistent_session: "@ + bool_text(args.persistent_session))
            &&& text::holds(dump, ", tls: "@ + bool_text(args.tls))
            &&& text::holds(dump, ", cafile: "@ + quoted_option(text::opt_view(args.cafile)))
            &&& text::holds(dump, ", cert: "@ + quoted_option(text::opt_view(args.cert)))
            &&& text::holds(dump, ", key: "@ + quoted_option(text::opt_view(args.key)))
            &&& text::holds(dump, ", insecure: "@ + bool_text(args.insecure))
            &&& text::holds(dump, ", websocket: "@ + bool_text(args.websocket))
            &&& text::holds(dump, ", will_topic: "@ + quoted_option(text::opt_view(args.will_topic)))
            &&& text::holds(dump, ", will_payload: "@ + quoted_option(text::opt_view(args.will_payload)))
            &&& text::holds(dump, ", will_qos: "@ + text::decimal_text(args.will_qos as nat))
            &&& text::holds(dump, ", will_retain: "@ + bool_text(args.will_retain))
        }),
{
    let dump = args.debug_view();
    let w0 = "ConnectionArgs { broker: "@ + text::quoted_text(args.broker@);
    let w1 = w0 + ", port_arg: "@ + port_text(args.port_arg);
    let w2 = w1 + ", client_id: "@ + quoted_option(text::opt_view(args.client_id));
    let w3 = w2 + ", protocol: "@ + args.protocol.spec_name();
    let w4 = w3 + ", user: "@ + quoted_option(text::opt_view(args.user));
    let w5 = w4 + ", password: "@ + redacted_option(args.password.is_some());
    let w6 = w5 + ", password_file: "@ + quoted_option(text::opt_view(args.password_file));
    let w7 = w6 + ", keepalive: "@ + text::decimal_text(args.keepalive as nat);
    let w8 = w7 + ", max_packet_size: "@ + text::decimal_text(args.max_packet_size as nat);
    let w9 = w8 + ", persistent_session: "@ + bool_text(args.persistent_session);
    let w10 = w9 + ", tls: "@ + bool_text(args.tls);
    let w11 = w10 + ", cafile: "@ + quoted_option(text::opt_view(args.cafile));
    let w12 = w11 + ", cert: "@ + quoted_option(text::opt_view(args.cert));
    let w13 = w12 + ", key: "@ + quoted_option(text::opt_view(args.key));
    let w14 = w13 + ", insecure: "@ + bool_text(args.insecure);
    let w15 = w14 + ", websocket: "@ + bool_text(args.websocket);
    let w16 = w15 + ", will_topic: "@ + quoted_option(text::opt_view(args.will_topic));
    let w17 = w16 + ", will_payload: "@ + quoted_option(text::opt_view(args.will_payload));
    let w18 = w17 + ", will_qos: "@ + text::decimal_text(args.will_qos as nat);
    let w19 = w18 + ", will_retain: "@ + bool_text(args.will_retain);
    assert(dump == w19 + " }"@);
    assert(w19 =~= dump.take(w19.len() as int));
    text::lemma_labelled_in_front(w18, ", will_retain: "@, bool_text(args.will_retain), dump);
    text::lemma_labelled_in_front(w17, ", will_qos: "@, text::decimal_text(args.will_qos as nat), dump);
    text::lemma_labelled_in_front(w16, ", will_payload: "@, quoted_option(text::opt_view(args.will_payload)), dump);
    text::lemma_labelled_in_front(w15, ", will_topic: "@, quoted_option(text::opt_view(args.will_topic)), dump);
    text::lemma_labelled_in_front(w14, ", websocket: "@, bool_text(args.websocket), dump);
    text::lemma_labelled_in_front(w13, ", insecure: "@, bool_text(args.insecure), dump);
    text::lemma_labelled_in_front(w12, ", key: "@, quoted_option(text::opt_view(args.key)), dump);
    text::lemma_labelled_in_front(w11, ", cert: "@, quoted_option(text::opt_view(args.cert)), dump);
    text::lemma_labelled_in_front(w10, ", cafile: "@, quoted_option(text::opt_view(args.cafile)), dump);
    text::lemma_labelled_in_front(w9, ", tls: "@, bool_text(args.tls), dump);
    text::lemma_labelled_in_front(w8, ", persistent_session: "@, bool_text(args.persistent_session), dump);
    text::lemma_labelled_in_front(w7, ", max_packet_size: "@, text::decimal_text(args.max_packet_size as nat), dump);
    text::lemma_labelled_in_front(w6, ", keepalive: "@, text::decimal_text(args.keepalive as nat), dump);
    text::lemma_labelled_in_front(w5, ", password_file: "@, quoted_option(text::opt_view(args.password_file)), dump);
    text::lemma_labelled_in_front(w4, ", password: "@, redacted_option(args.password.is_some()), dump);
    text::lemma_labelled_in_front(w3, ", user: "@, quoted_option(text::opt_view(args.user)), dump);
    text::lemma_labelled_in_front(w2, ", protocol: "@, args.protocol.spec_name(), dump);
    text::lemma_labelled_in_front(w1, ", client_id: "@, quoted_option(text::opt_view(args.client_id)), dump);
    text::lemma_labelled_in_front(w0, ", port_arg: "@, port_text(args.port_arg), dump);
    assert(Seq::<char>::empty() + w0 =~= w0);
    text::lemma_held_in_front(Seq::empty(), w0, dump);
}

/// An argument that was given is shown inside `Some`, and one that was not as `None`; a password is
/// the same text whatever it is.
pub proof fn debug_tells_given_from_not_given(value: Seq<char>, port: u16)
    ensures
        text::holds(quoted_option(Some(value)), text::quoted_text(value)),
        quoted_option(None) == "None"@,
        text::holds(port_text(Some(port)), text::decimal_text(port as nat)),
        port_text(None) == "None"@,
        redacted_option(true) == "Some(\"<redacted>\")"@,
        redacted_option(false) == "None"@,
        bool_text(true) == "true"@,
        bool_text(false) == "false"@,
{
    let quoted = text::quoted_text(value);
    let number = text::decimal_text(port as nat);
    text::lemma_holds_appended("Some("@, quoted, quoted);
    text::lemma_holds_appended("Some("@ + quoted, quoted, ")"@);
    text::lemma_holds_appended("Some("@, number, number);
    text::lemma_holds_appended("Some("@ + number, number, ")"@);
}

/// A copy of the arguments is used exactly as they are: every field says the same.
pub proof fn a_copy_says_the_same(
    a: &ConnectionArgs,
    b: &ConnectionArgs,
    file: Option<Result<Seq<u8>, Seq<char>>>,
    environment: Option<Seq<u8>>,
)
    requires
        a.same_as(b),
    ensures
        a.broker@ == b.broker@,
        text::opt_view(a.client_id) == text::opt_view(b.client_id),
        a.protocol == b.protocol,
        text::opt_view(a.user) == text::opt_view(b.user),
        a.keepalive == b.keepalive,
        a.max_packet_size == b.max_packet_size,
        a.persistent_session == b.persistent_session,
        a.insecure == b.insecure,
        a.websocket == b.websocket,
        a.tls == b.tls,
        text::opt_view(a.cafile) == text::opt_view(b.cafile),
        text::opt_view(a.cert) == text::opt_view(b.cert),
        text::opt_view(a.key) == text::opt_view(b.key),
        a.password_file is Some <==> b.password_file is Some,
        a.spec_port() == b.spec_port(),
        a.chosen_will() == b.chosen_will(),
        a.chosen_password(file, environment) == b.chosen_password(file, environment),
        a.debug_view() == b.debug_view(),
{
}

/// A password on an unencrypted connection is warned of, whichever source it has, and nothing else
/// is.
pub proof fn only_a_password_in_the_clear_is_warned_of(args: &ConnectionArgs, in_environment: bool)
    ensures
        args.spec_plaintext_password_warning(in_environment) is Some <==> !args.tls && (
        args.password_file is Some || args.password is Some || in_environment),
        args.spec_plaintext_password_warning(in_environment) matches Some(warning) ==> warning
            == "wispmq-cli: warning: sending a password without --tls; it crosses the network in the clear"@,
{
}

/// A password file is warned of exactly when the group or everyone has a permission on it; the
/// warning names the file and its mode.
pub proof fn only_an_open_password_file_is_warned_of(path: Seq<char>, mode: u32)
    ensures
        others_warning(path, mode) is Some <==> mode & 0x3F != 0,
        others_warning(path, mode) matches Some(warning) ==> {
            &&& text::holds(warning, path)
            &&& text::holds(warning, text::octal_mode_text(mode as nat))
        },
{
    others_are_the_group_and_everyone(mode);
    let octal = text::octal_mode_text(mode as nat);
    let head = "wispmq-cli: warning: "@ + path + " is readable by others (mode "@ + octal;
    text::lemma_four_held("wispmq-cli: warning: "@, path, " is readable by others (mode "@, octal);
    text::lemma_holds_appended(head, path, "); consider chmod 600"@);
    text::lemma_holds_appended(head, octal, "); consider chmod 600"@);
}

/// A user property is split at its first `=` alone: any text can be the value, and the key ends
/// where the first `=` stands.
pub proof fn a_user_property_is_split_at_its_first_equals(
    s: Seq<char>,
    key: Seq<char>,
    value: Seq<char>,
)
    ensures
        !key.contains('=') ==> reads_as(key.push('=') + value, key, value),
        reads_as(s, key, value) ==> {
            &&& s.len() == key.len() + 1 + value.len()
            &&& s[key.len() as int] == '='
            &&& s.take(key.len() as int) == key
            &&& s.skip(key.len() as int + 1) == value
            &&& forall|i: int| 0 <= i < key.len() ==> #[trigger] s[i] != '='
        },
{
    assert(key.push('=') + value =~= key + seq!['='] + value);
    if reads_as(s, key, value) {
        assert(s.take(key.len() as int) =~= key);
        assert(s.skip(key.len() as int + 1) =~= value);
        assert forall|i: int| 0 <= i < key.len() implies #[trigger] s[i] != '=' by {
            assert(s[i] == key[i]);
            assert(key.contains(key[i]));
        }
    }
}

/// A version is spelled by its number, with a shorter or longer form of each.
pub proof fn versions_are_spelled_by_their_numbers(spelling: Seq<char>)
    ensures
        Protocol::V5.spelled(spelling) <==> spelling == "5"@ || spelling == "5.0"@,
        Protocol::V311.spelled(spelling) <==> spelling == "3.1.1"@ || spelling == "311"@,
        Protocol::V31.spelled(spelling) <==> spelling == "3.1"@ || spelling == "31"@,
{
}

} // verus!
