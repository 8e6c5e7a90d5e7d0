//! Connection handling shared by every command: the CONNECT handshake, the keep-alive, and
//! packet identifiers.

use crate::cli;
use crate::cli::ConnectionArgs;
use crate::clock::Duration;
use crate::error::{Error, ErrorView};
use crate::mqtt::error::{protocol, MqttErrorView};
use crate::mqtt::packet::{Connect, ConnectView, Disconnect, Packet, Properties, PropertiesView, ReadOutcome};
use crate::mqtt::types::{ProtocolVersion, QoS, ReasonCode};
use crate::text;
use vstd::prelude::*;

verus! {

/// What the broker granted in CONNACK, for the caller to respect afterwards.
#[derive(Clone, Copy, Debug, PartialEq, Eq, Structural)]
pub struct Negotiated {
    pub version: ProtocolVersion,
    /// How many messages the broker will accept without acknowledging. Absent in v3.x, which has
    /// no properties.
    pub receive_maximum: Option<u16>,
    pub session_present: bool,
}

/// The identifier that follows `last`: they run from 1 to 65535 and start over, 0 is reserved.
pub open spec fn id_after(last: u16) -> u16 {
    if last == u16::MAX {
        1
    } else {
        (last + 1) as u16
    }
}

/// The identifier of allocation number `n`, counted from 1.
pub open spec fn nth_id(n: nat) -> u16
    decreases n,
{
    if n == 0 {
        0
    } else {
        id_after(nth_id((n - 1) as nat))
    }
}

/// Allocates packet identifiers.
pub struct PacketIds {
    last: u16,
}

impl View for PacketIds {
    type V = u16;

    /// The identifier given out last, 0 when none was.
    closed spec fn view(&self) -> u16 {
        self.last
    }
}

impl PacketIds {
    /// None given out yet.
    pub fn new() -> (ids: PacketIds)
        ensures
            ids@ == 0,
    {
        PacketIds { last: 0 }
    }

    /// Give out the next identifier.
    pub fn next_id(&mut self) -> (id: u16)
        ensures
            id == id_after(old(self)@),
            final(self)@ == id,
            id != 0,
    {
        self.last = if self.last == u16::MAX {
            1
        } else {
            self.last + 1
        };
        self.last
    }
}

/// Identifiers count from 1 to 65535 and start over.
pub proof fn packet_ids_count_in_a_circle(n: nat)
    requires
        n > 0,
    ensures
        nth_id(n) == (n - 1) % 65535 + 1,
    decreases n,
{
    if n > 1 {
        packet_ids_count_in_a_circle((n - 1) as nat);
    } else {
        assert(nth_id(0) == 0);
    }
}

/// Identifiers are never 0, and any 65535 allocations in a row are all different.
pub proof fn packet_ids_stay_apart(n: nat, m: nat)
    requires
        0 < n < m,
        m - n < 65535,
    ensures
        nth_id(n) != 0,
        nth_id(n) != nth_id(m),
{
    packet_ids_count_in_a_circle(n);
    packet_ids_count_in_a_circle(m);
}

/// The client identifier that is used when none is given: recognisable in broker logs, and unique
/// enough for a short-lived run.
pub open spec fn generated_id_text(pid: u32, nanos: u32) -> Seq<char> {
    "pulsemq-cli-"@ + text::decimal_text(pid as nat) + "-"@ + text::lower_hex_text(nanos as nat)
}

/// A client identifier made from the process identifier and the nanoseconds of the clock.
pub fn generated_client_id(pid: u32, nanos: u32) -> (id: String)
    ensures
        id@ == generated_id_text(pid, nanos),
{
    let mut id = String::from_str("pulsemq-cli-");
    id.append(text::decimal(pid as u64).as_str());
    id.append("-");
    id.append(text::lower_hex(nanos as u64).as_str());
    id
}

/// The client identifier: the one given, else the generated one.
pub open spec fn chosen_client_id(args: &ConnectionArgs, generated: Seq<char>) -> Seq<char> {
    match args.client_id {
        Some(id) => id@,
        None => generated,
    }
}

/// What keeps a connection from being dialled, if anything: the first fault counts.
pub open spec fn connect_fault(
    args: &ConnectionArgs,
    generated: Seq<char>,
    file: Option<Result<Seq<u8>, Seq<char>>>,
) -> Option<ErrorView> {
    if args.persistent_session && chosen_client_id(args, generated).len() == 0 {
        Some(
            ErrorView::Usage(
                "--persistent-session needs a non-empty --client-id: a broker-assigned identifier cannot be resumed"@,
            ),
        )
    } else {
        handshake_fault(args, file)
    }
}

/// What keeps CONNECT from being sent, if anything: the first fault counts.
pub open spec fn handshake_fault(
    args: &ConnectionArgs,
    file: Option<Result<Seq<u8>, Seq<char>>>,
) -> Option<ErrorView> {
    match args.packet_size_fault() {
        Some(fault) => Some(ErrorView::Usage(fault)),
        None => match file {
            Some(Err(e)) => Some(ErrorView::Usage("cannot read the password file: "@ + e)),
            _ => None,
        },
    }
}

/// What a connection is dialled with.
pub struct Dial {
    pub client_id: String,
    /// The ceiling to enforce on an inbound packet.
    pub max_packet_size: u32,
}

/// Whether these arguments are dialled with this.
pub open spec fn dials_with(args: &ConnectionArgs, generated: Seq<char>, dial: Dial) -> bool {
    &&& dial.client_id@ == chosen_client_id(args, generated)
    &&& dial.max_packet_size == args.max_packet_size
}

/// Validate the arguments before dialling, so that bad ones fail at once instead of after paying
/// for a connection. `generated` is the identifier to use when none was given; `file` and
/// `environment` are as for `ConnectionArgs::password`.
pub fn prepare(
    args: &ConnectionArgs,
    generated: &str,
    file: Option<Result<Vec<u8>, String>>,
    environment: Option<Vec<u8>>,
) -> (res: Result<Dial, Error>)
    requires
        file.is_some() == args.password_file.is_some(),
    ensures
        match res {
            Ok(dial) => {
                &&& connect_fault(args, generated@, cli::read_view(file)) is None
                &&& dials_with(args, generated@, dial)
            },
            Err(e) => connect_fault(args, generated@, cli::read_view(file)) == Some(e@),
        },
{
    let client_id = match &args.client_id {
        Some(id) => id.clone(),
        None => String::from_str(generated),
    };
    if !args.clean_start() && client_id.as_str().is_empty() {
        return Err(
            Error::usage(
                "--persistent-session needs a non-empty --client-id: a broker-assigned identifier cannot be resumed",
            ),
        );
    }
    let max_packet_size: u32 = match args.max_packet_size() {
        Ok(n) => n,
        Err(e) => {
            return Err(Error::Usage(e));
        },
    };
    match args.password(file, environment) {
        Ok(_) => Ok(Dial { client_id, max_packet_size }),
        Err(e) => Err(e),
    }
}

/// The CONNECT these arguments call for.
pub open spec fn connect_view(
    args: &ConnectionArgs,
    client_id: Seq<char>,
    file: Option<Result<Seq<u8>, Seq<char>>>,
    environment: Option<Seq<u8>>,
) -> ConnectView {
    ConnectView {
        protocol_name: args.protocol.spec_version().spec_name(),
        protocol_version: args.protocol.spec_version().spec_level(),
        clean_start: !args.persistent_session,
        keep_alive: args.keepalive,
        properties: PropertiesView {
            maximum_packet_size: Some(args.max_packet_size),
            ..PropertiesView::empty()
        },
        client_id,
        will: args.chosen_will(),
        username: text::opt_view(args.user),
        password: args.chosen_password(file, environment)->Ok_0,
    }
}

/// The CONNECT that opens the handshake. It tells the broker the packet ceiling enforced here, so
/// that a compliant one never offers a larger packet. `file` and `environment` are as for
/// `ConnectionArgs::password`.
pub fn handshake_request(
    args: &ConnectionArgs,
    client_id: &str,
    file: Option<Result<Vec<u8>, String>>,
    environment: Option<Vec<u8>>,
) -> (res: Result<Connect, Error>)
    requires
        file.is_some() == args.password_file.is_some(),
        args.will_topic.is_some() ==> args.will_qos <= 2,
    ensures
        match res {
            Ok(connect) => {
                &&& handshake_fault(args, cli::read_view(file)) is None
                &&& connect@ == connect_view(
                    args,
                    client_id@,
                    cli::read_view(file),
                    cli::bytes_view(environment),
                )
            },
            Err(e) => handshake_fault(args, cli::read_view(file)) == Some(e@),
        },
{
    let version = args.version();
    let max_packet_size: u32 = match args.max_packet_size() {
        Ok(n) => n,
        Err(e) => {
            return Err(Error::Usage(e));
        },
    };
    let password = match args.password(file, environment) {
        Ok(password) => password,
        Err(e) => {
            return Err(e);
        },
    };
    let mut properties = Properties::new();
    properties.maximum_packet_size = Some(max_packet_size);
    Ok(
        Connect {
            protocol_name: String::from_str(version.name()),
            protocol_version: version.level(),
            clean_start: args.clean_start(),
            keep_alive: args.keepalive,
            properties,
            client_id: String::from_str(client_id),
            will: args.will(),
            username: text::clone_opt(&args.user),
            password,
        },
    )
}

/// What the broker's answer to CONNECT means. Only a CONNACK with success opens the session.
pub open spec fn handshake_result(version: ProtocolVersion, reply: ReadOutcome) -> Result<
    Negotiated,
    ErrorView,
> {
    match reply {
        ReadOutcome::Packet(Packet::Connack(ack)) => if ack.reason_code
            == ReasonCode::spec_success() {
            Ok(
                Negotiated {
                    version,
                    receive_maximum: ack.properties.receive_maximum,
                    session_present: ack.session_present,
                },
            )
        } else {
            Err(ErrorView::Rejected { what: "connection"@, code: ack.reason_code })
        },
        ReadOutcome::Packet(other) => Err(
            ErrorView::Mqtt(MqttErrorView::Protocol("expected CONNACK, got "@ + other.spec_name())),
        ),
        ReadOutcome::Eof => Err(ErrorView::Disconnected("during the handshake"@)),
    }
}

/// What the broker's answer to CONNECT means.
pub fn handshake_reply(version: ProtocolVersion, reply: &ReadOutcome) -> (res: Result<
    Negotiated,
    Error,
>)
    ensures
        match (res, handshake_result(version, *reply)) {
            (Ok(granted), Ok(expected)) => granted == expected,
            (Err(e), Err(fault)) => e@ == fault,
            _ => false,
        },
{
    match reply {
        ReadOutcome::Packet(Packet::Connack(ack)) => if ack.reason_code == ReasonCode::success() {
            Ok(
                Negotiated {
                    version,
                    receive_maximum: ack.properties.receive_maximum,
                    session_present: ack.session_present,
                },
            )
        } else {
            Err(Error::rejected("connection", ack.reason_code))
        },
        ReadOutcome::Packet(other) => {
            let mut message = String::from_str("expected CONNACK, got ");
            message.append(other.name());
            Err(Error::Mqtt(protocol(message)))
        },
        ReadOutcome::Eof => Err(Error::Disconnected(String::from_str("during the handshake"))),
    }
}

/// What happened while waiting for a packet with a keep-alive running.
pub enum Waited {
    /// The connection was read.
    Read(ReadOutcome),
    /// The ping interval passed first.
    Elapsed,
}

/// What to do next while waiting for a packet.
pub enum Awaited {
    /// The packet that was waited for.
    Packet(Packet),
    /// Send PINGREQ and wait again.
    Ping,
}

/// The client's side of an open session.
pub struct Client {
    version: ProtocolVersion,
    keep_alive: u16,
    ids: PacketIds,
    max_packet_size: u32,
}

impl Client {
    /// The negotiated version.
    pub closed spec fn spec_version(&self) -> ProtocolVersion {
        self.version
    }

    /// The keep-alive interval in seconds, 0 when there is none.
    pub closed spec fn spec_keep_alive(&self) -> u16 {
        self.keep_alive
    }

    /// The packet identifier given out last, 0 when none was.
    pub closed spec fn last_id(&self) -> u16 {
        self.ids@
    }

    /// The ceiling on an inbound packet.
    pub closed spec fn spec_max_packet_size(&self) -> u32 {
        self.max_packet_size
    }

    /// Whether this is a session that has just been opened.
    pub open spec fn opens(
        &self,
        negotiated: Negotiated,
        keep_alive: u16,
        max_packet_size: u32,
    ) -> bool {
        &&& self.spec_version() == negotiated.version
        &&& self.spec_keep_alive() == keep_alive
        &&& self.last_id() == 0
        &&& self.spec_max_packet_size() == max_packet_size
    }

    /// A session that has just been opened.
    pub fn new(negotiated: Negotiated, keep_alive: u16, max_packet_size: u32) -> (client: Client)
        ensures
            client.opens(negotiated, keep_alive, max_packet_size),
    {
        Client {
            version: negotiated.version,
            keep_alive,
            ids: PacketIds::new(),
            max_packet_size,
        }
    }

    /// The negotiated version.
    pub fn version(&self) -> (version: ProtocolVersion)
        ensures
            version == self.spec_version(),
    {
        self.version
    }

    /// The ceiling on an inbound packet: the one the handshake advertised.
    pub fn max_packet_size(&self) -> (n: u32)
        ensures
            n == self.spec_max_packet_size(),
    {
        self.max_packet_size
    }

    /// What reading the connection gives to someone waiting for a packet.
    pub open spec fn received(outcome: ReadOutcome) -> Result<Packet, ErrorView> {
        match outcome {
            ReadOutcome::Packet(packet) => Ok(packet),
            ReadOutcome::Eof => Err(ErrorView::Disconnected("while waiting for a reply"@)),
        }
    }

    /// How long to wait for a packet before pinging, with this keep-alive interval in seconds.
    pub open spec fn ping_time(keep_alive: u16) -> Option<Duration> {
        if keep_alive == 0 {
            None
        } else {
            Some(Duration { nanos: (keep_alive * 500_000_000) as u128 })
        }
    }

    /// What happens next to someone waiting for a packet with the keep-alive running.
    pub open spec fn awaited(waited: Waited) -> Result<Awaited, ErrorView> {
        match waited {
            Waited::Read(outcome) => match Self::received(outcome) {
                Ok(packet) => Ok(Awaited::Packet(packet)),
                Err(fault) => Err(fault),
            },
            Waited::Elapsed => Ok(Awaited::Ping),
        }
    }

    /// A packet was waited for; a clean close is an error, because the caller is waiting for
    /// something specific.
    pub fn recv(outcome: ReadOutcome) -> (res: Result<Packet, Error>)
        ensures
            match (res, Self::received(outcome)) {
                (Ok(packet), Ok(expected)) => packet == expected,
                (Err(e), Err(fault)) => e@ == fault,
                _ => false,
            },
    {
        match outcome {
            ReadOutcome::Packet(packet) => Ok(packet),
            ReadOutcome::Eof => Err(
                Error::Disconnected(String::from_str("while waiting for a reply")),
            ),
        }
    }

    /// How long to wait for a packet before pinging: half the negotiated interval, so a single
    /// lost PINGREQ does not cost the session. `None` without a keep-alive.
    pub fn ping_interval(&self) -> (every: Option<Duration>)
        ensures
            every == Self::ping_time(self.spec_keep_alive()),
            match every {
                Some(d) => self.spec_keep_alive() > 0 && 2 * d.nanos == self.spec_keep_alive()
                    * 1_000_000_000,
                None => self.spec_keep_alive() == 0,
            },
    {
        if self.keep_alive == 0 {
            None
        } else {
            Some(Duration { nanos: self.keep_alive as u128 * 500_000_000 })
        }
    }

    /// A packet was waited for with the keep-alive running: ping when the interval passed first.
    pub fn recv_keepalive(waited: Waited) -> (res: Result<Awaited, Error>)
        ensures
            match (res, Self::awaited(waited)) {
                (Ok(next), Ok(expected)) => next == expected,
                (Err(e), Err(fault)) => e@ == fault,
                _ => false,
            },
    {
        match waited {
            Waited::Read(outcome) => match Self::recv(outcome) {
                Ok(packet) => Ok(Awaited::Packet(packet)),
                Err(e) => Err(e),
            },
            Waited::Elapsed => Ok(Awaited::Ping),
        }
    }

    /// The next packet identifier: 1 to 65535, never 0.
    pub fn next_packet_id(&mut self) -> (id: u16)
        ensures
            id == id_after(old(self).last_id()),
            id != 0,
            final(self).last_id() == id,
            final(self).spec_version() == old(self).spec_version(),
            final(self).spec_keep_alive() == old(self).spec_keep_alive(),
            final(self).spec_max_packet_size() == old(self).spec_max_packet_size(),
    {
        self.ids.next_id()
    }

    /// The packet that ends the session.
    pub fn disconnect() -> (packet: Packet)
        ensures
            packet == Packet::Disconnect(Disconnect { reason_code: ReasonCode::spec_success() }),
    {
        Packet::Disconnect(Disconnect { reason_code: ReasonCode::success() })
    }
}

/// The broker is told the ceiling that is enforced, whatever else the arguments say, and that
/// ceiling is one the protocol knows.
pub proof fn connect_advertises_the_packet_ceiling(
    args: &ConnectionArgs,
    client_id: Seq<char>,
    file: Option<Result<Seq<u8>, Seq<char>>>,
    environment: Option<Seq<u8>>,
)
    requires
        handshake_fault(args, file) is None,
    ensures
        connect_view(args, client_id, file, environment).properties.maximum_packet_size == Some(
            args.max_packet_size,
        ),
        1 <= args.max_packet_size <= cli::PROTOCOL_MAX_PACKET_SIZE,
{
}

/// CONNECT says what was asked for: the session starts clean exactly when resuming one was not
/// asked for, and the keep-alive, the identifier and the user name are those of the arguments.
/// The properties hold the packet ceiling and nothing else.
pub proof fn connect_says_what_was_asked_for(
    args: &ConnectionArgs,
    client_id: Seq<char>,
    file: Option<Result<Seq<u8>, Seq<char>>>,
    environment: Option<Seq<u8>>,
)
    requires
        handshake_fault(args, file) is None,
    ensures
        ({
            let connect = connect_view(args, client_id, file, environment);
            &&& connect.clean_start <==> !args.persistent_session
            &&& connect.keep_alive == args.keepalive
            &&& connect.client_id == client_id
            &&& connect.username is Some <==> args.user is Some
            &&& args.user matches Some(user) ==> connect.username == Some(user@)
            &&& connect.properties.maximum_packet_size == Some(args.max_packet_size)
            &&& connect.properties.payload_format_indicator is None
            &&& connect.properties.message_expiry_interval is None
            &&& connect.properties.content_type is None
            &&& connect.properties.response_topic is None
            &&& connect.properties.receive_maximum is None
            &&& connect.properties.user_properties.len() == 0
        }),
{
}

/// CONNECT speaks the chosen version: level 5 for v5.0, 4 for v3.1.1 and 3 for v3.1, which alone
/// goes by the name `MQIsdp`.
pub proof fn connect_speaks_the_chosen_version(
    args: &ConnectionArgs,
    client_id: Seq<char>,
    file: Option<Result<Seq<u8>, Seq<char>>>,
    environment: Option<Seq<u8>>,
)
    ensures
        ({
            let connect = connect_view(args, client_id, file, environment);
            &&& args.protocol == cli::Protocol::V5 ==> connect.protocol_version == 5
            &&& args.protocol == cli::Protocol::V311 ==> connect.protocol_version == 4
            &&& args.protocol == cli::Protocol::V31 ==> connect.protocol_version == 3
            &&& args.protocol == cli::Protocol::V31 ==> connect.protocol_name == "MQIsdp"@
            &&& args.protocol != cli::Protocol::V31 ==> connect.protocol_name == "MQTT"@
        }),
{
}

/// CONNECT carries a password exactly when a source gives one, and it is that source's: the file's
/// without the line ends behind it, else the argument's, else the environment's.
pub proof fn connect_carries_the_password(
    args: &ConnectionArgs,
    client_id: Seq<char>,
    file: Option<Result<Seq<u8>, Seq<char>>>,
    environment: Option<Seq<u8>>,
)
    requires
        handshake_fault(args, file) is None,
    ensures
        ({
            let connect = connect_view(args, client_id, file, environment);
            &&& connect.password is None <==> file is None && args.password is None && environment
                is None
            &&& file matches Some(Ok(bytes)) ==> connect.password == Some(
                cli::without_line_ends(bytes),
            )
            &&& file is None ==> (args.password matches Some(password) ==> connect.password == Some(
                vstd::utf8::encode_utf8(password@),
            ))
            &&& file is None && args.password is None ==> connect.password == environment
        }),
{
}

/// CONNECT carries a will exactly when a will topic was given, and it is the one that was asked
/// for.
pub proof fn connect_carries_the_will(
    args: &ConnectionArgs,
    client_id: Seq<char>,
    file: Option<Result<Seq<u8>, Seq<char>>>,
    environment: Option<Seq<u8>>,
)
    requires
        args.will_qos <= 2,
    ensures
        connect_view(args, client_id, file, environment).will is Some <==> args.will_topic is Some,
        connect_view(args, client_id, file, environment).will matches Some(will) ==> {
            &&& will.topic == args.will_topic->0@
            &&& will.retain <==> args.will_retain
            &&& QoS::of(args.will_qos) == Some(will.qos)
            &&& will.payload == text::opt_bytes(args.will_payload)
        },
{
    cli::the_will_is_what_was_asked_for(*args);
}

/// A connection is dialled unless there is a reason not to: a session to resume without an
/// identifier, an impossible packet ceiling, or a password file that cannot be read. The first of
/// these that holds is the one reported.
pub proof fn only_bad_arguments_keep_from_dialling(
    args: &ConnectionArgs,
    generated: Seq<char>,
    file: Option<Result<Seq<u8>, Seq<char>>>,
)
    ensures
        ({
            let nameless = args.persistent_session && match args.client_id {
                Some(id) => id@.len() == 0,
                None => generated.len() == 0,
            };
            let oversized = args.max_packet_size == 0 || args.max_packet_size > 268_435_455;
            let unreadable = file matches Some(Err(_));
            let fault = connect_fault(args, generated, file);
            &&& fault is None <==> !nameless && !oversized && !unreadable
            &&& fault matches Some(e) ==> e is Usage
            &&& nameless ==> fault == Some(
                ErrorView::Usage(
                    "--persistent-session needs a non-empty --client-id: a broker-assigned identifier cannot be resumed"@,
                ),
            )
            &&& !nameless && oversized ==> fault == Some(
                ErrorView::Usage(args.packet_size_fault()->0),
            )
            &&& !nameless && !oversized && unreadable ==> fault == Some(
                ErrorView::Usage("cannot read the password file: "@ + file->0->Err_0),
            )
            &&& handshake_fault(args, file) is None <==> !oversized && !unreadable
        }),
{
    cli::only_impossible_ceilings_are_refused(*args);
}

/// An identifier that was given is used, and the generated one only without it.
pub proof fn a_given_identifier_is_used(args: &ConnectionArgs, generated: Seq<char>)
    ensures
        args.client_id matches Some(id) ==> chosen_client_id(args, generated) == id@,
        args.client_id is None ==> chosen_client_id(args, generated) == generated,
{
}

/// A session opens on a CONNACK with the byte 0 and on nothing else, with what the broker granted;
/// a CONNACK with another byte is a refusal with that reason code.
pub proof fn only_a_good_connack_opens_the_session(version: ProtocolVersion, reply: ReadOutcome)
    ensures
        handshake_result(version, reply) is Ok <==> (reply matches ReadOutcome::Packet(
            Packet::Connack(ack),
        ) && ack.reason_code.byte == 0),
        reply matches ReadOutcome::Packet(Packet::Connack(ack)) ==> match handshake_result(
            version,
            reply,
        ) {
            Ok(granted) => {
                &&& granted.version == version
                &&& granted.receive_maximum == ack.properties.receive_maximum
                &&& granted.session_present == ack.session_present
            },
            Err(e) => e == (ErrorView::Rejected { what: "connection"@, code: ack.reason_code }),
        },
        reply is Eof ==> handshake_result(version, reply)->Err_0 is Disconnected,
        reply matches ReadOutcome::Packet(p) ==> !(p is Connack) ==> handshake_result(
            version,
            reply,
        )->Err_0 is Mqtt,
{
}

/// Whoever waits gets the packet that arrived, whatever it is, and an error exactly when the
/// connection ended; with a keep-alive a ping is due exactly when the time passed first.
pub proof fn what_arrives_is_handed_on(outcome: ReadOutcome)
    ensures
        outcome matches ReadOutcome::Packet(p) ==> Client::received(outcome) == Ok::<
            Packet,
            ErrorView,
        >(p),
        outcome is Eof ==> Client::received(outcome) matches Err(ErrorView::Disconnected(_)),
        outcome matches ReadOutcome::Packet(p) ==> Client::awaited(Waited::Read(outcome)) == Ok::<
            Awaited,
            ErrorView,
        >(Awaited::Packet(p)),
        outcome is Eof ==> Client::awaited(Waited::Read(outcome)) matches Err(
            ErrorView::Disconnected(_),
        ),
        Client::awaited(Waited::Elapsed) == Ok::<Awaited, ErrorView>(Awaited::Ping),
{
}

/// A ping is due twice in every keep-alive interval, and never without one.
pub proof fn two_pings_fit_the_keep_alive(keep_alive: u16)
    ensures
        Client::ping_time(keep_alive) is None <==> keep_alive == 0,
        Client::ping_time(keep_alive) matches Some(every) ==> 2 * every.nanos == keep_alive
            * 1_000_000_000,
{
}

proof fn lemma_first_dash(a: Seq<char>, b: Seq<char>, rest_a: Seq<char>, rest_b: Seq<char>)
    requires
        a + seq!['-'] + rest_a == b + seq!['-'] + rest_b,
        forall|i: int| 0 <= i < a.len() ==> #[trigger] a[i] != '-',
        forall|i: int| 0 <= i < b.len() ==> #[trigger] b[i] != '-',
    ensures
        a == b,
        rest_a == rest_b,
{
    let x = a + seq!['-'] + rest_a;
    let y = b + seq!['-'] + rest_b;
    assert(x[a.len() as int] == '-');
    assert(y[b.len() as int] == '-');
    if a.len() < b.len() {
        assert(y[a.len() as int] == b[a.len() as int]);
    }
    if b.len() < a.len() {
        assert(x[b.len() as int] == a[b.len() as int]);
    }
    assert(a =~= x.take(a.len() as int));
    assert(b =~= y.take(a.len() as int));
    assert(rest_a =~= x.skip(a.len() as int + 1));
    assert(rest_b =~= y.skip(a.len() as int + 1));
}

/// A generated identifier says which program it is, and its process and its moment can be read off:
/// two processes, or one process at two moments, have different ones.
pub proof fn generated_identifiers_are_told_apart(
    pid: u32,
    nanos: u32,
    other_pid: u32,
    other_nanos: u32,
)
    ensures
        "pulsemq-cli-"@.is_prefix_of(generated_id_text(pid, nanos)),
        generated_id_text(pid, nanos) == generated_id_text(other_pid, other_nanos) ==> pid
            == other_pid && nanos == other_nanos,
{
    reveal_strlit("-");
    let name = "pulsemq-cli-"@;
    let at = name.len() as int;
    let first = generated_id_text(pid, nanos);
    let second = generated_id_text(other_pid, other_nanos);
    let a = text::decimal_text(pid as nat);
    let b = text::decimal_text(other_pid as nat);
    let x = text::lower_hex_text(nanos as nat);
    let y = text::lower_hex_text(other_nanos as nat);
    assert(name =~= first.take(at));
    assert("-"@ =~= seq!['-']);
    assert(first.skip(at) =~= a + seq!['-'] + x);
    assert(second.skip(at) =~= b + seq!['-'] + y);
    text::decimal_reads_back(pid as nat);
    text::decimal_reads_back(other_pid as nat);
    text::lower_hex_reads_back(nanos as nat);
    text::lower_hex_reads_back(other_nanos as nat);
    if first == second {
        lemma_first_dash(a, b, x, y);
    }
}

/// A connection is dialled under the identifier that was given, or else the generated one, and with
/// the packet ceiling that was asked for.
pub proof fn the_dial_keeps_identifier_and_ceiling(
    args: &ConnectionArgs,
    generated: Seq<char>,
    dial: Dial,
)
    requires
        dials_with(args, generated, dial),
    ensures
        args.client_id matches Some(id) ==> dial.client_id@ == id@,
        args.client_id is None ==> dial.client_id@ == generated,
        dial.max_packet_size == args.max_packet_size,
{
}

/// A new session speaks the negotiated version, keeps the keep-alive and the ceiling it was opened
/// with, and gives out 1 as its first packet identifier.
pub proof fn a_session_starts_with_the_first_identifier(
    client: &Client,
    negotiated: Negotiated,
    keep_alive: u16,
    max_packet_size: u32,
)
    requires
        client.opens(negotiated, keep_alive, max_packet_size),
    ensures
        client.spec_version() == negotiated.version,
        client.spec_keep_alive() == keep_alive,
        client.spec_max_packet_size() == max_packet_size,
        id_after(client.last_id()) == 1,
{
}

} // verus!
