use wispmq_cli::cli::{ConnectionArgs, Protocol, DEFAULT_MAX_PACKET_SIZE};
use wispmq_cli::client::{
    generated_client_id, handshake_reply, handshake_request, prepare, Awaited, Client, Negotiated,
    PacketIds, Waited,
};
use wispmq_cli::clock::Duration;
use wispmq_cli::error::Error;
use wispmq_cli::mqtt::packet::{Connack, Packet, Properties, ReadOutcome};
use wispmq_cli::mqtt::types::{ProtocolVersion, ReasonCode};

fn connack(byte: u8, receive_maximum: Option<u16>) -> ReadOutcome {
    let mut properties = Properties::new();
    properties.receive_maximum = receive_maximum;
    ReadOutcome::Packet(Packet::Connack(Connack {
        session_present: false,
        reason_code: ReasonCode::from_u8(byte).unwrap(),
        properties,
    }))
}

fn session() -> Client {
    let negotiated = Negotiated {
        version: ProtocolVersion::V5,
        receive_maximum: None,
        session_present: false,
    };
    Client::new(negotiated, 60, 1024)
}

#[test]
fn connect_advertises_the_maximum_packet_size() {
    let args = ConnectionArgs::default();
    let connect = handshake_request(&args, "advertiser", None, None).expect("a CONNECT");
    assert_eq!(
        connect.properties.maximum_packet_size,
        Some(DEFAULT_MAX_PACKET_SIZE),
        "CONNECT must carry the ceiling the client enforces"
    );
}

#[test]
fn handshake_returns_the_brokers_receive_maximum() {
    let args = ConnectionArgs::default();
    let connect = handshake_request(&args, "probe", None, None).expect("a CONNECT");
    assert_eq!(connect.protocol_name, "MQTT");
    assert_eq!(connect.client_id, "probe");

    let negotiated =
        handshake_reply(args.version(), &connack(0, Some(20))).expect("handshake succeeds");
    assert_eq!(negotiated.receive_maximum, Some(20));
    assert_eq!(negotiated.version, ProtocolVersion::V5);
    assert!(!negotiated.session_present);
}

#[test]
fn handshake_reports_a_refused_connection() {
    let err = handshake_reply(ProtocolVersion::V5, &connack(0x87, None))
        .expect_err("a refused connection is an error");
    match err {
        Error::Rejected { what, code } => {
            assert_eq!(what, "connection");
            assert_eq!(code.as_u8(), 0x87);
        }
        _ => panic!("expected a rejection"),
    }
}

#[test]
fn the_handshake_accepts_nothing_but_connack() {
    let err = handshake_reply(ProtocolVersion::V5, &ReadOutcome::Packet(Packet::Pingresp))
        .expect_err("not a CONNACK");
    assert_eq!(
        err.message(),
        "protocol error: expected CONNACK, got PINGRESP"
    );
    let err = handshake_reply(ProtocolVersion::V5, &ReadOutcome::Eof).expect_err("closed");
    assert_eq!(
        err.message(),
        "broker closed the connection during the handshake"
    );
}

#[test]
fn connect_carries_the_arguments() {
    let mut args = ConnectionArgs::default();
    args.protocol = Protocol::V31;
    args.persistent_session = true;
    args.keepalive = 7;
    args.user = Some("me".to_string());
    args.password = Some("pw".to_string());
    args.will_topic = Some("bye".to_string());
    let connect = handshake_request(&args, "id", None, Some(b"env".to_vec())).unwrap();
    assert_eq!(connect.protocol_name, "MQIsdp");
    assert_eq!(connect.protocol_version, 3);
    assert!(!connect.clean_start);
    assert_eq!(connect.keep_alive, 7);
    assert_eq!(connect.username.as_deref(), Some("me"));
    assert_eq!(connect.password.unwrap().as_slice(), b"pw");
    assert_eq!(connect.will.unwrap().topic, "bye");
}

#[test]
fn connect_validates_the_password_file_before_dialling() {
    let mut args = ConnectionArgs::default();
    args.password_file =
        Some("/nonexistent/pulsemq-cli-password-file-that-does-not-exist".to_string());
    let err = prepare(&args, "generated", Some(Err("not there".to_string())), None)
        .err()
        .expect("an unreadable password file is a usage error");
    assert!(matches!(err, Error::Usage(_)));
}

#[test]
fn a_resumed_session_needs_an_identifier() {
    let mut args = ConnectionArgs::default();
    args.persistent_session = true;
    args.client_id = Some(String::new());
    let err = prepare(&args, "generated", None, None).err().unwrap();
    assert_eq!(
        err.message(),
        "--persistent-session needs a non-empty --client-id: a broker-assigned identifier \
         cannot be resumed"
    );
    args.persistent_session = false;
    assert_eq!(prepare(&args, "generated", None, None).unwrap().client_id, "");
    args.client_id = None;
    let dial = prepare(&args, "generated", None, None).unwrap();
    assert_eq!(dial.client_id, "generated");
    assert_eq!(dial.max_packet_size, DEFAULT_MAX_PACKET_SIZE);
    args.max_packet_size = 0;
    assert!(prepare(&args, "generated", None, None).is_err());
    assert!(handshake_request(&args, "id", None, None).is_err());
}

#[test]
fn the_generated_identifier_is_recognisable() {
    assert_eq!(generated_client_id(4711, 0xbeef), "pulsemq-cli-4711-beef");
    assert_eq!(generated_client_id(0, 0), "pulsemq-cli-0-0");
}

#[test]
fn packet_identifiers_skip_zero() {
    let mut ids = PacketIds::new();
    assert_eq!(ids.next_id(), 1);
    for want in 2..=65_535u16 {
        assert_eq!(ids.next_id(), want);
    }
    assert_eq!(ids.next_id(), 1);
    let mut client = session();
    assert_eq!(client.next_packet_id(), 1);
    assert_eq!(client.next_packet_id(), 2);
}

#[test]
fn the_keep_alive_pings_at_half_the_interval() {
    assert_eq!(
        session().ping_interval(),
        Some(Duration::from_secs(30))
    );
    let negotiated = Negotiated {
        version: ProtocolVersion::V3_1_1,
        receive_maximum: None,
        session_present: true,
    };
    let odd = Client::new(negotiated, 5, 1024);
    assert_eq!(odd.ping_interval(), Some(Duration::from_millis(2500)));
    assert_eq!(odd.version(), ProtocolVersion::V3_1_1);
    assert_eq!(odd.max_packet_size(), 1024);
    assert!(Client::new(negotiated, 0, 1024).ping_interval().is_none());
}

#[test]
fn waiting_pings_and_a_close_is_an_error() {
    assert!(matches!(
        Client::recv_keepalive(Waited::Elapsed),
        Ok(Awaited::Ping)
    ));
    let read = Waited::Read(ReadOutcome::Packet(Packet::Pingresp));
    assert!(matches!(
        Client::recv_keepalive(read),
        Ok(Awaited::Packet(Packet::Pingresp))
    ));
    let err = Client::recv_keepalive(Waited::Read(ReadOutcome::Eof))
        .err()
        .unwrap();
    assert_eq!(
        err.message(),
        "broker closed the connection while waiting for a reply"
    );
    match Client::disconnect() {
        Packet::Disconnect(d) => assert_eq!(d.reason_code.as_u8(), 0),
        _ => panic!("expected DISCONNECT"),
    }
}
