use wispmq_cli::cli::{Protocol, PubArgs};
use wispmq_cli::client::{Client, Negotiated};
use wispmq_cli::error::Error;
use wispmq_cli::mqtt::packet::{Disconnect, Packet, Properties, PubAck, Publish};
use wispmq_cli::mqtt::types::{ProtocolVersion, QoS, ReasonCode};
use wispmq_cli::publish::{
    check, expect_ack, payload_input, plan, publish_packet, resolve_payload, resolve_properties,
    PayloadInput, PayloadSource, PublishFlow,
};

fn session() -> Client {
    let negotiated = Negotiated {
        version: ProtocolVersion::V5,
        receive_maximum: None,
        session_present: false,
    };
    Client::new(negotiated, 60, 1024)
}

fn ack(byte: u8) -> PubAck {
    PubAck {
        packet_id: 1,
        reason_code: ReasonCode::from_u8(byte).unwrap(),
    }
}

#[test]
fn multiple_publishes_reuse_one_connection() {
    let mut client = session();
    let mut received = Vec::new();
    for payload in [b"one".to_vec(), b"two".to_vec(), b"three".to_vec()] {
        let publish = publish_packet(
            &mut client,
            "x",
            payload,
            QoS::AtLeastOnce,
            false,
            Properties::new(),
        );
        let flow = PublishFlow::start(publish.qos, publish.packet_id);
        let (flow, reply) = flow.on_packet(&Packet::Puback(ack(0))).expect("accepted");
        assert_eq!(flow, PublishFlow::Done);
        assert!(reply.is_none());
        received.push(publish);
    }
    assert_eq!(received.len(), 3);
    assert_eq!(received[0].payload, b"one");
    assert_eq!(received[1].payload, b"two");
    assert_eq!(received[2].payload, b"three");
    assert_eq!(received[0].packet_id, Some(1));
    assert_eq!(received[2].packet_id, Some(3));
}

#[test]
fn file_reads_the_payload_from_disk() {
    let mut args = PubArgs::new("x");
    args.file = Some("/tmp/payload".to_string());
    assert_eq!(payload_input(&args), PayloadInput::File);
    match resolve_payload(&args, Some(Ok(b"from a file".to_vec()))).unwrap() {
        PayloadSource::Once(payload) => assert_eq!(payload, b"from a file"),
        PayloadSource::Lines => panic!("expected a single payload"),
    }
}

#[test]
fn no_source_means_an_empty_payload() {
    let args = PubArgs::new("x");
    assert_eq!(payload_input(&args), PayloadInput::Nothing);
    match resolve_payload(&args, None).unwrap() {
        PayloadSource::Once(payload) => assert!(payload.is_empty()),
        PayloadSource::Lines => panic!("expected a single payload"),
    }
}

#[test]
fn the_message_is_the_payload_and_a_dash_is_standard_input() {
    let mut args = PubArgs::new("x");
    args.message = Some("caf\u{e9}".to_string());
    match resolve_payload(&args, None).unwrap() {
        PayloadSource::Once(payload) => assert_eq!(payload, "caf\u{e9}".as_bytes()),
        PayloadSource::Lines => panic!("expected a single payload"),
    }
    let mut args = PubArgs::new("x");
    args.file = Some("-".to_string());
    assert_eq!(payload_input(&args), PayloadInput::Stdin);
    let err = resolve_payload(&args, Some(Err("closed".to_string())))
        .err()
        .unwrap();
    assert_eq!(err.message(), "reading stdin: closed");
    args.file = Some("/no/such".to_string());
    let err = resolve_payload(&args, Some(Err("not found".to_string())))
        .err()
        .unwrap();
    assert_eq!(err.message(), "/no/such: not found");
    let mut args = PubArgs::new("x");
    args.stdin_lines = true;
    assert!(matches!(
        resolve_payload(&args, None),
        Ok(PayloadSource::Lines)
    ));
}

#[test]
fn v5_properties_populate_from_the_flags() {
    let mut args = PubArgs::new("x");
    args.user_properties = vec![("room".to_string(), "kitchen".to_string())];
    args.message_expiry_interval = Some(60);
    args.content_type = Some("application/json".to_string());
    args.payload_format_indicator = true;
    let properties = resolve_properties(&args).expect("v5 properties resolve");
    assert_eq!(
        properties.user_properties,
        vec![("room".to_string(), "kitchen".to_string())]
    );
    assert_eq!(properties.message_expiry_interval, Some(60));
    assert_eq!(properties.content_type.as_deref(), Some("application/json"));
    assert_eq!(properties.payload_format_indicator, Some(1));
}

#[test]
fn a_v5_only_flag_on_v3_is_a_usage_error() {
    let mut args = PubArgs::new("x");
    args.conn.protocol = Protocol::V311;
    args.content_type = Some("text/plain".to_string());
    let err = resolve_properties(&args).err().expect("v5-only flag on v3.1.1");
    assert!(matches!(err, Error::Usage(_)));
    assert_eq!(
        err.message(),
        "--user-property/--message-expiry-interval/--content-type/--payload-format-indicator \
         need v5 properties (--protocol 5)"
    );
    assert!(plan(&args, None).is_err());
}

#[test]
fn v3_without_any_v5_only_flag_is_fine() {
    let mut args = PubArgs::new("x");
    args.conn.protocol = Protocol::V311;
    let properties = resolve_properties(&args).expect("no v5-only flags used");
    assert!(properties.is_empty());
}

#[test]
fn a_run_is_settled_before_anything_is_dialled() {
    let mut args = PubArgs::new("x");
    args.qos = 2;
    args.message = Some("hi".to_string());
    let settled = plan(&args, None).expect("a plan");
    assert_eq!(settled.qos, QoS::ExactlyOnce);
    args.qos = 3;
    let err = plan(&args, None).err().unwrap();
    assert_eq!(err.message(), "malformed packet: invalid QoS 3");
}

#[test]
fn qos_0_carries_no_identifier_and_owes_nothing() {
    let mut client = session();
    let publish = publish_packet(
        &mut client,
        "t",
        vec![1],
        QoS::AtMostOnce,
        true,
        Properties::new(),
    );
    assert_eq!(publish.packet_id, None);
    assert!(publish.retain);
    assert_eq!(
        PublishFlow::start(publish.qos, publish.packet_id),
        PublishFlow::Done
    );
    assert_eq!(client.next_packet_id(), 1);
}

#[test]
fn qos_2_releases_the_message_between_two_acknowledgements() {
    let flow = PublishFlow::start(QoS::ExactlyOnce, Some(9));
    let (flow, reply) = flow.on_packet(&Packet::Pingresp).unwrap();
    assert_eq!(flow, PublishFlow::AwaitPubrec(9));
    assert!(reply.is_none());
    let (flow, reply) = flow.on_packet(&Packet::Pubrec(ack(0x10))).unwrap();
    assert_eq!(flow, PublishFlow::AwaitPubcomp);
    match reply {
        Some(Packet::Pubrel(rel)) => assert_eq!(rel.packet_id, 9),
        _ => panic!("expected PUBREL"),
    }
    let (flow, reply) = flow.on_packet(&Packet::Pubcomp(ack(0))).unwrap();
    assert_eq!(flow, PublishFlow::Done);
    assert!(reply.is_none());
}

#[test]
fn what_comes_before_the_acknowledgement_is_ignored() {
    let message = Packet::Publish(Publish {
        dup: false,
        qos: QoS::AtMostOnce,
        retain: false,
        topic: "t".to_string(),
        packet_id: None,
        properties: Properties::new(),
        payload: Vec::new(),
    });
    assert_eq!(expect_ack(&message, "publish").unwrap(), None);
    assert_eq!(expect_ack(&Packet::Pingresp, "publish").unwrap(), None);
    assert_eq!(
        expect_ack(&Packet::Puback(PubAck::success(1)), "publish").unwrap(),
        Some(ReasonCode::success())
    );
    assert_eq!(expect_ack(&Packet::Pubrel(ack(0)), "publish").unwrap(), None);
    assert_eq!(expect_ack(&Packet::Auth, "publish").unwrap(), None);

    let flow = PublishFlow::start(QoS::AtLeastOnce, Some(1));
    let (flow, reply) = flow.on_packet(&message).unwrap();
    assert_eq!(flow, PublishFlow::AwaitPuback);
    assert!(reply.is_none());
    let (flow, _) = flow.on_packet(&Packet::Puback(ack(0))).unwrap();
    assert_eq!(flow, PublishFlow::Done);
}

#[test]
fn a_refused_message_is_an_error() {
    let flow = PublishFlow::AwaitPuback;
    let err = flow.on_packet(&Packet::Puback(ack(0x97))).err().unwrap();
    assert_eq!(
        err.message(),
        "publish rejected by broker: QuotaExceeded (0x97)"
    );
    let bye = Disconnect {
        reason_code: ReasonCode::from_u8(0x8B).unwrap(),
    };
    let err = expect_ack(&Packet::Disconnect(bye), "publish").err().unwrap();
    assert_eq!(
        err.message(),
        "publish rejected by broker: ServerShuttingDown (0x8B)"
    );
    assert!(check(ReasonCode::from_u8(0x10).unwrap(), "publish").is_ok());
}
