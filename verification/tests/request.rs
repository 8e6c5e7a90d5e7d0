use wispmq_cli::cli::{Protocol, RequestArgs};
use wispmq_cli::client::{Client, Negotiated};
use wispmq_cli::mqtt::packet::{Disconnect, Packet, Properties, PubAck, Publish, Suback};
use wispmq_cli::mqtt::types::{ProtocolVersion, QoS, ReasonCode};
use wispmq_cli::request::{plan, request_packet, RequestRun, Stage};

fn session(version: ProtocolVersion) -> Client {
    let negotiated = Negotiated {
        version,
        receive_maximum: None,
        session_present: false,
    };
    Client::new(negotiated, 60, 1024)
}

fn reply() -> Packet {
    Packet::Publish(Publish {
        dup: false,
        qos: QoS::ExactlyOnce,
        retain: false,
        topic: "answer".to_string(),
        packet_id: Some(6),
        properties: Properties::new(),
        payload: b"42".to_vec(),
    })
}

fn suback(byte: u8) -> Packet {
    Packet::Suback(Suback {
        packet_id: 1,
        reason_codes: vec![ReasonCode::from_u8(byte).unwrap()],
    })
}

#[test]
fn request_needs_a_version_that_can_correlate() {
    let mut args = RequestArgs::new("ask", "answer");
    assert_eq!(plan(&args).unwrap(), QoS::AtMostOnce);
    args.conn.protocol = Protocol::V31;
    assert_eq!(
        plan(&args).err().unwrap().message(),
        "request requires MQTT v5.0 or v3.1.1: v3.1 has no Response Topic property and no way \
         to correlate a reply"
    );
    args.conn.protocol = Protocol::V311;
    args.qos = 4;
    assert_eq!(
        plan(&args).err().unwrap().message(),
        "malformed packet: invalid QoS 4"
    );
}

#[test]
fn the_request_names_its_reply_topic_on_v5_only() {
    let mut args = RequestArgs::new("ask", "answer");
    args.message = Some("?".to_string());
    let mut client = session(ProtocolVersion::V5);
    let request = request_packet(&mut client, &args, QoS::AtLeastOnce);
    assert_eq!(request.topic, "ask");
    assert_eq!(request.payload, b"?");
    assert_eq!(request.packet_id, Some(1));
    assert_eq!(request.properties.response_topic.as_deref(), Some("answer"));
    args.conn.protocol = Protocol::V311;
    let mut client = session(ProtocolVersion::V3_1_1);
    let request = request_packet(&mut client, &args, QoS::AtMostOnce);
    assert!(request.properties.is_empty());
    assert_eq!(request.packet_id, None);
}

#[test]
fn the_request_waits_for_the_subscription() {
    let filters = vec!["answer".to_string()];
    let mut run = RequestRun::start(2);
    let early = run.on_packet(&filters, &reply()).unwrap();
    assert!(!early.publish && !early.print && early.reply.is_none());
    let step = run.on_packet(&filters, &suback(0)).unwrap();
    assert!(step.publish && !step.finished);
    assert_eq!(run.stage, Stage::Waiting);
    let rec = run.on_packet(&filters, &Packet::Pubrec(PubAck::success(2))).unwrap();
    match rec.reply {
        Some(Packet::Pubrel(rel)) => assert_eq!(rel.packet_id, 2),
        _ => panic!("expected PUBREL"),
    }
    let first = run.on_packet(&filters, &reply()).unwrap();
    assert!(first.print && !first.finished && !first.publish);
    assert!(matches!(first.reply, Some(Packet::Pubrec(_))));
    let rel = run.on_packet(&filters, &Packet::Pubrel(PubAck::success(6))).unwrap();
    assert!(matches!(rel.reply, Some(Packet::Pubcomp(_))));
    assert!(run.on_packet(&filters, &reply()).unwrap().finished);
}

#[test]
fn a_run_without_replies_ends_with_the_request() {
    let filters = vec!["answer".to_string()];
    let mut run = RequestRun::start(0);
    let step = run.on_packet(&filters, &suback(1)).unwrap();
    assert!(step.publish && step.finished);
}

#[test]
fn a_refusal_ends_the_run() {
    let filters = vec!["answer".to_string()];
    let mut run = RequestRun::start(1);
    assert_eq!(
        run.on_packet(&filters, &suback(0x8F)).err().unwrap().message(),
        "subscription to answer rejected by broker: TopicFilterInvalid (0x8F)"
    );
    let mut run = RequestRun::start(1);
    run.on_packet(&filters, &suback(0)).unwrap();
    let bye = Packet::Disconnect(Disconnect {
        reason_code: ReasonCode::from_u8(0x89).unwrap(),
    });
    assert_eq!(
        run.on_packet(&filters, &bye).err().unwrap().message(),
        "request rejected by broker: ServerBusy (0x89)"
    );
}

#[test]
fn a_refused_request_ends_the_run() {
    let filters = vec!["answer".to_string()];
    let refused = PubAck {
        packet_id: 2,
        reason_code: ReasonCode::from_u8(0x87).unwrap(),
    };
    for packet in [
        Packet::Puback(refused),
        Packet::Pubrec(refused),
        Packet::Pubcomp(refused),
    ] {
        let mut run = RequestRun::start(1);
        run.on_packet(&filters, &suback(0)).unwrap();
        assert_eq!(
            run.on_packet(&filters, &packet).err().unwrap().message(),
            "request rejected by broker: NotAuthorized (0x87)"
        );
    }
    let mut run = RequestRun::start(1);
    run.on_packet(&filters, &suback(0)).unwrap();
    let accepted = PubAck::success(2);
    for packet in [Packet::Puback(accepted), Packet::Pubcomp(accepted)] {
        let step = run.on_packet(&filters, &packet).unwrap();
        assert!(step.reply.is_none() && !step.finished);
    }
}
