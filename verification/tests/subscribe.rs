use wispmq_cli::cli::SubArgs;
use wispmq_cli::client::{Client, Negotiated};
use wispmq_cli::mqtt::packet::{
    Disconnect, Packet, Properties, PubAck, Publish, RetainHandling, Suback,
};
use wispmq_cli::mqtt::types::{ProtocolVersion, QoS, ReasonCode};
use wispmq_cli::subscribe::{
    acknowledge, check_suback, format_properties, plan, print_message, subscribe_packet,
    write_payload, SubscribeRun,
};

fn rendered(bytes: &[u8], escape: bool) -> String {
    let mut out = Vec::new();
    write_payload(&mut out, bytes, escape);
    String::from_utf8(out).expect("the escaped form is ASCII-safe")
}

fn message(qos: QoS, packet_id: Option<u16>, payload: &[u8]) -> Publish {
    Publish {
        dup: false,
        qos,
        retain: false,
        topic: "t".to_string(),
        packet_id,
        properties: Properties::new(),
        payload: payload.to_vec(),
    }
}

fn suback(bytes: &[u8]) -> Packet {
    Packet::Suback(Suback {
        packet_id: 1,
        reason_codes: bytes
            .iter()
            .map(|b| ReasonCode::from_u8(*b).unwrap())
            .collect(),
    })
}

#[test]
fn a_pipe_receives_the_payload_byte_for_byte() {
    let hostile = b"\x1b[2J\x1b[Hgotcha";
    let mut out = Vec::new();
    write_payload(&mut out, hostile, false);
    assert_eq!(out, hostile, "redirected output must not be rewritten");
}

#[test]
fn a_terminal_never_receives_an_escape_character() {
    let rendered = rendered(b"\x1b[2Jcleared", true);
    assert!(
        !rendered.contains('\x1b'),
        "ESC reached the terminal: {rendered}"
    );
    assert_eq!(rendered, "\\x1b[2Jcleared");
}

#[test]
fn printable_text_survives_escaping_unchanged() {
    assert_eq!(rendered(b"temperature=21.5", true), "temperature=21.5");
}

#[test]
fn multibyte_utf8_passes_through_a_terminal_intact() {
    assert_eq!(
        rendered("caf\u{e9} \u{2615}".as_bytes(), true),
        "caf\u{e9} \u{2615}"
    );
}

#[test]
fn tab_survives_but_line_breaks_are_escaped() {
    assert_eq!(rendered(b"a\tb", true), "a\tb");
    assert_eq!(rendered(b"a\nb\rc", true), "a\\x0ab\\x0dc");
}

#[test]
fn a_payload_that_is_not_utf8_at_all_is_still_stripped_of_controls() {
    let mut out = Vec::new();
    write_payload(&mut out, &[0x00, 0xff, 0x1b, 0x7f], true);
    assert_eq!(out, b"\\x00\xff\\x1b\\x7f");
}

#[test]
fn no_properties_formats_to_nothing() {
    assert!(format_properties(&Properties::new()).is_none());
}

#[test]
fn every_supported_property_renders_as_key_equals_value() {
    let mut properties = Properties::new();
    properties.content_type = Some("application/json".into());
    properties.message_expiry_interval = Some(60);
    properties.payload_format_indicator = Some(1);
    properties.user_properties = vec![("room".into(), "kitchen".into())];

    let line = format_properties(&properties).expect("properties render");
    assert_eq!(
        String::from_utf8(line).unwrap(),
        "content-type=application/json message-expiry-interval=60 \
         payload-format-indicator=1 user:room=kitchen"
    );
}

#[test]
fn an_unrelated_property_alone_formats_to_nothing() {
    let mut properties = Properties::new();
    properties.response_topic = Some("replies/here".into());
    assert!(format_properties(&properties).is_none());
}

#[test]
fn a_message_prints_with_its_topic_on_request() {
    let mut p = message(QoS::AtMostOnce, None, b"a\x07b");
    p.topic = "bell\x07".to_string();
    p.properties.user_properties = vec![("k\n".into(), "v".into())];
    assert_eq!(print_message(&p, false, false), b"a\x07b\n");
    assert_eq!(print_message(&p, false, true), b"a\\x07b\n");
    assert_eq!(
        print_message(&p, true, true),
        b"user:k\\x0a=v\nbell\\x07 a\\x07b\n"
    );
    p.properties = Properties::new();
    assert_eq!(print_message(&p, true, false), b"bell\x07 a\x07b\n");
}

#[test]
fn a_run_needs_a_topic_and_a_known_quality() {
    let mut args = SubArgs::new();
    let err = plan(&args).err().unwrap();
    assert_eq!(err.message(), "sub needs at least one --topic");
    args.topic.push("#".to_string());
    args.count = Some(3);
    args.qos = 1;
    let settled = plan(&args).unwrap();
    assert_eq!(settled.qos, QoS::AtLeastOnce);
    assert_eq!(settled.limit, Some(3));
    args.qos = 9;
    assert_eq!(
        plan(&args).err().unwrap().message(),
        "malformed packet: invalid QoS 9"
    );
}

#[test]
fn one_subscribe_carries_every_filter() {
    let negotiated = Negotiated {
        version: ProtocolVersion::V5,
        receive_maximum: None,
        session_present: false,
    };
    let mut client = Client::new(negotiated, 60, 1024);
    let filters = vec!["a/#".to_string(), "b".to_string()];
    let packet = subscribe_packet(&mut client, &filters, QoS::ExactlyOnce);
    assert_eq!(packet.packet_id, 1);
    assert_eq!(packet.filters.len(), 2);
    assert_eq!(packet.filters[0].filter, "a/#");
    assert_eq!(packet.filters[1].filter, "b");
    assert_eq!(packet.filters[1].qos, QoS::ExactlyOnce);
    assert_eq!(
        packet.filters[1].retain_handling,
        RetainHandling::SendAtSubscribe
    );
    assert!(packet.properties.is_empty());
}

#[test]
fn a_refused_filter_is_named_in_the_error() {
    let filters = vec!["a".to_string(), "b".to_string(), "c".to_string()];
    assert!(check_suback(&filters, &suback(&[0, 1, 2])).unwrap());
    assert!(!check_suback(&filters, &Packet::Pingresp).unwrap());
    let err = check_suback(&filters, &suback(&[0, 0x87, 0x97])).err().unwrap();
    assert_eq!(
        err.message(),
        "subscription to b rejected by broker: NotAuthorized (0x87)"
    );
    // A code without a filter is not looked at.
    assert!(check_suback(&filters, &suback(&[0, 0, 0, 0x87])).unwrap());
    let bye = Packet::Disconnect(Disconnect {
        reason_code: ReasonCode::from_u8(0x8E).unwrap(),
    });
    assert_eq!(
        check_suback(&filters, &bye).err().unwrap().message(),
        "subscription rejected by broker: SessionTakenOver (0x8E)"
    );
}

#[test]
fn a_message_is_acknowledged_per_its_quality() {
    assert!(acknowledge(&message(QoS::AtMostOnce, None, b"")).is_none());
    assert!(acknowledge(&message(QoS::AtMostOnce, Some(4), b"")).is_none());
    assert!(acknowledge(&message(QoS::AtLeastOnce, None, b"")).is_none());
    match acknowledge(&message(QoS::AtLeastOnce, Some(4), b"")) {
        Some(Packet::Puback(a)) => assert_eq!(a, PubAck::success(4)),
        _ => panic!("expected PUBACK"),
    }
    match acknowledge(&message(QoS::ExactlyOnce, Some(5), b"")) {
        Some(Packet::Pubrec(a)) => assert_eq!(a, PubAck::success(5)),
        _ => panic!("expected PUBREC"),
    }
}

#[test]
fn a_run_ends_with_the_message_that_reaches_its_limit() {
    assert!(SubscribeRun::start(Some(0)).is_none());
    let mut run = SubscribeRun::start(Some(2)).expect("a run");
    let p = Packet::Publish(message(QoS::AtLeastOnce, Some(1), b"x"));
    let first = run.on_packet(&p).unwrap();
    assert!(first.print && !first.finished);
    assert!(matches!(first.reply, Some(Packet::Puback(_))));
    let rel = run.on_packet(&Packet::Pubrel(PubAck::success(8))).unwrap();
    assert!(!rel.print && !rel.finished);
    match rel.reply {
        Some(Packet::Pubcomp(c)) => assert_eq!(c.packet_id, 8),
        _ => panic!("expected PUBCOMP"),
    }
    let idle = run.on_packet(&Packet::Pingresp).unwrap();
    assert!(!idle.print && !idle.finished && idle.reply.is_none());
    assert!(run.on_packet(&p).unwrap().finished);
}

#[test]
fn a_disconnect_ends_a_run_with_its_reason() {
    let mut run = SubscribeRun::start(None).expect("a run");
    let bye = Packet::Disconnect(Disconnect {
        reason_code: ReasonCode::from_u8(0x98).unwrap(),
    });
    assert_eq!(
        run.on_packet(&bye).err().unwrap().message(),
        "subscription rejected by broker: AdministrativeAction (0x98)"
    );
}
