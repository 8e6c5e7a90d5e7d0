use wispmq_cli::cli::{
    parse_user_property, readable_by_others_warning, BenchArgs, ConnectionArgs, Protocol, PubArgs,
    RequestArgs, SubArgs, DEFAULT_MAX_MESSAGES, DEFAULT_MAX_PACKET_SIZE, PASSWORD_ENV_VAR,
    PROTOCOL_MAX_PACKET_SIZE,
};
use wispmq_cli::client::{Client, Negotiated};
use wispmq_cli::mqtt::types::{ProtocolVersion, QoS};
use wispmq_cli::publish::{plan, publish_packet, PayloadSource};

fn conn() -> ConnectionArgs {
    ConnectionArgs::default()
}

fn sub() -> SubArgs {
    let mut args = SubArgs::new();
    args.topic.push("x".to_string());
    args
}

#[test]
fn protocol_accepts_both_spellings() {
    for (input, want) in [
        ("5", ProtocolVersion::V5),
        ("5.0", ProtocolVersion::V5),
        ("3.1.1", ProtocolVersion::V3_1_1),
        ("311", ProtocolVersion::V3_1_1),
        ("3.1", ProtocolVersion::V3_1),
        ("31", ProtocolVersion::V3_1),
    ] {
        let mut args = PubArgs::new("x");
        args.conn.protocol = Protocol::from_spelling(input).expect("a known spelling");
        assert_eq!(args.conn.version(), want, "for --protocol {input}");
    }
    assert!(Protocol::from_spelling("4").is_none());
}

#[test]
fn publish_options_parse() {
    let mut args = PubArgs::new("sensors/temp");
    args.conn.broker = "broker.example".to_string();
    args.conn.port_arg = Some(8883);
    args.message = Some("21.5".to_string());
    args.qos = 2;
    args.retain = true;
    assert_eq!(args.conn.broker, "broker.example");
    assert_eq!(args.conn.port(), 8883);
    assert_eq!(args.topic, "sensors/temp");
    assert_eq!(args.message.as_deref(), Some("21.5"));
    assert_eq!(args.qos, 2);
    assert!(args.retain);
    assert!(args.conn.clean_start());

    let settled = plan(&args, None).expect("the options make a run");
    assert_eq!(settled.qos, QoS::ExactlyOnce);
    assert!(settled.properties.is_empty());
    let payload = match settled.source {
        PayloadSource::Once(payload) => payload,
        PayloadSource::Lines => panic!("expected one payload"),
    };
    let negotiated = Negotiated {
        version: args.conn.version(),
        receive_maximum: None,
        session_present: false,
    };
    let mut client = Client::new(negotiated, args.conn.keepalive, args.conn.max_packet_size);
    let publish = publish_packet(
        &mut client,
        &args.topic,
        payload,
        settled.qos,
        args.retain,
        settled.properties,
    );
    assert_eq!(publish.topic, "sensors/temp");
    assert_eq!(publish.payload, b"21.5");
    assert_eq!(publish.packet_id, Some(1));
    assert!(publish.retain && !publish.dup);
}

#[test]
fn bench_defaults_match_the_documented_ones() {
    let args = BenchArgs::new();
    assert_eq!(args.publishers, 1);
    assert_eq!(args.subscribers, 0);
    assert_eq!(args.topic_prefix, "bench");
    assert_eq!(args.qos, 0);
    assert_eq!(args.payload_size, 64);
    assert_eq!(args.inflight, 100);
    assert_eq!(args.drain, 2);
    assert!(!args.json);
}

#[test]
fn the_other_defaults_match_the_documented_ones() {
    let request = RequestArgs::new("ask", "answer");
    assert_eq!(request.topic, "ask");
    assert_eq!(request.reply_topic, "answer");
    assert_eq!(request.count, 1);
    assert_eq!(request.qos, 0);
    let args = conn();
    assert_eq!(args.broker, "localhost");
    assert_eq!(args.keepalive, 60);
    assert_eq!(args.max_packet_size, DEFAULT_MAX_PACKET_SIZE);
    assert_eq!(args.version(), ProtocolVersion::V5);
    assert!(args.clean_start());
    assert_eq!(PASSWORD_ENV_VAR, "WISPMQ_PASSWORD");
}

#[test]
fn sub_defaults_to_a_finite_message_ceiling_not_unbounded() {
    let args = sub();
    assert_eq!(args.max_messages, DEFAULT_MAX_MESSAGES);
    assert_eq!(args.effective_limit(), Some(DEFAULT_MAX_MESSAGES));
}

#[test]
fn max_messages_zero_means_genuinely_unbounded() {
    let mut args = sub();
    args.max_messages = 0;
    assert_eq!(args.effective_limit(), None);
}

#[test]
fn effective_limit_is_the_smaller_of_count_and_max_messages() {
    let mut args = sub();
    args.count = Some(5);
    args.max_messages = 10;
    assert_eq!(args.effective_limit(), Some(5));

    let mut args = sub();
    args.count = Some(50);
    args.max_messages = 10;
    assert_eq!(args.effective_limit(), Some(10));
}

#[test]
fn a_count_without_a_ceiling_is_the_limit() {
    let mut args = sub();
    args.count = Some(7);
    args.max_messages = 0;
    assert_eq!(args.effective_limit(), Some(7));
}

#[test]
fn a_count_of_zero_is_a_satisfied_limit() {
    let mut args = sub();
    args.count = Some(0);
    assert_eq!(args.effective_limit(), Some(0));
}

#[test]
fn the_packet_ceiling_defaults_to_one_mebibyte_not_the_protocol_maximum() {
    let conn = conn();
    assert_eq!(conn.max_packet_size().unwrap(), 1024 * 1024);
    assert!(conn.max_packet_size().unwrap() < PROTOCOL_MAX_PACKET_SIZE);
}

#[test]
fn the_packet_ceiling_can_be_raised_to_the_protocol_maximum() {
    let mut conn = conn();
    conn.max_packet_size = PROTOCOL_MAX_PACKET_SIZE;
    assert_eq!(conn.max_packet_size().unwrap(), PROTOCOL_MAX_PACKET_SIZE);
}

#[test]
fn a_zero_packet_ceiling_is_refused() {
    let mut conn = conn();
    conn.max_packet_size = 0;
    assert!(conn.max_packet_size().is_err());
    assert_eq!(
        conn.max_packet_size().unwrap_err(),
        "--max-packet-size must be at least 1"
    );
}

#[test]
fn a_packet_ceiling_above_the_protocol_maximum_is_refused() {
    let mut conn = conn();
    conn.max_packet_size = PROTOCOL_MAX_PACKET_SIZE + 1;
    assert!(conn.max_packet_size().is_err());
    assert_eq!(
        conn.max_packet_size().unwrap_err(),
        "--max-packet-size 268435456 exceeds the protocol maximum 268435455"
    );
}

#[test]
fn the_port_follows_the_transport_unless_given() {
    let mut conn = conn();
    assert_eq!(conn.port(), 1883);
    conn.tls = true;
    assert_eq!(conn.port(), 8883);
    conn.port_arg = Some(42);
    assert_eq!(conn.port(), 42);
}

#[test]
fn an_explicit_password_wins_over_the_environment() {
    let mut conn = conn();
    conn.password = Some("typed".to_string());
    let password = conn.password(None, Some(b"from-the-environment".to_vec()));
    assert_eq!(password.unwrap().unwrap().as_slice(), b"typed");
}

#[test]
fn the_environment_supplies_the_password_when_no_flag_does() {
    let conn = conn();
    let password = conn.password(None, Some(b"from-the-environment".to_vec()));
    assert_eq!(
        password.unwrap().unwrap().as_slice(),
        b"from-the-environment"
    );
}

#[test]
fn no_flag_and_no_environment_means_no_password() {
    let conn = conn();
    assert!(conn.password(None, None).unwrap().is_none());
}

#[test]
fn a_password_file_wins_over_the_environment() {
    let mut conn = conn();
    conn.password_file = Some("/run/secrets/mqtt".to_string());
    let password = conn.password(
        Some(Ok(b"from-the-file\n".to_vec())),
        Some(b"from-the-environment".to_vec()),
    );
    assert_eq!(password.unwrap().unwrap().as_slice(), b"from-the-file");
}

#[test]
fn only_line_ends_at_the_end_of_a_password_file_are_stripped() {
    let mut conn = conn();
    conn.password_file = Some("pw".to_string());
    let password = conn.password(Some(Ok(b"\na\r\nb\r\n\r\n".to_vec())), None);
    assert_eq!(password.unwrap().unwrap().as_slice(), b"\na\r\nb");
    let password = conn.password(Some(Ok(b"\r\n\n".to_vec())), None);
    assert_eq!(password.unwrap().unwrap().as_slice(), b"");
}

#[test]
fn an_unreadable_password_file_is_a_usage_error() {
    let mut conn = conn();
    conn.password_file = Some("pw".to_string());
    let error = conn
        .password(Some(Err("No such file".to_string())), None)
        .err()
        .unwrap();
    assert_eq!(
        error.message(),
        "cannot read the password file: No such file"
    );
}

#[test]
fn debug_formatting_never_shows_the_password() {
    let mut conn = conn();
    conn.password = Some("s3cret".to_string());
    let debug = conn.debug_text();
    assert!(
        !debug.contains("s3cret"),
        "password leaked into Debug output: {debug}"
    );
    assert!(debug.contains("<redacted>"), "debug output was: {debug}");
}

#[test]
fn the_debug_text_lists_every_field() {
    let mut conn = conn();
    conn.port_arg = Some(1884);
    conn.user = Some("a\"b".to_string());
    conn.password = Some("s3cret".to_string());
    assert_eq!(
        conn.debug_text(),
        "ConnectionArgs { broker: \"localhost\", port_arg: Some(1884), client_id: None, \
         protocol: V5, user: Some(\"a\\\"b\"), password: Some(\"<redacted>\"), \
         password_file: None, keepalive: 60, max_packet_size: 1048576, \
         persistent_session: false, tls: false, cafile: None, cert: None, key: None, \
         insecure: false, websocket: false, will_topic: None, will_payload: None, \
         will_qos: 0, will_retain: false }"
    );
}

#[test]
fn no_will_topic_means_no_will() {
    let conn = conn();
    assert!(conn.will().is_none());
}

#[test]
fn will_topic_alone_builds_a_will_with_default_qos_and_retain() {
    let mut conn = conn();
    conn.will_topic = Some("bye".to_string());
    let will = conn.will().expect("a Will was configured");
    assert_eq!(will.topic, "bye");
    assert!(will.payload.is_empty());
    assert_eq!(will.qos, QoS::AtMostOnce);
    assert!(!will.retain);
}

#[test]
fn the_will_flags_refine_the_will() {
    let mut conn = conn();
    conn.will_topic = Some("bye".to_string());
    conn.will_payload = Some("gone".to_string());
    conn.will_qos = 2;
    conn.will_retain = true;
    let will = conn.will().expect("a Will was configured");
    assert_eq!(will.payload, b"gone");
    assert_eq!(will.qos, QoS::ExactlyOnce);
    assert!(will.retain);
    assert!(will.properties.is_empty());
}

#[test]
fn user_property_requires_an_equals_sign() {
    assert!(parse_user_property("no-equals-sign").is_err());
    assert_eq!(
        parse_user_property("no-equals-sign").unwrap_err(),
        "expected KEY=VALUE, got \"no-equals-sign\""
    );
}

#[test]
fn a_user_property_splits_on_the_first_equals_sign() {
    assert_eq!(
        parse_user_property("room=kitchen=east").unwrap(),
        ("room".to_string(), "kitchen=east".to_string())
    );
    assert_eq!(
        parse_user_property("=").unwrap(),
        (String::new(), String::new())
    );
}

#[test]
fn a_password_without_tls_is_warned_about() {
    let mut conn = conn();
    assert!(conn.plaintext_password_warning(false).is_none());
    assert_eq!(
        conn.plaintext_password_warning(true),
        Some(
            "wispmq-cli: warning: sending a password without --tls; it crosses the network in \
             the clear"
        )
    );
    conn.password = Some("pw".to_string());
    assert!(conn.plaintext_password_warning(false).is_some());
    conn.tls = true;
    assert!(conn.plaintext_password_warning(true).is_none());
}

#[test]
fn a_password_file_open_to_others_is_warned_about() {
    assert_eq!(
        readable_by_others_warning("/tmp/pw", 0o100644).as_deref(),
        Some(
            "wispmq-cli: warning: /tmp/pw is readable by others (mode 0644); consider chmod 600"
        )
    );
    assert!(readable_by_others_warning("/tmp/pw", 0o100600).is_none());
    assert!(readable_by_others_warning("/tmp/pw", 0o104700).is_none());
    assert_eq!(
        readable_by_others_warning("pw", 0o104701).as_deref(),
        Some("wispmq-cli: warning: pw is readable by others (mode 4701); consider chmod 600")
    );
}
