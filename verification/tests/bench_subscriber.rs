use wispmq_cli::bench::payload::{build, Header};
use wispmq_cli::bench::stats::Counters;
use wispmq_cli::bench::subscriber::{check_suback, subscribe_packet, Next, Subscriber};
use wispmq_cli::bench::Config;
use wispmq_cli::cli::BenchArgs;
use wispmq_cli::clock::{Duration, Instant};
use wispmq_cli::mqtt::packet::{
    Disconnect, Packet, Properties, PubAck, Publish, ReadOutcome, Suback,
};
use wispmq_cli::mqtt::types::{QoS, ReasonCode};

const ZERO: Instant = Instant { nanos: 0 };

fn delivery(payload: Vec<u8>) -> ReadOutcome {
    ReadOutcome::Packet(Packet::Publish(Publish {
        dup: false,
        qos: QoS::AtMostOnce,
        retain: false,
        topic: "bench/0".into(),
        packet_id: None,
        properties: Properties::new(),
        payload,
    }))
}

fn suback(bytes: &[u8]) -> ReadOutcome {
    ReadOutcome::Packet(Packet::Suback(Suback {
        packet_id: 1,
        reason_codes: bytes
            .iter()
            .map(|b| ReasonCode::from_u8(*b).unwrap())
            .collect(),
    }))
}

#[test]
fn a_subscriber_takes_every_publishers_topic() {
    let mut args = BenchArgs::new();
    args.subscribers = 1;
    args.qos = 1;
    let config = Config::from_args(&args).unwrap();
    let packet = subscribe_packet(&config);
    assert_eq!(packet.packet_id, 1);
    assert_eq!(packet.filters.len(), 1);
    assert_eq!(packet.filters[0].filter, "bench/#");
    assert_eq!(packet.filters[0].qos, QoS::AtLeastOnce);
}

#[test]
fn a_subscriber_waits_for_its_suback() {
    assert!(check_suback(2, &suback(&[0])).unwrap());
    assert!(!check_suback(2, &delivery(vec![1])).unwrap());
    assert_eq!(
        check_suback(2, &suback(&[0, 0x87])).err().unwrap().message(),
        "subscription for subscriber 2 rejected by broker: NotAuthorized (0x87)"
    );
    assert_eq!(
        check_suback(2, &ReadOutcome::Eof).err().unwrap().message(),
        "broker closed the connection while subscribing"
    );
}

#[test]
fn times_each_delivery_from_its_header() {
    let mut counters = Counters::default();
    let mut subscriber = Subscriber::new(0);
    for seq in 0..3u32 {
        let sent_at = 1_000_000 * u64::from(seq);
        let body = build(
            64,
            Header {
                elapsed_ns: sent_at,
                publisher: 0,
                seq,
            },
        );
        // Each message was aged 50 ms before delivery.
        let received_at = Instant {
            nanos: u128::from(sent_at) + 50_000_000,
        };
        let next = subscriber.on_read(&mut counters, &delivery(body), received_at, ZERO);
        assert!(matches!(next, Ok(Next::Continue(None))));
    }
    assert_eq!(counters.snapshot().received, 3);
    let mut samples = subscriber.into_samples();
    assert_eq!(samples.len(), 3);
    let summary = samples.summary().expect("three samples");
    assert_eq!(summary.min_ns, 50_000_000);
    assert_eq!(summary.max_ns, 50_000_000);
}

#[test]
fn counts_messages_even_when_the_payload_carries_no_header() {
    let mut counters = Counters::default();
    let mut subscriber = Subscriber::new(0);
    let read = subscriber.on_read(&mut counters, &delivery(vec![1u8, 2, 3, 4]), ZERO, ZERO);
    assert!(read.is_ok());
    assert_eq!(counters.snapshot().received, 1);
    assert_eq!(counters.snapshot().bytes_received, 4);
    assert_eq!(
        subscriber.into_samples().len(),
        0,
        "a headerless message is counted, not timed"
    );
}

#[test]
fn a_header_with_an_unrepresentable_elapsed_time_does_not_panic() {
    let mut counters = Counters::default();
    let mut subscriber = Subscriber::new(0);
    let body = build(
        64,
        Header {
            elapsed_ns: u64::MAX,
            publisher: 0,
            seq: 0,
        },
    );
    let now = Instant::after(Duration::from_secs(1));
    assert!(subscriber
        .on_read(&mut counters, &delivery(body), now, ZERO)
        .is_ok());
    assert_eq!(counters.snapshot().received, 1);
    assert_eq!(
        subscriber.into_samples().len(),
        0,
        "an implausible header is counted, not timed"
    );
}

#[test]
fn deliveries_sent_during_the_warm_up_are_not_timed() {
    let mut counters = Counters::default();
    let mut subscriber = Subscriber::new(0);
    let warmup_until = Instant { nanos: 100 };
    for elapsed_ns in [99, 100] {
        let body = build(
            16,
            Header {
                elapsed_ns,
                publisher: 0,
                seq: 0,
            },
        );
        let now = Instant { nanos: 150 };
        assert!(subscriber
            .on_read(&mut counters, &delivery(body), now, warmup_until)
            .is_ok());
    }
    assert_eq!(counters.snapshot().received, 2);
    let mut samples = subscriber.into_samples();
    assert_eq!(samples.len(), 1);
    assert_eq!(samples.summary().unwrap().min_ns, 50);
}

#[test]
fn a_subscriber_answers_and_ends_as_the_protocol_asks() {
    let mut counters = Counters::default();
    let mut subscriber = Subscriber::new(7);
    let mut read = |outcome: &ReadOutcome| subscriber.on_read(&mut counters, outcome, ZERO, ZERO);
    let rel = ReadOutcome::Packet(Packet::Pubrel(PubAck::success(3)));
    match read(&rel) {
        Ok(Next::Continue(Some(Packet::Pubcomp(comp)))) => assert_eq!(comp.packet_id, 3),
        _ => panic!("expected PUBCOMP"),
    }
    let exactly_once = ReadOutcome::Packet(Packet::Publish(Publish {
        dup: false,
        qos: QoS::ExactlyOnce,
        retain: false,
        topic: "bench/0".into(),
        packet_id: Some(8),
        properties: Properties::new(),
        payload: Vec::new(),
    }));
    match read(&exactly_once) {
        Ok(Next::Continue(Some(Packet::Pubrec(rec)))) => assert_eq!(rec.packet_id, 8),
        _ => panic!("expected PUBREC"),
    }
    assert!(matches!(read(&ReadOutcome::Eof), Ok(Next::WaitForStop)));
    let bye = ReadOutcome::Packet(Packet::Disconnect(Disconnect {
        reason_code: ReasonCode::from_u8(0x8D).unwrap(),
    }));
    assert_eq!(
        read(&bye).err().unwrap().message(),
        "subscriber 7 rejected by broker: KeepAliveTimeout (0x8D)"
    );
}
