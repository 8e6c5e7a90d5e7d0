use wispmq_cli::bench::payload::{decode, Header};
use wispmq_cli::bench::publisher::{
    connection_client_id, join_limit, AckEnd, Begin, Publisher, Turn,
};
use wispmq_cli::bench::schedule::Schedule;
use wispmq_cli::bench::stats::Counters;
use wispmq_cli::bench::{Config, Rate};
use wispmq_cli::cli::BenchArgs;
use wispmq_cli::clock::{Duration, Instant};
use wispmq_cli::error::Error;
use wispmq_cli::mqtt::packet::{Packet, PubAck, Publish};
use wispmq_cli::mqtt::types::ReasonCode;

const ZERO: Instant = Instant { nanos: 0 };

fn at(nanos: u128) -> Instant {
    Instant { nanos }
}

fn config(count: u64, qos: u8) -> Config {
    let mut args = BenchArgs::new();
    args.count = Some(count);
    args.qos = qos;
    Config::from_args(&args).expect("config resolves")
}

fn send(publisher: &mut Publisher, config: &Config, counters: &mut Counters, now: Instant) -> Publish {
    match publisher.begin(config, now) {
        Begin::Send(publish) => {
            publisher.written(counters, publish.payload.len() as u64);
            publish
        }
        _ => panic!("expected room for a message"),
    }
}

fn ack(id: u16, byte: u8) -> PubAck {
    PubAck {
        packet_id: id,
        reason_code: ReasonCode::from_u8(byte).unwrap(),
    }
}

#[test]
fn publishes_its_quota_and_records_one_ack_sample_each() {
    let config = config(10, 1);
    let mut counters = Counters::default();
    let mut publisher = Publisher::new(&config, 0, None);
    let mut now = 0u128;
    while publisher.wants_to_send(false) {
        let publish = send(&mut publisher, &config, &mut counters, at(now));
        let id = publish.packet_id.expect("QoS 1 PUBLISH carries a packet id");
        now += 7;
        publisher.on_packet(&mut counters, &Packet::Puback(ack(id, 0)), at(now), ZERO);
    }
    assert!(publisher.is_drained());
    publisher.close();
    let mut samples = publisher
        .outcome(AckEnd::Finished(None))
        .expect("publisher completes");
    let totals = counters.snapshot();
    assert_eq!(totals.published, 10);
    assert_eq!(totals.acknowledged, 10);
    assert_eq!(totals.bytes_sent, 640);
    assert_eq!(samples.len(), 10);
    assert_eq!(samples.summary().unwrap().mean_ns, 7);
}

#[test]
fn qos_2_records_one_sample_per_message_on_pubcomp() {
    let config = config(10, 2);
    let mut counters = Counters::default();
    let mut publisher = Publisher::new(&config, 0, None);
    let mut pubrels = 0u64;
    while publisher.wants_to_send(false) {
        let publish = send(&mut publisher, &config, &mut counters, at(5));
        let id = publish.packet_id.expect("QoS 2 PUBLISH carries a packet id");
        publisher.on_packet(&mut counters, &Packet::Pubrec(ack(id, 0)), at(6), ZERO);
        assert!(!publisher.is_drained());
        for packet in publisher.drain_pubrels() {
            pubrels += 1;
            match packet {
                Packet::Pubrel(rel) => assert_eq!(rel.packet_id, id),
                _ => panic!("expected PUBREL"),
            }
        }
        publisher.on_packet(&mut counters, &Packet::Pubcomp(ack(id, 0)), at(9), ZERO);
    }
    let totals = counters.snapshot();
    assert_eq!(totals.published, 10);
    assert_eq!(totals.acknowledged, 10);
    let samples = publisher.outcome(AckEnd::Finished(None)).unwrap();
    assert_eq!(samples.len(), 10, "one sample per message, not per PUBREC");
    assert_eq!(pubrels, 10, "every PUBREC must be answered with a PUBREL");
}

#[test]
fn the_stop_signal_ends_a_timed_run_early() {
    let mut args = BenchArgs::new();
    args.duration = Some(600);
    let config = Config::from_args(&args).expect("config resolves");
    let mut counters = Counters::default();
    let mut publisher = Publisher::new(&config, 0, None);
    for n in 0..3 {
        assert!(publisher.wants_to_send(false));
        let publish = send(&mut publisher, &config, &mut counters, at(n));
        assert_eq!(publish.packet_id, None);
    }
    assert!(!publisher.wants_to_send(true));
    assert!(counters.snapshot().published > 0);
    // QoS 0 by default: no acknowledgements, so no ack samples.
    let samples = publisher.outcome(AckEnd::Finished(None)).unwrap();
    assert_eq!(samples.len(), 0);
}

#[test]
fn warmup_discards_early_samples() {
    let config = config(5, 1);
    let mut counters = Counters::default();
    let mut publisher = Publisher::new(&config, 0, None);
    // A warmup cutoff in the far future discards everything.
    let warmup_until = Instant::after(Duration::from_secs(3600));
    while publisher.wants_to_send(false) {
        let publish = send(&mut publisher, &config, &mut counters, at(1));
        let id = publish.packet_id.unwrap();
        publisher.on_packet(&mut counters, &Packet::Puback(ack(id, 0)), at(2), warmup_until);
    }
    assert_eq!(counters.snapshot().published, 5);
    assert_eq!(counters.snapshot().acknowledged, 5);
    let samples = publisher.outcome(AckEnd::Finished(None)).unwrap();
    assert_eq!(samples.len(), 0, "warmup samples are discarded");
}

#[test]
fn the_inflight_window_bounds_outstanding_sends() {
    let mut args = BenchArgs::new();
    args.count = Some(1000);
    args.qos = 1;
    args.inflight = 5;
    let config = Config::from_args(&args).expect("config resolves");
    let mut counters = Counters::default();
    let mut publisher = Publisher::new(&config, 0, None);
    for _ in 0..5 {
        send(&mut publisher, &config, &mut counters, ZERO);
    }
    assert!(matches!(publisher.begin(&config, ZERO), Begin::Full));
    assert_eq!(
        counters.snapshot().published,
        5,
        "the publisher must stop at the in-flight window"
    );
    // The broker disappears while the window is full.
    publisher.close();
    assert!(matches!(publisher.begin(&config, ZERO), Begin::Closed));
    assert_eq!(publisher.drain_limit(), None);
    assert_eq!(counters.snapshot().published, 5);
    let error = publisher
        .outcome(AckEnd::Finished(None))
        .err()
        .expect("a closed window must error, not hang");
    assert_eq!(
        error.message(),
        "publisher 0: the broker closed the connection after 5 message(s), before acknowledging \
         the rest"
    );
}

#[test]
fn an_acknowledgement_makes_room_for_one_message() {
    let mut args = BenchArgs::new();
    args.count = Some(1000);
    args.qos = 1;
    let config = Config::from_args(&args).expect("config resolves");
    let mut counters = Counters::default();
    let mut publisher = Publisher::new(&config, 3, Some(1));
    send(&mut publisher, &config, &mut counters, ZERO);
    assert!(matches!(publisher.begin(&config, ZERO), Begin::Full));
    // An acknowledgement for no outstanding message frees nothing.
    publisher.on_packet(&mut counters, &Packet::Puback(ack(9, 0)), at(1), ZERO);
    assert!(matches!(publisher.begin(&config, ZERO), Begin::Full));
    publisher.on_packet(&mut counters, &Packet::Puback(ack(1, 0)), at(1), ZERO);
    publisher.on_packet(&mut counters, &Packet::Puback(ack(1, 0)), at(1), ZERO);
    assert_eq!(counters.snapshot().acknowledged, 1);
    let publish = send(&mut publisher, &config, &mut counters, at(77));
    assert_eq!(publish.packet_id, Some(2));
    assert_eq!(publish.topic, "bench/3");
    assert_eq!(
        decode(&publish.payload),
        Some(Header {
            elapsed_ns: 77,
            publisher: 3,
            seq: 1
        })
    );
    assert!(matches!(publisher.begin(&config, ZERO), Begin::Full));
}

#[test]
fn a_refused_message_is_tallied_and_not_timed() {
    let config = config(2, 2);
    let mut counters = Counters::default();
    let mut publisher = Publisher::new(&config, 0, None);
    send(&mut publisher, &config, &mut counters, ZERO);
    publisher.on_packet(&mut counters, &Packet::Pubrec(ack(1, 0x97)), at(1), ZERO);
    assert!(publisher.is_drained());
    assert!(publisher.drain_pubrels().is_empty());
    let totals = counters.snapshot();
    assert_eq!(totals.acknowledged, 0);
    assert_eq!(totals.refused.get(&0x97), Some(&1));
    assert_eq!(publisher.outcome(AckEnd::Finished(None)).unwrap().len(), 0);
}

#[test]
fn a_failed_write_is_counted_and_frees_its_slot() {
    let config = config(2, 1);
    let mut counters = Counters::default();
    let mut publisher = Publisher::new(&config, 0, Some(1));
    match publisher.begin(&config, ZERO) {
        Begin::Send(publish) => publisher.write_failed(&mut counters, publish.packet_id),
        _ => panic!("expected room"),
    }
    assert!(publisher.is_drained());
    assert_eq!(counters.snapshot().publish_errors, 1);
    assert_eq!(counters.snapshot().published, 0);
    assert_eq!(publisher.sent(), 0);
    assert!(matches!(publisher.begin(&config, ZERO), Begin::Send(_)));
}

#[test]
fn the_cause_of_a_failure_outranks_its_symptom() {
    let config = config(2, 1);
    let failed = |end: AckEnd| {
        let mut publisher = Publisher::new(&config, 4, None);
        publisher.close();
        assert!(matches!(publisher.begin(&config, ZERO), Begin::Closed));
        publisher.outcome(end).err().expect("a failure").message()
    };
    assert_eq!(
        failed(AckEnd::Finished(Some(Error::Usage("bad frame".into())))),
        "publisher 4: the broker's reply stream failed: bad frame"
    );
    assert_eq!(
        failed(AckEnd::Panicked("oops".into())),
        "publisher 4 ack task failed: oops"
    );
    assert_eq!(
        failed(AckEnd::TimedOut),
        "publisher 4: acknowledgement task did not finish within the drain window; the broker \
         likely never closed its half of the socket after DISCONNECT (3.14.4)"
    );
}

#[test]
fn connections_are_told_apart_by_role_and_number() {
    assert_eq!(
        connection_client_id(&Some("load".to_string()), "gen", "pub", 3),
        "load-pub-3"
    );
    assert_eq!(connection_client_id(&None, "gen", "sub", 0), "gen-sub-0");
}

#[test]
fn waiting_for_the_end_is_bounded() {
    let mut args = BenchArgs::new();
    let short = Config::from_args(&args).unwrap();
    assert_eq!(join_limit(&short), Duration::from_secs(5));
    args.drain = 9;
    let long = Config::from_args(&args).unwrap();
    assert_eq!(join_limit(&long), Duration::from_secs(9));
    let publisher = Publisher::new(&short, 0, None);
    assert_eq!(publisher.drain_limit(), Some(Duration::from_secs(5)));
}

#[test]
fn the_write_side_takes_its_turns_in_order() {
    let config = config(2, 2);
    let mut counters = Counters::default();
    let mut publisher = Publisher::new(&config, 0, Some(1));
    let paced = Schedule::new(
        ZERO,
        Some(Rate {
            bits: 2.0f64.to_bits(),
            period: Some(Duration::from_millis(500)),
        }),
    );
    assert!(paced.reaches(publisher.sent()));
    match publisher.next_turn(&config, &paced, false, false, ZERO) {
        Turn::Sleep(at) => assert_eq!(at, ZERO),
        _ => panic!("expected to wait for the schedule"),
    }
    match publisher.next_turn(&config, &paced, false, true, at(3)) {
        Turn::Send(publish) => assert_eq!(publish.packet_id, Some(1)),
        _ => panic!("expected a message"),
    }
    publisher.written(&mut counters, 64);
    let free = Schedule::new(ZERO, None);
    assert!(matches!(
        publisher.next_turn(&config, &free, false, false, at(4)),
        Turn::Full
    ));
    assert!(matches!(
        publisher.next_turn(&config, &free, true, false, at(4)),
        Turn::Finished
    ));
    // What is owed goes out even though the window is full and the run was told to end.
    publisher.on_packet(&mut counters, &Packet::Pubrec(ack(1, 0)), at(5), ZERO);
    match publisher.next_turn(&config, &free, true, false, at(5)) {
        Turn::Release(packets) => assert_eq!(packets.len(), 1),
        _ => panic!("expected a PUBREL"),
    }
    publisher.on_packet(&mut counters, &Packet::Pubcomp(ack(1, 0)), at(6), ZERO);
    publisher.close();
    assert!(matches!(
        publisher.next_turn(&config, &free, false, false, at(7)),
        Turn::Closed
    ));
}

#[test]
fn a_deadline_past_the_end_of_time_is_not_reached() {
    let schedule = Schedule::new(
        ZERO,
        Some(Rate {
            bits: 1,
            period: Some(Duration { nanos: u128::MAX }),
        }),
    );
    assert!(schedule.reaches(1));
    assert!(!schedule.reaches(2));
    let late = Schedule {
        start: at(1),
        interval: Some(Duration { nanos: u128::MAX }),
    };
    assert!(!late.reaches(1));
}
