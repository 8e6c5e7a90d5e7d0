use wispmq_cli::bench::stats::{Counters, Samples};
use wispmq_cli::bench::{
    collect_failures, effective_inflight, join_tasks, output, report, verdict, Config,
    OfferedRate, Rate, Stop, TaskOutcome,
};
use wispmq_cli::bench::run::{RunEvent, RunState, RunStep};
use wispmq_cli::bench::stats::{Figure, Figures, LatencyMillis};
use wispmq_cli::cli::BenchArgs;
use wispmq_cli::clock::Duration;
use wispmq_cli::error::Error;
use wispmq_cli::mqtt::types::{QoS, ReasonCode};

/// The time between two messages at a rate, when a span of time can hold it.
fn period(rate: f64) -> Option<Duration> {
    std::time::Duration::try_from_secs_f64(1.0 / rate)
        .ok()
        .map(|d| Duration { nanos: d.as_nanos() })
}

fn offered(rate: f64, publishers: usize) -> Option<OfferedRate> {
    let share = rate / publishers as f64;
    Some(OfferedRate {
        bits: rate.to_bits(),
        shown: format!("{rate}"),
        json: format!("{rate:?}"),
        share: Rate {
            bits: share.to_bits(),
            period: period(share),
        },
    })
}

fn figure(text: &str) -> Figure {
    Figure {
        shown: text.to_string(),
        json: "1.5".to_string(),
    }
}

fn millis() -> LatencyMillis {
    let m = || "0.001".to_string();
    LatencyMillis {
        min: m(),
        p50: m(),
        p95: m(),
        p99: m(),
        max: m(),
        mean: m(),
    }
}

fn figures() -> Figures {
    Figures {
        elapsed_secs: figure("1.000"),
        publish_rate: figure("10"),
        receive_rate: figure("20"),
        ack: millis(),
        end_to_end: millis(),
    }
}

#[test]
fn count_defaults_when_neither_stop_condition_is_given() {
    let config = Config::from_args(&BenchArgs::new()).unwrap();
    assert_eq!(config.stop, Stop::Count(10_000));
}

#[test]
fn count_wins_over_duration_but_duration_still_bounds_the_run() {
    let mut args = BenchArgs::new();
    args.count = Some(50);
    args.duration = Some(30);
    let config = Config::from_args(&args).unwrap();
    assert_eq!(config.stop, Stop::CountWithin(50, Duration::from_secs(30)));
}

#[test]
fn duration_alone_is_a_timed_run() {
    let mut args = BenchArgs::new();
    args.duration = Some(5);
    let config = Config::from_args(&args).unwrap();
    assert_eq!(config.stop, Stop::Duration(Duration::from_secs(5)));
}

#[test]
fn a_payload_below_the_header_length_disables_end_to_end_latency() {
    let mut args = BenchArgs::new();
    args.subscribers = 1;
    args.payload_size = 8;
    let config = Config::from_args(&args).unwrap();
    assert!(!config.measures_end_to_end());

    let mut args = BenchArgs::new();
    args.subscribers = 1;
    args.payload_size = 16;
    let config = Config::from_args(&args).unwrap();
    assert!(config.measures_end_to_end());
}

#[test]
fn the_offered_rate_is_split_across_publishers() {
    let mut args = BenchArgs::new();
    args.publishers = 4;
    args.rate = offered(1000.0, 4);
    let config = Config::from_args(&args).unwrap();
    let share = config.per_publisher_rate().expect("a throttled run");
    assert_eq!(f64::from_bits(share.bits), 250.0);
    assert_eq!(share.period, Some(Duration::from_millis(4)));

    let mut args = BenchArgs::new();
    args.publishers = 4;
    let config = Config::from_args(&args).unwrap();
    assert_eq!(config.per_publisher_rate(), None);
}

#[test]
fn topics_follow_the_prefix() {
    let mut args = BenchArgs::new();
    args.topic_prefix = "load".to_string();
    let config = Config::from_args(&args).unwrap();
    assert_eq!(config.topic_for(3), "load/3");
    assert_eq!(config.subscribe_filter(), "load/#");
}

#[test]
fn zero_publishers_is_rejected() {
    let mut args = BenchArgs::new();
    args.publishers = 0;
    assert!(Config::from_args(&args).is_err());
}

#[test]
fn the_broker_receive_maximum_caps_the_window() {
    assert_eq!(effective_inflight(100, Some(20)), 20);
    assert_eq!(effective_inflight(100, Some(500)), 100);
    assert_eq!(effective_inflight(100, None), 100);
    // Never zero: a zero-permit window would deadlock the publisher.
    assert_eq!(effective_inflight(0, None), 1);
}

#[test]
fn a_count_run_splits_the_quota_and_hands_the_remainder_to_the_first() {
    let mut args = BenchArgs::new();
    args.publishers = 3;
    args.count = Some(10);
    let config = Config::from_args(&args).unwrap();
    assert_eq!(config.quota_for(0), Some(4));
    assert_eq!(config.quota_for(1), Some(3));
    assert_eq!(config.quota_for(2), Some(3));
    assert_eq!(config.deadline(), None);
}

#[test]
fn a_timed_run_has_no_quota_but_has_a_deadline() {
    let mut args = BenchArgs::new();
    args.duration = Some(7);
    let config = Config::from_args(&args).unwrap();
    assert_eq!(config.quota_for(0), None);
    assert_eq!(config.deadline(), Some(Duration::from_secs(7)));
}

#[test]
fn qos_2_is_accepted() {
    let mut args = BenchArgs::new();
    args.qos = 2;
    assert_eq!(Config::from_args(&args).unwrap().qos, QoS::ExactlyOnce);
}

#[test]
fn a_pathologically_small_rate_is_rejected() {
    let mut args = BenchArgs::new();
    args.rate = offered(1e-300, 1);
    assert!(Config::from_args(&args).is_err());
}

#[test]
fn an_ordinary_rate_resolves() {
    let mut args = BenchArgs::new();
    args.rate = offered(500.0, 1);
    let config = Config::from_args(&args).unwrap();
    let rate = config.rate.expect("a throttled run");
    assert_eq!(f64::from_bits(rate.bits), 500.0);
}

#[test]
fn only_rates_above_zero_and_up_to_the_maximum_are_accepted() {
    for rate in [
        0.0,
        -0.0,
        -1.0,
        f64::NAN,
        f64::INFINITY,
        f64::NEG_INFINITY,
        10_000_000.1,
    ] {
        let mut args = BenchArgs::new();
        args.rate = offered(rate, 1);
        let err = Config::from_args(&args).err().expect("out of range");
        assert_eq!(
            err.message(),
            format!(
                "--rate must be a finite number greater than 0 and at most 10000000, got {rate}"
            )
        );
    }
    for rate in [1e-15, 0.5, 10_000_000.0] {
        let mut args = BenchArgs::new();
        args.rate = offered(rate, 1);
        assert!(Config::from_args(&args).is_ok(), "{rate}");
    }
}

#[test]
fn task_failures_are_collected_with_their_role_and_index() {
    let failures = collect_failures(
        vec![Ok(()), Err(Error::Usage("boom".into()))],
        "publisher",
    );
    assert_eq!(failures, vec!["publisher 1: boom".to_string()]);
}

#[test]
fn a_clean_sweep_of_results_produces_no_failures() {
    assert!(collect_failures(vec![Ok(()), Ok(())], "subscriber").is_empty());
}

#[test]
fn a_rate_safe_alone_is_rejected_once_split_across_publishers() {
    let mut args = BenchArgs::new();
    args.rate = offered(2e-19, 1);
    assert!(Config::from_args(&args).is_ok());

    let mut args = BenchArgs::new();
    args.rate = offered(2e-19, 4);
    args.publishers = 4;
    let err = Config::from_args(&args).err().expect("too small");
    assert!(err
        .message()
        .ends_with(" split across 4 publisher(s) is too small: the resulting period does not fit"));
}

#[test]
fn an_unknown_quality_is_rejected() {
    let mut args = BenchArgs::new();
    args.qos = 3;
    assert_eq!(
        Config::from_args(&args).err().unwrap().message(),
        "malformed packet: invalid QoS 3"
    );
}

#[test]
fn the_quotas_add_up_to_the_count() {
    for (publishers, count) in [(1usize, 7u64), (7, 3), (4, 1_000_001), (3, 0)] {
        let mut args = BenchArgs::new();
        args.publishers = publishers;
        args.count = Some(count);
        let config = Config::from_args(&args).unwrap();
        let sum: u64 = (0..publishers).map(|k| config.quota_for(k).unwrap()).sum();
        assert_eq!(sum, count);
    }
}

const NOTHING: RunStep = RunStep {
    settle: None,
    start_publishers: false,
    stop_publishers: false,
    drain: None,
    stop_subscribers: false,
};

#[test]
fn publishers_start_after_the_subscribers_have_settled() {
    let mut args = BenchArgs::new();
    args.subscribers = 3;
    let config = Config::from_args(&args).unwrap();
    let (mut run, step) = RunState::start(&config);
    assert_eq!(step, NOTHING);
    assert_eq!(run.on_event(&config, RunEvent::Subscribed(1)), NOTHING);
    // The same subscriber again, and one that is none of the run, account for nobody.
    assert_eq!(run.on_event(&config, RunEvent::SubscriberEnded(1)), NOTHING);
    assert_eq!(run.on_event(&config, RunEvent::Subscribed(3)), NOTHING);
    assert_eq!(run.on_event(&config, RunEvent::SettleOver), NOTHING);
    // One that failed is not waited for.
    assert_eq!(run.on_event(&config, RunEvent::SubscriberEnded(0)), NOTHING);
    assert_eq!(
        run.on_event(&config, RunEvent::Subscribed(2)),
        RunStep {
            settle: Some(Duration::from_millis(200)),
            ..NOTHING
        }
    );
    assert_eq!(run.on_event(&config, RunEvent::SubscriberEnded(2)), NOTHING);
    assert_eq!(
        run.on_event(&config, RunEvent::SettleOver),
        RunStep {
            start_publishers: true,
            ..NOTHING
        }
    );
    assert_eq!(run.on_event(&config, RunEvent::SettleOver), NOTHING);
}

#[test]
fn a_run_without_subscribers_publishes_at_once() {
    let config = Config::from_args(&BenchArgs::new()).unwrap();
    let (_, step) = RunState::start(&config);
    assert_eq!(
        step,
        RunStep {
            start_publishers: true,
            ..NOTHING
        }
    );
}

#[test]
fn joining_merges_samples_and_keeps_a_result_per_task() {
    let mut a = Samples::new();
    a.record(3);
    let mut b = Samples::new();
    b.record(1);
    b.record(2);
    let (mut merged, results) = join_tasks(vec![
        TaskOutcome::Finished(a),
        TaskOutcome::Failed(Error::Usage("boom".into())),
        TaskOutcome::Panicked("index out of bounds".into()),
        TaskOutcome::Finished(b),
    ]);
    assert_eq!(merged.len(), 3);
    assert_eq!(merged.summary().unwrap().max_ns, 3);
    assert_eq!(
        collect_failures(results, "publisher"),
        vec![
            "publisher 1: boom".to_string(),
            "publisher 2: task panicked: index out of bounds".to_string()
        ]
    );
}

#[test]
fn a_report_carries_what_the_run_left_behind() {
    let mut args = BenchArgs::new();
    args.subscribers = 2;
    args.payload_size = 8;
    args.qos = 1;
    args.rate = offered(500.0, 1);
    let config = Config::from_args(&args).unwrap();
    let mut counters = Counters::new();
    counters.record_published(64);
    let mut ack = Samples::new();
    ack.record(5);
    let mut end_to_end = Samples::new();
    let good = report(
        &config,
        Duration::from_secs(2),
        counters.snapshot(),
        vec![Ok(())],
        vec![Ok(()), Ok(())],
        &mut ack,
        &mut end_to_end,
    );
    assert_eq!(good.config.qos, 1);
    assert_eq!(good.config.rate.as_ref().unwrap().shown, "500");
    assert_eq!(good.totals.bytes_sent, 64);
    assert_eq!(good.ack.unwrap().count, 1);
    assert!(good.end_to_end.is_none());
    assert!(good.end_to_end_disabled);
    assert!(verdict(&good).is_ok());
    assert!(output(false, &good, &figures()).starts_with("config: 1 publishers, 2 subscribers"));
    assert!(output(true, &good, &figures()).ends_with("}\n"));

    counters.record_refusal(ReasonCode::from_u8(0x97).unwrap());
    let bad = report(
        &config,
        Duration::from_secs(2),
        counters.snapshot(),
        vec![Err(Error::Usage("boom".into()))],
        vec![Ok(()), Err(Error::Usage("bang".into()))],
        &mut ack,
        &mut end_to_end,
    );
    assert_eq!(
        bad.task_failures,
        vec!["publisher 0: boom".to_string(), "subscriber 1: bang".to_string()]
    );
    assert_eq!(
        verdict(&bad).err().unwrap().message(),
        "the run completed with failures or refused messages; see the report above"
    );
}

#[test]
fn subscribers_outlive_the_publishers_by_the_drain_window() {
    let mut args = BenchArgs::new();
    args.duration = Some(1);
    args.drain = 3;
    let config = Config::from_args(&args).unwrap();
    let (mut run, _) = RunState::start(&config);
    assert_eq!(run.on_event(&config, RunEvent::DrainOver), NOTHING);
    assert_eq!(
        run.on_event(&config, RunEvent::StopRequested),
        RunStep {
            stop_publishers: true,
            ..NOTHING
        }
    );
    assert_eq!(
        run.on_event(&config, RunEvent::PublishersDone),
        RunStep {
            drain: Some(Duration::from_secs(3)),
            ..NOTHING
        }
    );
    assert_eq!(
        run.on_event(&config, RunEvent::StopRequested),
        RunStep {
            stop_publishers: true,
            ..NOTHING
        }
    );
    assert_eq!(
        run.on_event(&config, RunEvent::DrainOver),
        RunStep {
            stop_subscribers: true,
            ..NOTHING
        }
    );
    assert_eq!(run.on_event(&config, RunEvent::DrainOver), NOTHING);
}
