use wispmq_cli::bench::stats::{
    percentile, CounterTotals, Counters, Figure, Figures, LatencyMillis, Report, ReportConfig,
    Samples, Summary,
};
use wispmq_cli::bench::Config;
use wispmq_cli::cli::BenchArgs;
use wispmq_cli::clock::Duration;
use wispmq_cli::mqtt::types::ReasonCode;

fn totals() -> CounterTotals {
    CounterTotals {
        published: 1000,
        acknowledged: 1000,
        received: 2000,
        bytes_sent: 64_000,
        bytes_received: 128_000,
        publish_errors: 0,
        refused: Counters::default().snapshot().refused,
    }
}

fn report_config() -> ReportConfig {
    ReportConfig {
        publishers: 1,
        subscribers: 2,
        qos: 1,
        payload_size: 64,
        inflight: 100,
        rate: None,
        topic_prefix: "bench".into(),
    }
}

fn report(elapsed: Duration) -> Report {
    Report {
        config: report_config(),
        elapsed,
        totals: totals(),
        task_failures: Vec::new(),
        ack: None,
        end_to_end: None,
        end_to_end_disabled: false,
    }
}

fn millis(summary: &Option<Summary>) -> LatencyMillis {
    let ms = |nanos: fn(&Summary) -> u64| match summary {
        Some(s) => format!("{:.3}", nanos(s) as f64 / 1e6),
        None => String::new(),
    };
    LatencyMillis {
        min: ms(|s| s.min_ns),
        p50: ms(|s| s.p50_ns),
        p95: ms(|s| s.p95_ns),
        p99: ms(|s| s.p99_ns),
        max: ms(|s| s.max_ns),
        mean: ms(|s| s.mean_ns),
    }
}

fn figures(report: &Report) -> Figures {
    let secs = report.elapsed.nanos as f64 / 1e9;
    let figure = |shown: String, value: f64| Figure {
        shown,
        json: format!("{value:?}"),
    };
    let publish_rate = report.totals.published as f64 / secs;
    let receive_rate = report.totals.received as f64 / secs;
    Figures {
        elapsed_secs: figure(format!("{secs:.3}"), secs),
        publish_rate: figure(format!("{publish_rate:.0}"), publish_rate),
        receive_rate: figure(format!("{receive_rate:.0}"), receive_rate),
        ack: millis(&report.ack),
        end_to_end: millis(&report.end_to_end),
    }
}

#[test]
fn percentile_uses_nearest_rank() {
    // 1..=100 makes the expected ranks obvious: the p-th percentile is the
    // ceil(p * n)-th value, one-indexed.
    let sorted: Vec<u64> = (1..=100).collect();
    assert_eq!(percentile(&sorted, 50), 50);
    assert_eq!(percentile(&sorted, 95), 95);
    assert_eq!(percentile(&sorted, 99), 99);
    assert_eq!(percentile(&sorted, 100), 100);
}

#[test]
fn percentile_of_one_sample_is_that_sample() {
    assert_eq!(percentile(&[42], 50), 42);
    assert_eq!(percentile(&[42], 99), 42);
}

#[test]
fn percentile_stays_within_the_samples() {
    assert_eq!(percentile(&[1, 2, 3], 0), 1);
    assert_eq!(percentile(&[1, 2, 3], 1000), 3);
    assert_eq!(percentile(&[1, 2, 3], 34), 2);
    assert_eq!(percentile(&[1, 2, 3], 33), 1);
}

#[test]
fn summary_of_empty_samples_is_none() {
    let mut samples = Samples::new();
    assert!(samples.is_empty());
    assert!(samples.summary().is_none());
}

#[test]
fn summary_reports_the_whole_distribution() {
    let mut samples = Samples::new();
    for v in [30u64, 10, 20, 50, 40] {
        samples.record(v);
    }
    let summary = samples.summary().expect("five samples");
    assert_eq!(summary.count, 5);
    assert_eq!(summary.min_ns, 10);
    assert_eq!(summary.max_ns, 50);
    assert_eq!(summary.mean_ns, 30);
    assert_eq!(summary.p50_ns, 30);
}

#[test]
fn merge_combines_two_task_local_sets() {
    let mut a = Samples::new();
    a.record(1);
    a.record(3);
    let mut b = Samples::new();
    b.record(2);
    a.merge(b);
    assert_eq!(a.len(), 3);
    let summary = a.summary().expect("three samples");
    assert_eq!(summary.min_ns, 1);
    assert_eq!(summary.max_ns, 3);
}

#[test]
fn a_summary_can_be_taken_twice_and_grows() {
    let mut samples = Samples::new();
    samples.record(u64::MAX);
    samples.record(u64::MAX - 1);
    let first = samples.summary().expect("two samples");
    assert_eq!(samples.summary(), Some(first));
    assert_eq!(first.mean_ns, u64::MAX - 1);
    samples.record(5);
    let second = samples.summary().expect("three samples");
    assert_eq!(second.min_ns, 5);
    assert_eq!(second.p50_ns, u64::MAX - 1);
}

#[test]
fn refusals_are_tallied_per_reason_code() {
    let mut counters = Counters::default();
    counters.record_refusal(ReasonCode::from_u8(0x87).unwrap());
    counters.record_refusal(ReasonCode::from_u8(0x87).unwrap());
    counters.record_refusal(ReasonCode::from_u8(0x97).unwrap());
    let snapshot = counters.snapshot();
    assert_eq!(snapshot.refused.get(&0x87), Some(&2));
    assert_eq!(snapshot.refused.get(&0x97), Some(&1));
}

#[test]
fn the_counters_count() {
    let mut counters = Counters::new();
    counters.record_published(10);
    counters.record_published(20);
    counters.record_acknowledged();
    counters.record_received(5);
    counters.record_publish_error();
    let totals = counters.snapshot();
    assert_eq!(totals.published, 2);
    assert_eq!(totals.bytes_sent, 30);
    assert_eq!(totals.acknowledged, 1);
    assert_eq!(totals.received, 1);
    assert_eq!(totals.bytes_received, 5);
    assert_eq!(totals.publish_errors, 1);
}

#[test]
fn rates_come_from_measured_time_not_requested_time() {
    // A run of thirty seconds that was cut short after two.
    let mut args = BenchArgs::new();
    args.duration = Some(30);
    let config = Config::from_args(&args).unwrap();
    let report = wispmq_cli::bench::report(
        &config,
        Duration::from_secs(2),
        totals(),
        Vec::new(),
        Vec::new(),
        &mut Samples::new(),
        &mut Samples::new(),
    );
    assert_eq!(report.elapsed, Duration::from_secs(2));
    let figures = figures(&report);
    assert_eq!(figures.publish_rate.shown, "500");
    assert_eq!(figures.receive_rate.shown, "1000");
    let table = report.to_table(&figures);
    assert!(table.contains("  published               1000  (500/s)\n"));
    assert!(table.contains("  received                2000  (1000/s)\n"));
}

#[test]
fn a_run_with_a_refusal_or_a_failed_task_is_not_a_success() {
    let mut report = report(Duration::from_secs(1));
    assert!(report.success());

    report.task_failures.push("publisher 0: io error".into());
    assert!(!report.success());

    report.task_failures.clear();
    report.totals.refused.insert(0x87, 1);
    assert!(!report.success());

    report.totals.refused.clear();
    report.totals.publish_errors = 1;
    assert!(!report.success());
}

fn ack_summary() -> Summary {
    Summary {
        count: 1000,
        min_ns: 1_000,
        p50_ns: 2_000,
        p95_ns: 3_000,
        p99_ns: 4_000,
        max_ns: 5_000,
        mean_ns: 2_500,
    }
}

#[test]
fn the_table_names_what_was_measured() {
    let mut report = report(Duration::from_secs(1));
    report.ack = Some(ack_summary());
    report.end_to_end_disabled = true;
    let table = report.to_table(&figures(&report));
    assert!(table.contains("published"));
    assert!(table.contains("ack latency"));
    assert!(table.contains("p99"));
    // A disabled measurement is stated, never printed as zeros.
    assert!(table.contains("end-to-end latency: not measured"));
    assert!(!table.contains("0.000 ms"));
}

#[test]
fn the_table_is_laid_out_in_columns() {
    let mut report = report(Duration::from_millis(1500));
    report.ack = Some(ack_summary());
    report.config.rate = Some(Figure {
        shown: "500".into(),
        json: "500.0".into(),
    });
    report.totals.refused.insert(0x97, 3);
    report.totals.refused.insert(0x87, 12);
    report.task_failures.push("subscriber 1: gone".into());
    assert_eq!(
        report.to_table(&figures(&report)),
        "config: 1 publishers, 2 subscribers, QoS 1, 64 B payload, inflight 100, \
         500 msg/s offered, prefix bench\n\
         elapsed:  1.500 s\n\
         \n\
         \x20 published               1000  (667/s)\n\
         \x20 acknowledged            1000\n\
         \x20 received                2000  (1333/s)\n\
         \x20 bytes sent             64000\n\
         \x20 bytes received        128000\n\
         \x20 publish errors             0\n\
         \x20 refused 0x87               12\n\
         \x20 refused 0x97                3\n\
         \x20 task failed: subscriber 1: gone\n\
         \n\
         ack latency (1000 samples)\n\
         \x20 min       0.001 ms\n\
         \x20 p50       0.002 ms\n\
         \x20 p95       0.003 ms\n\
         \x20 p99       0.004 ms\n\
         \x20 max       0.005 ms\n\
         \x20 mean      0.003 ms\n\
         end-to-end latency: not measured (no samples)\n"
            .replace("0.003 ms\nend", &format!("{:.3} ms\nend", 2_500.0 / 1e6))
    );
}

#[test]
fn json_carries_the_configuration_and_the_numbers() {
    let mut report = report(Duration::from_millis(1500));
    report.task_failures = vec!["subscriber 1: connection reset".into()];
    let value: serde_json::Value =
        serde_json::from_str(&report.to_json(&figures(&report))).expect("valid JSON");
    assert_eq!(value["config"]["publishers"], 1);
    assert_eq!(value["config"]["qos"], 1);
    assert_eq!(value["counters"]["published"], 1000);
    assert_eq!(value["elapsed_secs"], 1.5);
    assert_eq!(value["task_failures"][0], "subscriber 1: connection reset");
    assert!(value["latency"]["ack"].is_null());
}

#[test]
fn json_is_indented_and_keeps_fractions() {
    let mut report = report(Duration::from_secs(3));
    report.ack = Some(ack_summary());
    report.config.rate = Some(Figure {
        shown: "500".into(),
        json: "500.0".into(),
    });
    report.config.topic_prefix = "a\"b\n".into();
    report.totals.refused.insert(0x97, 3);
    let text = report.to_json(&figures(&report));
    assert!(text.starts_with("{\n  \"config\": {\n    \"inflight\": 100,\n"));
    assert!(text.contains("\"rate\": 500.0"));
    assert!(text.contains("\"topic_prefix\": \"a\\\"b\\n\""));
    assert!(text.contains("\"refused\": {\n      \"0x97\": 3\n    }"));
    let value: serde_json::Value = serde_json::from_str(&text).expect("valid JSON");
    assert_eq!(value["throughput"]["published_per_sec"], 1000.0 / 3.0);
    assert_eq!(value["latency"]["ack"]["p99_ns"], 4_000);
    assert_eq!(value["latency"]["end_to_end_disabled"], false);
    assert_eq!(value["success"], false);
    assert!(value["task_failures"].as_array().unwrap().is_empty());
}

#[test]
fn a_fraction_that_is_no_number_is_null_in_json() {
    let report = report(Duration::from_secs(1));
    let mut figures = figures(&report);
    figures.publish_rate.json = "NaN".into();
    let value: serde_json::Value =
        serde_json::from_str(&report.to_json(&figures)).expect("valid JSON");
    assert!(value["throughput"]["published_per_sec"].is_null());
    assert!(value["config"]["rate"].is_null());
    assert_eq!(value["success"], true);
}
