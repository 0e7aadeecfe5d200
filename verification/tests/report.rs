use slatedb_wal_bench::config::{BenchmarkConfig, BenchmarkPlan, EnvVar, KafkaInputs};
use slatedb_wal_bench::report::{
    conclude, configuration_lines, percentile, result_lines, run_benchmark, sorted_latencies,
    BenchmarkError, BenchmarkOutcome, Figures, WriterOutcome,
};
use slatedb_wal_bench::sampler::SampleError;
use slatedb_wal_bench::writer::WriteError;

fn config(backend: &str) -> BenchmarkConfig {
    let plan = BenchmarkPlan::from_env(
        &EnvVar::Value(backend.to_string()),
        &EnvVar::Unset,
        "run".to_string(),
    )
    .unwrap();
    let inputs = KafkaInputs {
        properties_path: "p.properties".to_string(),
        properties: Ok("bootstrap.servers=b".to_string()),
        bootstrap_servers: EnvVar::Unset,
        commit_interval_ms: EnvVar::Value("250".to_string()),
        topic_prefix: EnvVar::Value("bench".to_string()),
    };
    BenchmarkConfig::from_env(plan, Some(inputs)).unwrap()
}

fn outcome(latencies: Vec<u128>) -> BenchmarkOutcome {
    BenchmarkOutcome { writes: 60_000, elapsed: 60_000_000_000, latencies }
}

fn mismatch() -> SampleError {
    SampleError::ValueMismatch { seq: 8 }
}

#[test]
fn finished_runs_have_an_outcome() {
    let res = run_benchmark(WriterOutcome::Finished(12), Ok(vec![3, 1]), 99).unwrap();
    assert_eq!(res.writes, 12);
    assert_eq!(res.elapsed, 99);
    assert_eq!(res.latencies, vec![3, 1]);
}

#[test]
fn failures_of_the_writer_go_first() {
    let panicked = WriterOutcome::Panicked { cause: "boom".to_string() };
    let error = run_benchmark(panicked, Err(mismatch()), 1).unwrap_err();
    assert_eq!(error.message(), "writer task panicked");
    assert!(matches!(error, BenchmarkError::WriterPanicked { cause } if cause == "boom"));

    let failed = WriterOutcome::Failed(WriteError::Failed { cause: "io".to_string() });
    let error = run_benchmark(failed, Err(mismatch()), 1).unwrap_err();
    assert_eq!(error.message(), "writer task failed");
    assert!(matches!(error, BenchmarkError::WriterFailed(WriteError::Failed { .. })));

    let error = run_benchmark(WriterOutcome::Finished(1), Err(mismatch()), 1).unwrap_err();
    assert_eq!(error.message(), "reader value mismatch at sequence 8");
}

#[test]
fn latencies_are_sorted() {
    assert_eq!(sorted_latencies(&vec![5, 1, 4, 1, u128::MAX, 0]), vec![0, 1, 1, 4, 5, u128::MAX]);
    assert!(sorted_latencies(&vec![]).is_empty());
}

#[test]
fn percentiles_are_picked_by_rank() {
    let sorted: Vec<u128> = (1..=10).collect();
    assert_eq!(percentile(&sorted, 5), 5);
    assert_eq!(percentile(&sorted, 9), 9);
    assert_eq!(percentile(&sorted, 10), 10);
    assert_eq!(percentile(&sorted, 0), 1);
    assert_eq!(percentile(&sorted, 1), 1);
    assert_eq!(percentile(&sorted, 11), 10);
    assert_eq!(percentile(&vec![7], usize::MAX), 7);
    let at_most = sorted.iter().filter(|value| **value <= percentile(&sorted, 9)).count();
    assert_eq!(at_most, 9);
}

#[test]
fn kafka_configuration_is_printed() {
    assert_eq!(
        configuration_lines(&config("kafka"), "60"),
        vec![
            "SlateDB WAL benchmark",
            "WAL backend: kafka",
            "run id: run",
            "duration: 60s",
            "write target: 1,000 records/s",
            "record size: 32-byte key, 512-byte value",
            "sample interval: 100ms",
            "Kafka WAL commit interval: 250ms",
            "Kafka properties: p.properties",
            "Kafka topic: bench-run",
            "S3 path: s3://opendata-vector-bench/wal-rfc-proto/run",
        ]
    );
}

#[test]
fn object_store_configuration_is_printed() {
    let lines = configuration_lines(&config("object_store"), "5");
    assert_eq!(lines.len(), 9);
    assert_eq!(lines[1], "WAL backend: object_store");
    assert_eq!(lines[3], "duration: 5s");
    assert_eq!(lines[7], "object-store WAL poll interval: 10ms");
    assert_eq!(lines[8], "S3 path: s3://opendata-vector-bench/wal-rfc-proto/run");
}

#[test]
fn results_are_printed() {
    let figures = Figures {
        rate: "1000.0".to_string(),
        average: "1.234".to_string(),
        p50: "1.000".to_string(),
        p90: "2.000".to_string(),
        p99: "3.000".to_string(),
    };
    assert_eq!(
        result_lines(&outcome(vec![1, 2, 3]), &figures),
        vec![
            "",
            "Results",
            "writes: 60000",
            "achieved write rate: 1000.0 records/s",
            "verified samples: 3",
            "durable-to-readable latency:",
            "  average: 1.234 ms",
            "  p50: 1.000 ms",
            "  p90: 2.000 ms",
            "  p99: 3.000 ms",
        ]
    );
}

#[test]
fn what_a_run_leaves_behind_is_printed() {
    let end = conclude(&config("kafka"), Ok(outcome(vec![1])), Ok(()), Ok(()));
    assert!(end.result.is_ok());
    assert_eq!(
        end.lines,
        vec![
            "Kafka topic retained: bench-run",
            "S3 data retained: s3://opendata-vector-bench/wal-rfc-proto/run",
        ]
    );
    let end = conclude(&config("object_store"), Ok(outcome(vec![1])), Ok(()), Ok(()));
    assert_eq!(
        end.lines,
        vec!["S3 data retained: s3://opendata-vector-bench/wal-rfc-proto/run"]
    );
}

#[test]
fn runs_without_samples_fail_in_the_end() {
    let end = conclude(&config("kafka"), Ok(outcome(vec![])), Ok(()), Ok(()));
    assert_eq!(end.lines.len(), 2);
    assert_eq!(end.result.unwrap_err().message(), "benchmark produced no samples");
}

#[test]
fn first_failure_is_reported() {
    let cause = || Err("cause".to_string());
    let end = conclude(
        &config("kafka"),
        Err(BenchmarkError::Sampling(mismatch())),
        cause(),
        cause(),
    );
    assert!(end.lines.is_empty());
    assert!(matches!(end.result, Err(BenchmarkError::Sampling(_))));

    let end = conclude(&config("kafka"), Ok(outcome(vec![])), cause(), cause());
    assert!(end.lines.is_empty());
    assert_eq!(end.result.unwrap_err().message(), "failed to close the reader");

    let end = conclude(&config("kafka"), Ok(outcome(vec![])), Ok(()), cause());
    assert!(end.lines.is_empty());
    let error = end.result.unwrap_err();
    assert_eq!(error.message(), "failed to close the writer");
    assert!(matches!(error, BenchmarkError::WriterClose { cause } if cause == "cause"));
}
