use slatedb_wal_bench::config::{
    BenchmarkConfig, BenchmarkPlan, EnvVar, KafkaInputs, WalBackend,
};
use slatedb_wal_bench::opening::{
    after_step, first_step, open_failure, open_settings, open_steps, step_line, OpenStep,
};

fn config(backend: WalBackend) -> BenchmarkConfig {
    let plan = BenchmarkPlan::from_env(
        &EnvVar::Value(backend.as_str().to_string()),
        &EnvVar::Unset,
        "run".to_string(),
    )
    .unwrap();
    let inputs = KafkaInputs {
        properties_path: "p".to_string(),
        properties: Ok("bootstrap.servers=b".to_string()),
        bootstrap_servers: EnvVar::Unset,
        commit_interval_ms: EnvVar::Value("7".to_string()),
        topic_prefix: EnvVar::Unset,
    };
    BenchmarkConfig::from_env(plan, Some(inputs)).unwrap()
}

/// Takes steps until one of them is `failing`; the steps taken, and what is said of the failure.
fn open(backend: WalBackend, failing: Option<OpenStep>) -> (Vec<OpenStep>, Option<String>) {
    let mut taken = vec![first_step(backend)];
    loop {
        let done = taken.len() - 1;
        let outcome = if Some(taken[done]) == failing { Err("cause") } else { Ok(()) };
        match after_step(backend, done, outcome) {
            Ok(Some(step)) => taken.push(step),
            Ok(None) => return (taken, None),
            Err(text) => return (taken, Some(text)),
        }
    }
}

#[test]
fn all_steps_are_taken_when_none_fails() {
    for backend in [WalBackend::Kafka, WalBackend::ObjectStore] {
        assert_eq!(open(backend, None), (open_steps(backend), None));
    }
}

#[test]
fn a_failed_step_is_the_last() {
    for backend in [WalBackend::Kafka, WalBackend::ObjectStore] {
        let steps = open_steps(backend);
        for (at, step) in steps.iter().enumerate() {
            let (taken, text) = open(backend, Some(*step));
            assert_eq!(taken, steps[..=at].to_vec());
            assert_eq!(text.unwrap(), open_failure(backend, *step, "cause"));
        }
    }
    let (taken, text) = open(WalBackend::Kafka, Some(OpenStep::Token));
    assert_eq!(taken, vec![OpenStep::Token]);
    assert_eq!(text.unwrap(), "MSK IAM token preflight failed: cause");
    let (taken, _) = open(WalBackend::ObjectStore, Some(OpenStep::Writer));
    assert_eq!(taken, vec![OpenStep::Writer]);
}

#[test]
fn object_store_runs_use_the_log_of_the_engine() {
    let settings = open_settings(&config(WalBackend::ObjectStore));
    assert_eq!(settings.db_path, "wal-rfc-proto/run");
    assert!(settings.log.is_none());
}

#[test]
fn kafka_runs_plug_in_a_log() {
    let settings = open_settings(&config(WalBackend::Kafka));
    assert_eq!(settings.db_path, "wal-rfc-proto/run");
    let log = settings.log.unwrap();
    assert_eq!(log.topic, "slatedb-kafka-wal-example-run");
    assert_eq!(log.commit_interval_ms, 7);
}

#[test]
fn kafka_runs_get_a_token_and_a_topic_first() {
    assert_eq!(
        open_steps(WalBackend::Kafka),
        vec![OpenStep::Token, OpenStep::Topic, OpenStep::Writer, OpenStep::Reader]
    );
}

#[test]
fn object_store_runs_leave_the_brokers_alone() {
    assert_eq!(open_steps(WalBackend::ObjectStore), vec![OpenStep::Writer, OpenStep::Reader]);
}

#[test]
fn preflight_is_reported() {
    assert_eq!(step_line(OpenStep::Token), Some("MSK IAM token preflight succeeded"));
    for step in [OpenStep::Topic, OpenStep::Writer, OpenStep::Reader] {
        assert_eq!(step_line(step), None);
    }
}

#[test]
fn failed_steps_are_reported() {
    for (backend, step, expected) in [
        (WalBackend::Kafka, OpenStep::Token, "MSK IAM token preflight failed: cause"),
        (WalBackend::Kafka, OpenStep::Topic, "cause"),
        (
            WalBackend::Kafka,
            OpenStep::Writer,
            "failed to open the SlateDB writer with the Kafka WAL",
        ),
        (
            WalBackend::Kafka,
            OpenStep::Reader,
            "failed to open the tailing SlateDB reader with the Kafka WAL",
        ),
        (
            WalBackend::ObjectStore,
            OpenStep::Writer,
            "failed to open the SlateDB writer with the object-store WAL",
        ),
        (
            WalBackend::ObjectStore,
            OpenStep::Reader,
            "failed to open the tailing SlateDB reader with the object-store WAL",
        ),
    ] {
        assert_eq!(open_failure(backend, step, "cause"), expected);
    }
}
