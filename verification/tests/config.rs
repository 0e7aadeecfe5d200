use slatedb_wal_bench::config::{
    env_u64, log_verbosity, properties_path, reader_settings, write_settings, BenchmarkConfig, BenchmarkPlan,
    ConfigError, EnvVar, KafkaBenchmarkConfig, KafkaInputs, LogVerbosity, WalBackend,
};
use slatedb_wal_bench::ids::run_id_of;

fn value(text: &str) -> EnvVar {
    EnvVar::Value(text.to_string())
}

fn inputs(contents: &str) -> KafkaInputs {
    KafkaInputs {
        properties_path: "client.properties".to_string(),
        properties: Ok(contents.to_string()),
        bootstrap_servers: EnvVar::Unset,
        commit_interval_ms: EnvVar::Unset,
        topic_prefix: EnvVar::Unset,
    }
}

fn plan(backend: EnvVar, duration: EnvVar) -> Result<BenchmarkPlan, ConfigError> {
    BenchmarkPlan::from_env(&backend, &duration, "run".to_string())
}

#[test]
fn backend_is_named_by_its_variable() {
    assert_eq!(WalBackend::from_env(&EnvVar::Unset).unwrap(), WalBackend::Kafka);
    for backend in [WalBackend::Kafka, WalBackend::ObjectStore] {
        assert_eq!(WalBackend::from_env(&value(backend.as_str())).unwrap(), backend);
    }
    assert_eq!(WalBackend::Kafka.as_str(), "kafka");
    assert_eq!(WalBackend::ObjectStore.as_str(), "object_store");
    assert_eq!(
        WalBackend::from_env(&EnvVar::NotUnicode).unwrap_err().message(),
        "failed to read WAL_BACKEND"
    );
    for unknown in ["", "Kafka", "kafka ", "s3"] {
        assert!(matches!(
            WalBackend::from_env(&value(unknown)),
            Err(ConfigError::UnsupportedBackend { value }) if value == unknown
        ));
    }
    assert_eq!(
        WalBackend::from_env(&value("a\"b\n")).unwrap_err().message(),
        "unsupported WAL_BACKEND \"a\\\"b\\n\"; expected kafka or object_store"
    );
}

#[test]
fn numbers_come_from_variables() {
    assert_eq!(env_u64("N", &EnvVar::Unset, 7).unwrap(), 7);
    assert_eq!(env_u64("N", &value("0"), 7).unwrap(), 0);
    assert_eq!(env_u64("N", &value("+12"), 7).unwrap(), 12);
    assert_eq!(env_u64("N", &EnvVar::NotUnicode, 7).unwrap_err().message(), "failed to read N");
    let error = env_u64("N", &value("-1"), 7).unwrap_err();
    assert_eq!(error.message(), "N must be an unsigned integer");
    assert!(matches!(error, ConfigError::NotAnInteger { name: "N", value } if value == "-1"));
}

#[test]
fn plan_defaults_to_a_minute_of_kafka() {
    let plan = plan(EnvVar::Unset, EnvVar::Unset).unwrap();
    assert_eq!(plan.backend, WalBackend::Kafka);
    assert_eq!(plan.duration_seconds, 60);
    assert_eq!(plan.run_id, "run");
    assert_eq!(plan.db_path, "wal-rfc-proto/run");
    assert!(plan.needs_kafka());
}

#[test]
fn plan_takes_backend_and_duration() {
    let settled = plan(value("object_store"), value("5")).unwrap();
    assert_eq!(settled.backend, WalBackend::ObjectStore);
    assert_eq!(settled.duration_seconds, 5);
    assert!(!settled.needs_kafka());
    assert_eq!(
        plan(EnvVar::Unset, value("0")).unwrap_err().message(),
        "TEST_DURATION_SECONDS must be greater than zero"
    );
    assert_eq!(
        plan(EnvVar::Unset, value("soon")).unwrap_err().message(),
        "TEST_DURATION_SECONDS must be an unsigned integer"
    );
    assert!(matches!(
        plan(value("nfs"), value("0")),
        Err(ConfigError::UnsupportedBackend { .. })
    ));
}

#[test]
fn object_store_runs_have_no_kafka_configuration() {
    let settled = plan(value("object_store"), EnvVar::Unset).unwrap();
    let config = BenchmarkConfig::from_env(settled, None).unwrap();
    assert_eq!(config.backend, WalBackend::ObjectStore);
    assert!(config.kafka.is_none());
    let settled = plan(value("object_store"), EnvVar::Unset).unwrap();
    let config = BenchmarkConfig::from_env(settled, Some(inputs("nonsense"))).unwrap();
    assert!(config.kafka.is_none());
}

#[test]
fn kafka_runs_have_a_kafka_configuration() {
    let settled = plan(EnvVar::Unset, value("3")).unwrap();
    let config =
        BenchmarkConfig::from_env(settled, Some(inputs("bootstrap.servers=b:9098\nx=y"))).unwrap();
    assert_eq!(config.duration_seconds, 3);
    assert_eq!(config.run_id, "run");
    assert_eq!(config.db_path, "wal-rfc-proto/run");
    let kafka = config.kafka.unwrap();
    assert_eq!(kafka.bootstrap_servers, "b:9098");
    assert_eq!(kafka.commit_interval_ms, 100);
    assert_eq!(kafka.properties_path, "client.properties");
    assert_eq!(kafka.topic, "slatedb-kafka-wal-example-run");
    assert_eq!(kafka.client_properties.len(), 1);
    assert_eq!(kafka.client_properties.get("x"), Some("y"));

    let settled = plan(EnvVar::Unset, EnvVar::Unset).unwrap();
    assert!(BenchmarkConfig::from_env(settled, Some(inputs(""))).is_err());
}

#[test]
fn variable_goes_before_the_properties_file() {
    let mut given = inputs("bootstrap.servers=file:1");
    given.bootstrap_servers = value("env:2");
    let kafka = KafkaBenchmarkConfig::from_env("run", given).unwrap();
    assert_eq!(kafka.bootstrap_servers, "env:2");
    assert_eq!(kafka.client_properties.get("bootstrap.servers"), Some("file:1"));

    let mut given = inputs("bootstrap.servers=file:1");
    given.bootstrap_servers = EnvVar::NotUnicode;
    let kafka = KafkaBenchmarkConfig::from_env("run", given).unwrap();
    assert_eq!(kafka.bootstrap_servers, "file:1");
    assert_eq!(kafka.client_properties.get("bootstrap.servers"), None);
}

#[test]
fn brokers_are_required() {
    let expected =
        "KAFKA_BOOTSTRAP_SERVERS is required because client.properties has no bootstrap.servers entry";
    let error = KafkaBenchmarkConfig::from_env("run", inputs("a=b")).unwrap_err();
    assert_eq!(error.message(), expected);
    let error = KafkaBenchmarkConfig::from_env("run", inputs("bootstrap.servers=")).unwrap_err();
    assert_eq!(error.message(), expected);
    let mut given = inputs("bootstrap.servers=file:1");
    given.bootstrap_servers = value(" \t");
    assert!(matches!(
        KafkaBenchmarkConfig::from_env("run", given),
        Err(ConfigError::NoBootstrapServers { path }) if path == "client.properties"
    ));
}

#[test]
fn commit_interval_is_positive() {
    let mut given = inputs("bootstrap.servers=b");
    given.commit_interval_ms = value("250");
    let kafka = KafkaBenchmarkConfig::from_env("run", given).unwrap();
    assert_eq!(kafka.commit_interval_ms, 250);
    for (text, expected) in [
        ("0", "KAFKA_COMMIT_INTERVAL_MS must be greater than zero"),
        ("x", "KAFKA_COMMIT_INTERVAL_MS must be an unsigned integer"),
    ] {
        let mut given = inputs("bootstrap.servers=b");
        given.commit_interval_ms = value(text);
        let error = KafkaBenchmarkConfig::from_env("run", given).unwrap_err();
        assert_eq!(error.message(), expected);
    }
}

#[test]
fn topic_prefix_is_checked() {
    let configured = |prefix: EnvVar, run_id: &str| {
        let mut given = inputs("bootstrap.servers=b");
        given.topic_prefix = prefix;
        KafkaBenchmarkConfig::from_env(run_id, given)
    };
    assert_eq!(configured(value("aZ0._-"), "r").unwrap().topic, "aZ0._--r");
    assert_eq!(
        configured(EnvVar::NotUnicode, "r").unwrap().topic,
        "slatedb-kafka-wal-example-r"
    );
    for bad in ["", "a b", "a/b", "\u{fc}", "a\n"] {
        let error = configured(value(bad), "r").unwrap_err();
        assert_eq!(
            error.message(),
            "KAFKA_TOPIC_PREFIX must use only ASCII letters, digits, '.', '_', and '-'"
        );
    }
    assert_eq!(configured(value(&"p".repeat(247)), "r").unwrap().topic.len(), 249);
    let error = configured(value(&"p".repeat(248)), "r").unwrap_err();
    assert_eq!(error.message(), "generated Kafka topic exceeds 249 bytes");
    assert!(matches!(
        configured(value(&"p".repeat(247)), "\u{fc}"),
        Err(ConfigError::TopicTooLong)
    ));
}

#[test]
fn properties_file_is_read_first() {
    let mut given = inputs("");
    given.properties = Err("no such file".to_string());
    given.commit_interval_ms = value("0");
    let error = KafkaBenchmarkConfig::from_env("run", given).unwrap_err();
    assert_eq!(error.message(), "failed to read Kafka properties from client.properties");
    assert!(matches!(
        error,
        ConfigError::UnreadableProperties { cause, .. } if cause == "no such file"
    ));
    let error = KafkaBenchmarkConfig::from_env("run", inputs("a=1\nb")).unwrap_err();
    assert_eq!(
        error.message(),
        "invalid Kafka property at client.properties:2; expected key=value"
    );
    let mut given = inputs("bootstrap.servers=b");
    given.commit_interval_ms = EnvVar::NotUnicode;
    given.topic_prefix = value("");
    let error = KafkaBenchmarkConfig::from_env("run", given).unwrap_err();
    assert_eq!(error.message(), "failed to read KAFKA_COMMIT_INTERVAL_MS");
}

#[test]
fn runs_have_their_own_database_and_topic() {
    let mut names = Vec::new();
    for id in [1_u128, 2, 1 << 100] {
        let run_id = run_id_of(id);
        let settled =
            BenchmarkPlan::from_env(&EnvVar::Unset, &EnvVar::Unset, run_id.clone()).unwrap();
        assert_eq!(settled.db_path, format!("wal-rfc-proto/{run_id}"));
        let config =
            BenchmarkConfig::from_env(settled, Some(inputs("bootstrap.servers=b"))).unwrap();
        let topic = config.kafka.unwrap().topic;
        assert_eq!(topic, format!("slatedb-kafka-wal-example-{run_id}"));
        names.push(topic);
    }
    names.sort();
    names.dedup();
    assert_eq!(names.len(), 3);
}

#[test]
fn readers_tail_the_log() {
    let kafka = reader_settings(WalBackend::Kafka);
    assert!(kafka.tail_wal);
    assert!(kafka.follow_latest);
    assert_eq!(kafka.manifest_poll_interval_ms, None);
    let object_store = reader_settings(WalBackend::ObjectStore);
    assert!(object_store.tail_wal);
    assert!(object_store.follow_latest);
    assert_eq!(object_store.manifest_poll_interval_ms, Some(10));
}

#[test]
fn debugging_logs_more() {
    assert_eq!(log_verbosity(true), LogVerbosity::Debug);
    assert_eq!(log_verbosity(false), LogVerbosity::Warn);
}

#[test]
fn writes_do_not_wait_for_durability() {
    assert!(!write_settings().await_durable);
}

#[test]
fn properties_file_has_a_default() {
    assert_eq!(properties_path(None), "client.properties");
    assert_eq!(properties_path(Some("/etc/msk.properties".to_string())), "/etc/msk.properties");
    assert_eq!(properties_path(Some(String::new())), "");
}
