//! Configuration of a benchmark run, from environment variables and a properties file.

use vstd::prelude::*;
use vstd::utf8::*;

use crate::properties::{read_properties, FaultView, Properties, PropertiesError};
use crate::text::{chars_of, parse_u64, same_text, trim_range};

verus! {

/// Region of the bucket and of the brokers.
pub const AWS_REGION: &'static str = "us-west-2";

/// Bucket that holds the databases.
pub const S3_BUCKET: &'static str = "opendata-vector-bench";

/// Prefix, in the bucket, of the databases.
pub const S3_PREFIX: &'static str = "wal-rfc-proto";

/// How long a run lasts unless it is said otherwise.
pub const DEFAULT_TEST_DURATION_SECONDS: u64 = 60;

/// How often Kafka transactions are committed unless it is said otherwise.
pub const DEFAULT_COMMIT_INTERVAL_MS: u64 = 100;

/// Prefix of topic names unless it is said otherwise.
pub const DEFAULT_TOPIC_PREFIX: &'static str = "slatedb-kafka-wal-example";

/// Properties file unless it is said otherwise.
pub const DEFAULT_PROPERTIES_PATH: &'static str = "client.properties";

/// Longest topic name, in bytes.
pub const MAX_TOPIC_BYTES: usize = 249;

/// How often the reader of an object-store log looks for a new manifest.
pub const OBJECT_STORE_WAL_POLL_INTERVAL_MS: u64 = 10;

/// An environment variable as a process finds it.
#[derive(Debug)]
pub enum EnvVar {
    /// It is not set.
    Unset,
    /// It is set to something that is not Unicode.
    NotUnicode,
    /// It is set.
    Value(String),
}

/// What an `EnvVar` stands for.
pub enum EnvView {
    Unset,
    NotUnicode,
    Value(Seq<char>),
}

impl View for EnvVar {
    type V = EnvView;

    open spec fn view(&self) -> EnvView {
        match *self {
            EnvVar::Unset => EnvView::Unset,
            EnvVar::NotUnicode => EnvView::NotUnicode,
            EnvVar::Value(value) => EnvView::Value(value@),
        }
    }
}

// ---------------------------------------------------------------------------
// Errors
// ---------------------------------------------------------------------------

/// A configuration that cannot be used.
#[derive(Debug)]
pub enum ConfigError {
    /// `WAL_BACKEND` names no backend.
    UnsupportedBackend { value: String },
    /// A variable is not Unicode.
    NotUnicode { name: &'static str },
    /// A variable is no unsigned integer.
    NotAnInteger { name: &'static str, value: String },
    /// A variable is zero and must not be.
    Zero { name: &'static str },
    /// The properties file cannot be read.
    UnreadableProperties { path: String, cause: String },
    /// The properties file holds a line that cannot be used.
    Properties(PropertiesError),
    /// No broker is named.
    NoBootstrapServers { path: String },
    /// The topic prefix is empty or holds a character that topics may not have.
    TopicPrefix,
    /// The topic name is too long.
    TopicTooLong,
}

/// What a `ConfigError` stands for.
pub enum ConfigErrorView {
    UnsupportedBackend { value: Seq<char> },
    NotUnicode { name: Seq<char> },
    NotAnInteger { name: Seq<char>, value: Seq<char> },
    Zero { name: Seq<char> },
    UnreadableProperties { path: Seq<char>, cause: Seq<char> },
    Properties { path: Seq<char>, fault: FaultView },
    NoBootstrapServers { path: Seq<char> },
    TopicPrefix,
    TopicTooLong,
}

impl View for ConfigError {
    type V = ConfigErrorView;

    open spec fn view(&self) -> ConfigErrorView {
        match *self {
            ConfigError::UnsupportedBackend { value } => ConfigErrorView::UnsupportedBackend {
                value: value@,
            },
            ConfigError::NotUnicode { name } => ConfigErrorView::NotUnicode { name: name@ },
            ConfigError::NotAnInteger { name, value } => ConfigErrorView::NotAnInteger {
                name: name@,
                value: value@,
            },
            ConfigError::Zero { name } => ConfigErrorView::Zero { name: name@ },
            ConfigError::UnreadableProperties { path, cause } =>
                ConfigErrorView::UnreadableProperties { path: path@, cause: cause@ },
            ConfigError::Properties(error) => ConfigErrorView::Properties {
                path: error.file(),
                fault: error.fault(),
            },
            ConfigError::NoBootstrapServers { path } => ConfigErrorView::NoBootstrapServers {
                path: path@,
            },
            ConfigError::TopicPrefix => ConfigErrorView::TopicPrefix,
            ConfigError::TopicTooLong => ConfigErrorView::TopicTooLong,
        }
    }
}

/// A string as `std` writes it for debugging: in quotes, with escapes.
pub uninterp spec fn debug_text(s: Seq<char>) -> Seq<char>;

/// Calls `format!` with `{:?}`, which writes a string for debugging.
///
/// Claimed: the text depends on the string alone. What is escaped, and how, is left unsaid.
#[verifier::external_body]
fn to_debug_text(s: &str) -> (text: String)
    ensures
        text@ == debug_text(s@),
{
    format!("{s:?}")
}

impl ConfigError {
    /// What `message` says of an error.
    pub open spec fn message_of(error: ConfigErrorView) -> Seq<char> {
        match error {
            ConfigErrorView::UnsupportedBackend { value } => "unsupported WAL_BACKEND "@
                + debug_text(value) + "; expected kafka or object_store"@,
            ConfigErrorView::NotUnicode { name } => "failed to read "@ + name,
            ConfigErrorView::NotAnInteger { name, .. } => name + " must be an unsigned integer"@,
            ConfigErrorView::Zero { name } => name + " must be greater than zero"@,
            ConfigErrorView::UnreadableProperties { path, .. } =>
                "failed to read Kafka properties from "@ + path,
            ConfigErrorView::Properties { path, fault } => PropertiesError::message_of(path, fault),
            ConfigErrorView::NoBootstrapServers { path } =>
                "KAFKA_BOOTSTRAP_SERVERS is required because "@ + path
                    + " has no bootstrap.servers entry"@,
            ConfigErrorView::TopicPrefix =>
                "KAFKA_TOPIC_PREFIX must use only ASCII letters, digits, '.', '_', and '-'"@,
            ConfigErrorView::TopicTooLong => "generated Kafka topic exceeds 249 bytes"@,
        }
    }

    /// The error in words.
    pub fn message(&self) -> (text: String)
        ensures
            text@ == Self::message_of(self@),
    {
        match self {
            ConfigError::UnsupportedBackend { value } => {
                let mut text = "unsupported WAL_BACKEND ".to_owned();
                text.append(to_debug_text(value.as_str()).as_str());
                text.append("; expected kafka or object_store");
                text
            },
            ConfigError::NotUnicode { name } => {
                let mut text = "failed to read ".to_owned();
                text.append(name);
                text
            },
            ConfigError::NotAnInteger { name, .. } => {
                let mut text = (*name).to_owned();
                text.append(" must be an unsigned integer");
                text
            },
            ConfigError::Zero { name } => {
                let mut text = (*name).to_owned();
                text.append(" must be greater than zero");
                text
            },
            ConfigError::UnreadableProperties { path, .. } => {
                let mut text = "failed to read Kafka properties from ".to_owned();
                text.append(path.as_str());
                text
            },
            ConfigError::Properties(error) => error.message(),
            ConfigError::NoBootstrapServers { path } => {
                let mut text = "KAFKA_BOOTSTRAP_SERVERS is required because ".to_owned();
                text.append(path.as_str());
                text.append(" has no bootstrap.servers entry");
                text
            },
            ConfigError::TopicPrefix =>
                "KAFKA_TOPIC_PREFIX must use only ASCII letters, digits, '.', '_', and '-'".to_owned(),
            ConfigError::TopicTooLong => "generated Kafka topic exceeds 249 bytes".to_owned(),
        }
    }
}

// ---------------------------------------------------------------------------
// Single variables
// ---------------------------------------------------------------------------

/// Storage that holds the write-ahead log.
#[derive(Clone, Copy, Debug, PartialEq, Eq, Structural)]
pub enum WalBackend {
    Kafka,
    ObjectStore,
}

impl WalBackend {
    /// The backend that `WAL_BACKEND` names.
    pub open spec fn named(value: EnvView) -> Result<WalBackend, ConfigErrorView> {
        match value {
            EnvView::Unset => Ok(WalBackend::Kafka),
            EnvView::NotUnicode => Err(ConfigErrorView::NotUnicode { name: "WAL_BACKEND"@ }),
            EnvView::Value(value) => if value == WalBackend::Kafka.name() {
                Ok(WalBackend::Kafka)
            } else if value == WalBackend::ObjectStore.name() {
                Ok(WalBackend::ObjectStore)
            } else {
                Err(ConfigErrorView::UnsupportedBackend { value })
            },
        }
    }

    /// Name of the backend.
    pub open spec fn name(self) -> Seq<char> {
        match self {
            WalBackend::Kafka => "kafka"@,
            WalBackend::ObjectStore => "object_store"@,
        }
    }

    /// The backend that the variable `WAL_BACKEND` names.
    pub fn from_env(value: &EnvVar) -> (res: Result<WalBackend, ConfigError>)
        ensures
            error_viewed(res) == Self::named(value@),
    {
        match value {
            EnvVar::Unset => Ok(WalBackend::Kafka),
            EnvVar::NotUnicode => Err(ConfigError::NotUnicode { name: "WAL_BACKEND" }),
            EnvVar::Value(value) => if same_text(value.as_str(), "kafka") {
                Ok(WalBackend::Kafka)
            } else if same_text(value.as_str(), "object_store") {
                Ok(WalBackend::ObjectStore)
            } else {
                Err(ConfigError::UnsupportedBackend { value: value.clone() })
            },
        }
    }

    /// Name of the backend, as `WAL_BACKEND` spells it.
    pub fn as_str(self) -> (name: &'static str)
        ensures
            name@ == self.name(),
    {
        match self {
            WalBackend::Kafka => "kafka",
            WalBackend::ObjectStore => "object_store",
        }
    }
}

/// Reading back the name of a backend gives the backend.
pub proof fn backend_name_reads_back(backend: WalBackend)
    ensures
        WalBackend::named(EnvView::Value(backend.name())) == Ok::<WalBackend, ConfigErrorView>(
            backend,
        ),
{
    reveal_strlit("kafka");
    reveal_strlit("object_store");
    assert("kafka"@.len() != "object_store"@.len());
}

/// How the reader of a run is set up; what is not named here is left to the engine.
#[derive(Clone, Copy, Debug, PartialEq, Eq, Structural)]
pub struct ReaderSettings {
    /// Whether it follows the latest state of the database, and not one checkpoint.
    pub follow_latest: bool,
    /// Whether it follows the log.
    pub tail_wal: bool,
    /// How often it looks for a new manifest, where that is not left to the engine.
    pub manifest_poll_interval_ms: Option<u64>,
}

/// How the reader of a run on the given backend is set up.
pub fn reader_settings(backend: WalBackend) -> (settings: ReaderSettings)
    ensures
        settings.follow_latest,
        settings.tail_wal,
        settings.manifest_poll_interval_ms == (match backend {
            WalBackend::Kafka => None::<u64>,
            WalBackend::ObjectStore => Some(OBJECT_STORE_WAL_POLL_INTERVAL_MS),
        }),
{
    ReaderSettings {
        follow_latest: true,
        tail_wal: true,
        manifest_poll_interval_ms: match backend {
            WalBackend::Kafka => None,
            WalBackend::ObjectStore => Some(OBJECT_STORE_WAL_POLL_INTERVAL_MS),
        },
    }
}

/// How a record is written; what is not named here is left to the engine.
#[derive(Clone, Copy, Debug, PartialEq, Eq, Structural)]
pub struct WriteSettings {
    /// Whether the write waits until it is durable.
    pub await_durable: bool,
}

/// How the records of a run are written: without waiting until they are durable, which is what the
/// sampler measures from.
pub fn write_settings() -> (settings: WriteSettings)
    ensures
        !settings.await_durable,
{
    WriteSettings { await_durable: false }
}

/// How much is logged.
#[derive(Clone, Copy, Debug, PartialEq, Eq, Structural)]
pub enum LogVerbosity {
    Warn,
    Debug,
}

/// How much is logged, by whether `KAFKA_DEBUG` is set.
pub fn log_verbosity(debug_is_set: bool) -> (verbosity: LogVerbosity)
    ensures
        verbosity == (if debug_is_set {
            LogVerbosity::Debug
        } else {
            LogVerbosity::Warn
        }),
{
    if debug_is_set {
        LogVerbosity::Debug
    } else {
        LogVerbosity::Warn
    }
}

/// A result with what its error stands for.
pub open spec fn error_viewed<T>(res: Result<T, ConfigError>) -> Result<T, ConfigErrorView> {
    match res {
        Ok(value) => Ok(value),
        Err(error) => Err(error@),
    }
}

/// The number that a variable is set to, or `default` where it is not set.
pub open spec fn env_u64_view(
    name: Seq<char>,
    value: EnvView,
    default: u64,
) -> Result<u64, ConfigErrorView> {
    match value {
        EnvView::Unset => Ok(default),
        EnvView::NotUnicode => Err(ConfigErrorView::NotUnicode { name }),
        EnvView::Value(value) => match crate::text::parsed_u64(value) {
            Some(number) => Ok(number),
            None => Err(ConfigErrorView::NotAnInteger { name, value }),
        },
    }
}

/// The number that the variable `name` is set to, or `default` where it is not set.
pub fn env_u64(name: &'static str, value: &EnvVar, default: u64) -> (res: Result<u64, ConfigError>)
    ensures
        error_viewed(res) == env_u64_view(name@, value@, default),
{
    match value {
        EnvVar::Unset => Ok(default),
        EnvVar::NotUnicode => Err(ConfigError::NotUnicode { name }),
        EnvVar::Value(value) => match parse_u64(value.as_str()) {
            Some(number) => Ok(number),
            None => Err(ConfigError::NotAnInteger { name, value: value.clone() }),
        },
    }
}

/// The number, greater than zero, that a variable is set to, or `default` where it is not set.
pub open spec fn positive_u64_view(
    name: Seq<char>,
    value: EnvView,
    default: u64,
) -> Result<u64, ConfigErrorView> {
    match env_u64_view(name, value, default) {
        Err(error) => Err(error),
        Ok(number) => if number > 0 {
            Ok(number)
        } else {
            Err(ConfigErrorView::Zero { name })
        },
    }
}

fn positive_u64(name: &'static str, value: &EnvVar, default: u64) -> (res: Result<u64, ConfigError>)
    ensures
        error_viewed(res) == positive_u64_view(name@, value@, default),
{
    let number = match env_u64(name, value, default) {
        Ok(number) => number,
        Err(error) => return Err(error),
    };
    if number > 0 {
        Ok(number)
    } else {
        Err(ConfigError::Zero { name })
    }
}

/// Whether topics may have the character `c` in their names.
pub open spec fn topic_char(c: char) -> bool {
    ||| 'a' <= c <= 'z'
    ||| 'A' <= c <= 'Z'
    ||| '0' <= c <= '9'
    ||| c == '.'
    ||| c == '_'
    ||| c == '-'
}

/// Whether `prefix` may stand at the start of a topic name.
pub open spec fn topic_prefix(prefix: Seq<char>) -> bool {
    prefix.len() > 0 && forall|i: int| 0 <= i < prefix.len() ==> topic_char(#[trigger] prefix[i])
}

fn is_topic_prefix(prefix: &str) -> (res: bool)
    ensures
        res == topic_prefix(prefix@),
{
    let chars = chars_of(prefix);
    let mut i: usize = 0;
    while i < chars.len()
        invariant
            i <= chars@.len(),
            chars@ == prefix@,
            forall|k: int| 0 <= k < i ==> topic_char(#[trigger] prefix@[k]),
        decreases chars@.len() - i,
    {
        let c = chars[i];
        if !(('a' <= c && c <= 'z') || ('A' <= c && c <= 'Z') || ('0' <= c && c <= '9') || c == '.'
            || c == '_' || c == '-') {
            assert(!topic_char(prefix@[i as int]));
            return false;
        }
        i += 1;
    }
    chars.len() > 0
}

/// Whether `s` is white space alone.
fn is_blank(s: &str) -> (res: bool)
    ensures
        res == (crate::text::trim(s@).len() == 0),
{
    let chars = chars_of(s);
    let (from, to) = trim_range(&chars, 0, chars.len());
    assert(chars@.subrange(0, chars@.len() as int) == s@);
    from == to
}

// ---------------------------------------------------------------------------
// The configuration of a run
// ---------------------------------------------------------------------------

/// Where the properties file is, by what `KAFKA_CLIENT_PROPERTIES` is set to.
pub fn properties_path(variable: Option<String>) -> (path: String)
    ensures
        path@ == (match variable {
            Some(path) => path@,
            None => DEFAULT_PROPERTIES_PATH@,
        }),
{
    match variable {
        Some(path) => path,
        None => DEFAULT_PROPERTIES_PATH.to_owned(),
    }
}

/// What the configuration of the Kafka backend is made of.
#[derive(Debug)]
pub struct KafkaInputs {
    /// Where the properties file is.
    pub properties_path: String,
    /// The text of the properties file, or why it could not be read.
    pub properties: Result<String, String>,
    /// `KAFKA_BOOTSTRAP_SERVERS`.
    pub bootstrap_servers: EnvVar,
    /// `KAFKA_COMMIT_INTERVAL_MS`.
    pub commit_interval_ms: EnvVar,
    /// `KAFKA_TOPIC_PREFIX`.
    pub topic_prefix: EnvVar,
}

/// Configuration of the Kafka backend.
#[derive(Debug)]
pub struct KafkaBenchmarkConfig {
    pub bootstrap_servers: String,
    pub client_properties: Properties,
    pub commit_interval_ms: u64,
    pub properties_path: String,
    pub topic: String,
}

/// What a `KafkaBenchmarkConfig` stands for.
pub struct KafkaConfigView {
    pub bootstrap_servers: Seq<char>,
    pub client_properties: Map<Seq<char>, Seq<char>>,
    pub commit_interval_ms: u64,
    pub properties_path: Seq<char>,
    pub topic: Seq<char>,
}

impl View for KafkaBenchmarkConfig {
    type V = KafkaConfigView;

    open spec fn view(&self) -> KafkaConfigView {
        KafkaConfigView {
            bootstrap_servers: self.bootstrap_servers@,
            client_properties: self.client_properties@,
            commit_interval_ms: self.commit_interval_ms,
            properties_path: self.properties_path@,
            topic: self.topic@,
        }
    }
}

/// The brokers, and the properties that are left for the client: the variable goes before the
/// properties file, whose entry is used up where the variable does not say.
pub open spec fn brokers_view(
    variable: EnvView,
    properties: Map<Seq<char>, Seq<char>>,
) -> (Option<Seq<char>>, Map<Seq<char>, Seq<char>>) {
    match variable {
        EnvView::Value(value) => (Some(value), properties),
        _ => (
            if properties.contains_key("bootstrap.servers"@) {
                Some(properties["bootstrap.servers"@])
            } else {
                None
            },
            properties.remove("bootstrap.servers"@),
        ),
    }
}

/// The topic of a run.
pub open spec fn topic_view(variable: EnvView, run_id: Seq<char>) -> Result<
    Seq<char>,
    ConfigErrorView,
> {
    let prefix = match variable {
        EnvView::Value(prefix) => prefix,
        _ => DEFAULT_TOPIC_PREFIX@,
    };
    let topic = prefix + "-"@ + run_id;
    if !topic_prefix(prefix) {
        Err(ConfigErrorView::TopicPrefix)
    } else if encode_utf8(topic).len() > MAX_TOPIC_BYTES {
        Err(ConfigErrorView::TopicTooLong)
    } else {
        Ok(topic)
    }
}

/// The topic of a run.
fn topic_of(variable: &EnvVar, run_id: &str) -> (res: Result<String, ConfigError>)
    ensures
        match res {
            Ok(topic) => topic_view(variable@, run_id@) == Ok::<Seq<char>, ConfigErrorView>(topic@),
            Err(error) => topic_view(variable@, run_id@) == Err::<Seq<char>, ConfigErrorView>(
                error@,
            ),
        },
{
    let prefix = match variable {
        EnvVar::Value(prefix) => prefix.as_str(),
        _ => DEFAULT_TOPIC_PREFIX,
    };
    if !is_topic_prefix(prefix) {
        return Err(ConfigError::TopicPrefix);
    }
    let mut topic = prefix.to_owned();
    topic.append("-");
    topic.append(run_id);
    if topic.as_str().as_bytes().len() > MAX_TOPIC_BYTES {
        return Err(ConfigError::TopicTooLong);
    }
    Ok(topic)
}

impl KafkaBenchmarkConfig {
    /// What the configuration of the Kafka backend comes to; where several things are wrong, the
    /// first of them is reported.
    pub open spec fn configured(run_id: Seq<char>, inputs: KafkaInputs) -> Result<
        KafkaConfigView,
        ConfigErrorView,
    > {
        let path = inputs.properties_path@;
        match inputs.properties {
            Err(cause) => Err(ConfigErrorView::UnreadableProperties { path, cause: cause@ }),
            Ok(contents) => match crate::properties::file_view(contents@) {
                Err(fault) => Err(ConfigErrorView::Properties { path, fault }),
                Ok(properties) => {
                    let (brokers, client_properties) = brokers_view(
                        inputs.bootstrap_servers@,
                        properties,
                    );
                    if brokers is None || crate::text::trim(brokers->0).len() == 0 {
                        Err(ConfigErrorView::NoBootstrapServers { path })
                    } else {
                        match positive_u64_view(
                            "KAFKA_COMMIT_INTERVAL_MS"@,
                            inputs.commit_interval_ms@,
                            DEFAULT_COMMIT_INTERVAL_MS,
                        ) {
                            Err(error) => Err(error),
                            Ok(commit_interval_ms) => match topic_view(
                                inputs.topic_prefix@,
                                run_id,
                            ) {
                                Err(error) => Err(error),
                                Ok(topic) => Ok(
                                    KafkaConfigView {
                                        bootstrap_servers: brokers->0,
                                        client_properties,
                                        commit_interval_ms,
                                        properties_path: path,
                                        topic,
                                    },
                                ),
                            },
                        }
                    }
                },
            },
        }
    }

    /// The configuration of the Kafka backend for a run.
    pub fn from_env(run_id: &str, inputs: KafkaInputs) -> (res: Result<
        KafkaBenchmarkConfig,
        ConfigError,
    >)
        ensures
            match res {
                Ok(config) => Self::configured(run_id@, inputs) == Ok::<
                    KafkaConfigView,
                    ConfigErrorView,
                >(config@),
                Err(error) => Self::configured(run_id@, inputs) == Err::<
                    KafkaConfigView,
                    ConfigErrorView,
                >(error@),
            },
    {
        let contents = match inputs.properties {
            Ok(contents) => contents,
            Err(cause) => return Err(
                ConfigError::UnreadableProperties { path: inputs.properties_path, cause },
            ),
        };
        let mut client_properties = match read_properties(
            inputs.properties_path.as_str(),
            contents.as_str(),
        ) {
            Ok(properties) => properties,
            Err(error) => return Err(ConfigError::Properties(error)),
        };
        let brokers = match inputs.bootstrap_servers {
            EnvVar::Value(value) => Some(value),
            _ => client_properties.remove("bootstrap.servers"),
        };
        let bootstrap_servers = match brokers {
            Some(value) => value,
            None => return Err(
                ConfigError::NoBootstrapServers { path: inputs.properties_path },
            ),
        };
        if is_blank(bootstrap_servers.as_str()) {
            return Err(ConfigError::NoBootstrapServers { path: inputs.properties_path });
        }
        let commit_interval_ms = match positive_u64(
            "KAFKA_COMMIT_INTERVAL_MS",
            &inputs.commit_interval_ms,
            DEFAULT_COMMIT_INTERVAL_MS,
        ) {
            Ok(number) => number,
            Err(error) => return Err(error),
        };
        let topic = match topic_of(&inputs.topic_prefix, run_id) {
            Ok(topic) => topic,
            Err(error) => return Err(error),
        };
        Ok(
            KafkaBenchmarkConfig {
                bootstrap_servers,
                client_properties,
                commit_interval_ms,
                properties_path: inputs.properties_path,
                topic,
            },
        )
    }
}

/// A run whose backend is settled.
#[derive(Debug)]
pub struct BenchmarkPlan {
    pub backend: WalBackend,
    pub duration_seconds: u64,
    pub run_id: String,
    pub db_path: String,
}

/// What a `BenchmarkPlan` stands for.
pub struct PlanView {
    pub backend: WalBackend,
    pub duration_seconds: u64,
    pub run_id: Seq<char>,
    pub db_path: Seq<char>,
}

impl View for BenchmarkPlan {
    type V = PlanView;

    open spec fn view(&self) -> PlanView {
        PlanView {
            backend: self.backend,
            duration_seconds: self.duration_seconds,
            run_id: self.run_id@,
            db_path: self.db_path@,
        }
    }
}

/// Configuration of a run.
#[derive(Debug)]
pub struct BenchmarkConfig {
    pub backend: WalBackend,
    pub duration_seconds: u64,
    pub run_id: String,
    pub db_path: String,
    pub kafka: Option<KafkaBenchmarkConfig>,
}

/// What a `BenchmarkConfig` stands for.
pub struct ConfigView {
    pub plan: PlanView,
    pub kafka: Option<KafkaConfigView>,
}

impl View for BenchmarkConfig {
    type V = ConfigView;

    open spec fn view(&self) -> ConfigView {
        ConfigView {
            plan: PlanView {
                backend: self.backend,
                duration_seconds: self.duration_seconds,
                run_id: self.run_id@,
                db_path: self.db_path@,
            },
            kafka: match self.kafka {
                Some(kafka) => Some(kafka@),
                None => None,
            },
        }
    }
}

/// The path, in the bucket, of the database of a run.
pub open spec fn db_path_view(run_id: Seq<char>) -> Seq<char> {
    S3_PREFIX@ + "/"@ + run_id
}

impl BenchmarkPlan {
    /// What `WAL_BACKEND` and `TEST_DURATION_SECONDS` come to.
    pub open spec fn planned(backend: EnvView, duration: EnvView, run_id: Seq<char>) -> Result<
        PlanView,
        ConfigErrorView,
    > {
        match WalBackend::named(backend) {
            Err(error) => Err(error),
            Ok(backend) => match positive_u64_view(
                "TEST_DURATION_SECONDS"@,
                duration,
                DEFAULT_TEST_DURATION_SECONDS,
            ) {
                Err(error) => Err(error),
                Ok(duration_seconds) => Ok(
                    PlanView {
                        backend,
                        duration_seconds,
                        run_id,
                        db_path: db_path_view(run_id),
                    },
                ),
            },
        }
    }

    /// Settles the backend and the duration of a run, from `WAL_BACKEND` and
    /// `TEST_DURATION_SECONDS`.
    pub fn from_env(backend: &EnvVar, duration: &EnvVar, run_id: String) -> (res: Result<
        BenchmarkPlan,
        ConfigError,
    >)
        ensures
            match res {
                Ok(plan) => Self::planned(backend@, duration@, run_id@) == Ok::<
                    PlanView,
                    ConfigErrorView,
                >(plan@),
                Err(error) => Self::planned(backend@, duration@, run_id@) == Err::<
                    PlanView,
                    ConfigErrorView,
                >(error@),
            },
    {
        let backend = match WalBackend::from_env(backend) {
            Ok(backend) => backend,
            Err(error) => return Err(error),
        };
        let duration_seconds = match positive_u64(
            "TEST_DURATION_SECONDS",
            duration,
            DEFAULT_TEST_DURATION_SECONDS,
        ) {
            Ok(number) => number,
            Err(error) => return Err(error),
        };
        let mut db_path = S3_PREFIX.to_owned();
        db_path.append("/");
        db_path.append(run_id.as_str());
        Ok(BenchmarkPlan { backend, duration_seconds, run_id, db_path })
    }

    /// Whether the run needs the inputs of the Kafka backend.
    pub fn needs_kafka(&self) -> (res: bool)
        ensures
            res == (self.backend == WalBackend::Kafka),
    {
        match self.backend {
            WalBackend::Kafka => true,
            WalBackend::ObjectStore => false,
        }
    }
}

impl BenchmarkConfig {
    /// What a plan and the inputs of the Kafka backend come to.
    pub open spec fn configured(plan: PlanView, kafka: Option<KafkaInputs>) -> Result<
        ConfigView,
        ConfigErrorView,
    > {
        match plan.backend {
            WalBackend::ObjectStore => Ok(ConfigView { plan, kafka: None }),
            WalBackend::Kafka => match KafkaBenchmarkConfig::configured(plan.run_id, kafka->0) {
                Ok(kafka) => Ok(ConfigView { plan, kafka: Some(kafka) }),
                Err(error) => Err(error),
            },
        }
    }

    /// The configuration of a run.
    pub fn from_env(plan: BenchmarkPlan, kafka: Option<KafkaInputs>) -> (res: Result<
        BenchmarkConfig,
        ConfigError,
    >)
        requires
            plan.backend == WalBackend::Kafka ==> kafka is Some,
        ensures
            match res {
                Ok(config) => Self::configured(plan@, kafka) == Ok::<ConfigView, ConfigErrorView>(
                    config@,
                ),
                Err(error) => Self::configured(plan@, kafka) == Err::<ConfigView, ConfigErrorView>(
                    error@,
                ),
            },
    {
        let kafka = match plan.backend {
            WalBackend::Kafka => match kafka {
                Some(inputs) => match KafkaBenchmarkConfig::from_env(plan.run_id.as_str(), inputs) {
                    Ok(config) => Some(config),
                    Err(error) => return Err(error),
                },
                None => None,
            },
            WalBackend::ObjectStore => None,
        };
        Ok(
            BenchmarkConfig {
                backend: plan.backend,
                duration_seconds: plan.duration_seconds,
                run_id: plan.run_id,
                db_path: plan.db_path,
                kafka,
            },
        )
    }
}

/// A run on the object store has no Kafka configuration, whatever the Kafka variables and the
/// properties file say; a run on Kafka has one.
pub proof fn kafka_is_configured_for_kafka_alone(plan: PlanView, kafka: Option<KafkaInputs>)
    requires
        plan.backend == WalBackend::Kafka ==> kafka is Some,
    ensures
        plan.backend == WalBackend::ObjectStore ==> BenchmarkConfig::configured(plan, kafka) == Ok::<
            ConfigView,
            ConfigErrorView,
        >(ConfigView { plan, kafka: None }),
        BenchmarkConfig::configured(plan, kafka) matches Ok(config) ==> (config.kafka is Some
            <==> plan.backend == WalBackend::Kafka),
{
}

/// Without a prefix of its own, every run gets the topic that is named after its run identifier.
pub proof fn every_run_has_its_default_topic(id: u128)
    ensures
        topic_view(EnvView::Unset, crate::ids::run_id_text(id)) == Ok::<
            Seq<char>,
            ConfigErrorView,
        >("slatedb-kafka-wal-example-"@ + crate::ids::run_id_text(id)),
{
    let run_id = crate::ids::run_id_text(id);
    let prefix = DEFAULT_TOPIC_PREFIX@;
    let topic = prefix + "-"@ + run_id;
    reveal_strlit("slatedb-kafka-wal-example");
    reveal_strlit("slatedb-kafka-wal-example-");
    reveal_strlit("-");
    assert(prefix + "-"@ == "slatedb-kafka-wal-example-"@);
    assert(topic_prefix(prefix));
    crate::ids::lemma_base32_digits(id as nat, 26);
    assert forall|i: int| 0 <= i < topic.len() implies '\0' <= #[trigger] topic[i] <= '\u{7f}' by {
        if i >= 26 {
            let d = choose|d: int|
                0 <= d < 32 && crate::ids::ulid_text(id)[i - 26] == crate::ids::base32_char(d);
            assert(topic[i] == crate::text::ascii_lower(crate::ids::base32_char(d)));
        }
    }
    is_ascii_chars_encode_utf8(topic);
}

/// Different runs keep their data apart: neither their databases nor, with the same prefix, their
/// topics have the same name.
pub proof fn runs_are_kept_apart(a: u128, b: u128, prefix: EnvView)
    requires
        a != b,
    ensures
        db_path_view(crate::ids::run_id_text(a)) != db_path_view(crate::ids::run_id_text(b)),
        topic_view(prefix, crate::ids::run_id_text(a)) is Ok ==> topic_view(
            prefix,
            crate::ids::run_id_text(a),
        ) != topic_view(prefix, crate::ids::run_id_text(b)),
{
    let x = crate::ids::run_id_text(a);
    let y = crate::ids::run_id_text(b);
    if x == y {
        crate::ids::run_ids_are_distinct(a, b);
    }
    let base = S3_PREFIX@ + "/"@;
    assert((base + x).skip(base.len() as int) == x);
    assert((base + y).skip(base.len() as int) == y);
    let start = match prefix {
        EnvView::Value(value) => value,
        _ => DEFAULT_TOPIC_PREFIX@,
    } + "-"@;
    assert((start + x).skip(start.len() as int) == x);
    assert((start + y).skip(start.len() as int) == y);
}

/// A run for which nothing is said is one of sixty seconds on Kafka.
pub proof fn defaults_are_kafka_for_a_minute(run_id: Seq<char>)
    ensures
        BenchmarkPlan::planned(EnvView::Unset, EnvView::Unset, run_id) == Ok::<
            PlanView,
            ConfigErrorView,
        >(
            PlanView {
                backend: WalBackend::Kafka,
                duration_seconds: 60,
                run_id,
                db_path: "wal-rfc-proto/"@ + run_id,
            },
        ),
{
    reveal_strlit("wal-rfc-proto");
    reveal_strlit("/");
    reveal_strlit("wal-rfc-proto/");
    assert(S3_PREFIX@ + "/"@ == "wal-rfc-proto/"@);
}

} // verus!
