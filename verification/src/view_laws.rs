//! What values stand for: their own fields, each in its place, and errors their own words.

use vstd::prelude::*;

use crate::capture::{ManifestRead, ReadView};
use crate::config::{
    BenchmarkConfig, BenchmarkPlan, ConfigError, ConfigErrorView, EnvVar, EnvView,
    KafkaBenchmarkConfig, WalBackend,
};
use crate::inventory::{ErrorView, SlateDbError, StorageViewInventoryError};
use crate::kafka::{AdminTokenError, TokenError, TopicError};
use crate::object_path::ObjectPath;
use crate::opening::OpenSettings;
use crate::properties::{FaultView, PropertiesError};
use crate::report::BenchmarkError;
use crate::sampler::{SampleError, WaitError, WaitPhase};
use crate::storage_view::{StorageViewObject, StorageViewRevision};
use crate::writer::WriteError;

verus! {

/// Objects, revisions and reads stand for their fields.
pub proof fn inventory_values_stand_for_their_fields(
    object: StorageViewObject,
    revision: StorageViewRevision,
    path: ObjectPath,
    manifest_id: u64,
)
    ensures
        object@.store == object.store,
        object@.kind == object.kind,
        object@.path == object.path@,
        revision@.db_path == revision.db_path@,
        revision@.manifest_id == revision.manifest_id,
        (ManifestRead::Latest { path })@ == (ReadView::Latest { path: path@ }),
        (ManifestRead::Pinned { path, manifest_id })@ == (ReadView::Pinned {
            path: path@,
            manifest_id,
        }),
{
}

/// Errors of a capture stand for what they hold, and a result for its value or its error.
pub proof fn capture_errors_stand_for_what_they_hold(
    db_path: String,
    expected: u64,
    observed: u64,
    checkpoint_id: u128,
    reason: &'static str,
    error: SlateDbError,
    failure: StorageViewInventoryError,
    value: u64,
)
    ensures
        (StorageViewInventoryError::RevisionChanged { db_path, expected, observed })@ == (
        ErrorView::RevisionChanged { db_path: db_path@, expected, observed }),
        (StorageViewInventoryError::CheckpointMissing { db_path, checkpoint_id })@ == (
        ErrorView::CheckpointMissing { db_path: db_path@, checkpoint_id }),
        (StorageViewInventoryError::InvalidGraph { reason })@ == (ErrorView::InvalidGraph {
            reason: reason@,
        }),
        (StorageViewInventoryError::SlateDb(error))@ == (ErrorView::SlateDb {
            message: error.message@,
        }),
        crate::inventory::viewed(Ok::<u64, StorageViewInventoryError>(value)) == Ok::<
            u64,
            ErrorView,
        >(value),
        crate::inventory::viewed(Err::<u64, StorageViewInventoryError>(failure)) == Err::<
            u64,
            ErrorView,
        >(failure@),
{
}

/// Variables, plans and configurations stand for their fields.
pub proof fn configuration_values_stand_for_their_fields(
    text: String,
    plan: BenchmarkPlan,
    config: BenchmarkConfig,
    kafka: KafkaBenchmarkConfig,
)
    ensures
        EnvVar::Unset@ == EnvView::Unset,
        EnvVar::NotUnicode@ == EnvView::NotUnicode,
        EnvVar::Value(text)@ == EnvView::Value(text@),
        plan@.backend == plan.backend,
        plan@.duration_seconds == plan.duration_seconds,
        plan@.run_id == plan.run_id@,
        plan@.db_path == plan.db_path@,
        config@.plan.backend == config.backend,
        config@.plan.duration_seconds == config.duration_seconds,
        config@.plan.run_id == config.run_id@,
        config@.plan.db_path == config.db_path@,
        config.kafka is None <==> config@.kafka is None,
        config.kafka matches Some(inner) ==> config@.kafka == Some(inner@),
        kafka@.bootstrap_servers == kafka.bootstrap_servers@,
        kafka@.client_properties == kafka.client_properties@,
        kafka@.commit_interval_ms == kafka.commit_interval_ms,
        kafka@.properties_path == kafka.properties_path@,
        kafka@.topic == kafka.topic@,
{
}

/// What a run is opened on stands for its fields, and is what the configuration says.
pub proof fn opening_values_stand_for_their_fields(settings: OpenSettings, config: BenchmarkConfig)
    ensures
        settings@.db_path == settings.db_path@,
        settings.log is None <==> settings@.log is None,
        settings.log matches Some(log) ==> (settings@.log matches Some(view) && view.topic
            == log.topic@ && view.commit_interval_ms == log.commit_interval_ms),
        crate::opening::opened_on(config@).db_path == config.db_path@,
        config.kafka is None <==> crate::opening::opened_on(config@).log is None,
        config.kafka matches Some(kafka) ==> (crate::opening::opened_on(config@).log matches Some(
            view,
        ) && view.topic == kafka.topic@ && view.commit_interval_ms == kafka.commit_interval_ms),
{
}

/// Errors of a configuration stand for what they hold.
pub proof fn configuration_errors_stand_for_what_they_hold(
    value: String,
    name: &'static str,
    path: String,
    cause: String,
    error: PropertiesError,
    failure: ConfigError,
    number: u64,
)
    ensures
        (ConfigError::UnsupportedBackend { value })@ == (ConfigErrorView::UnsupportedBackend {
            value: value@,
        }),
        (ConfigError::NotUnicode { name })@ == (ConfigErrorView::NotUnicode { name: name@ }),
        (ConfigError::NotAnInteger { name, value })@ == (ConfigErrorView::NotAnInteger {
            name: name@,
            value: value@,
        }),
        (ConfigError::Zero { name })@ == (ConfigErrorView::Zero { name: name@ }),
        (ConfigError::UnreadableProperties { path, cause })@ == (
        ConfigErrorView::UnreadableProperties { path: path@, cause: cause@ }),
        ConfigError::Properties(error)@ == (ConfigErrorView::Properties {
            path: error.file(),
            fault: error.fault(),
        }),
        (ConfigError::NoBootstrapServers { path })@ == (ConfigErrorView::NoBootstrapServers {
            path: path@,
        }),
        ConfigError::TopicPrefix@ == ConfigErrorView::TopicPrefix,
        ConfigError::TopicTooLong@ == ConfigErrorView::TopicTooLong,
        crate::config::error_viewed(Ok::<u64, ConfigError>(number)) == Ok::<u64, ConfigErrorView>(
            number,
        ),
        crate::config::error_viewed(Err::<u64, ConfigError>(failure)) == Err::<
            u64,
            ConfigErrorView,
        >(failure@),
{
}

// ---------------------------------------------------------------------------
// Words
// ---------------------------------------------------------------------------

/// What is said of a capture that failed holds the path and the numbers of the failure.
pub proof fn capture_errors_say_what_went_wrong(
    db_path: Seq<char>,
    expected: u64,
    observed: u64,
    checkpoint_id: u128,
    text: Seq<char>,
)
    ensures
        StorageViewInventoryError::message_of(
            ErrorView::RevisionChanged { db_path, expected, observed },
        ) == "storage view revision changed. db_path=`"@ + db_path + "`, expected=`"@
            + crate::text::decimal(expected as nat) + "`, observed=`"@ + crate::text::decimal(
            observed as nat,
        ) + "`"@,
        StorageViewInventoryError::message_of(
            ErrorView::CheckpointMissing { db_path, checkpoint_id },
        ) == "checkpoint missing. db_path=`"@ + db_path + "`, checkpoint_id=`"@
            + crate::ids::uuid_text(checkpoint_id) + "`"@,
        StorageViewInventoryError::message_of(ErrorView::InvalidGraph { reason: text })
            == "invalid storage view graph: "@ + text,
        StorageViewInventoryError::message_of(ErrorView::SlateDb { message: text }) == text,
{
}

/// What is said of a configuration that cannot be used names the variable, the file or the line.
pub proof fn configuration_errors_say_what_went_wrong(
    name: Seq<char>,
    value: Seq<char>,
    path: Seq<char>,
    cause: Seq<char>,
    line: nat,
)
    ensures
        ConfigError::message_of(ConfigErrorView::UnsupportedBackend { value })
            == "unsupported WAL_BACKEND "@ + crate::config::debug_text(value)
            + "; expected kafka or object_store"@,
        ConfigError::message_of(ConfigErrorView::NotUnicode { name }) == "failed to read "@ + name,
        ConfigError::message_of(ConfigErrorView::NotAnInteger { name, value }) == name
            + " must be an unsigned integer"@,
        ConfigError::message_of(ConfigErrorView::Zero { name }) == name
            + " must be greater than zero"@,
        ConfigError::message_of(ConfigErrorView::UnreadableProperties { path, cause })
            == "failed to read Kafka properties from "@ + path,
        ConfigError::message_of(
            ConfigErrorView::Properties { path, fault: FaultView::NoValue { line } },
        ) == "invalid Kafka property at "@ + path + ":"@ + crate::text::decimal(line)
            + "; expected key=value"@,
        ConfigError::message_of(
            ConfigErrorView::Properties { path, fault: FaultView::NoKey { line } },
        ) == "empty Kafka property key at "@ + path + ":"@ + crate::text::decimal(line),
        ConfigError::message_of(ConfigErrorView::NoBootstrapServers { path })
            == "KAFKA_BOOTSTRAP_SERVERS is required because "@ + path
            + " has no bootstrap.servers entry"@,
        ConfigError::message_of(ConfigErrorView::TopicPrefix)
            == "KAFKA_TOPIC_PREFIX must use only ASCII letters, digits, '.', '_', and '-'"@,
        ConfigError::message_of(ConfigErrorView::TopicTooLong)
            == "generated Kafka topic exceeds 249 bytes"@,
        PropertiesError::message_of(path, FaultView::NoValue { line })
            == "invalid Kafka property at "@ + path + ":"@ + crate::text::decimal(line)
            + "; expected key=value"@,
        PropertiesError::message_of(path, FaultView::NoKey { line })
            == "empty Kafka property key at "@ + path + ":"@ + crate::text::decimal(line),
        WalBackend::Kafka.name() == "kafka"@,
        WalBackend::ObjectStore.name() == "object_store"@,
{
}

/// What is said of tokens and topics that could not be had holds why.
pub proof fn kafka_errors_say_what_went_wrong(
    cause: String,
    code: String,
    message: String,
    name: String,
    error: String,
    token: AdminTokenError,
)
    ensures
        TokenError::ThreadPanicked.text() == "MSK OAuth token thread panicked"@,
        (TokenError::TimedOut { cause }).text() == "MSK OAuth token generation timed out: "@
            + cause@,
        (TokenError::Failed { cause }).text() == cause@,
        AdminTokenError::NullInToken.text() == "MSK token contains a null byte"@,
        AdminTokenError::NullInPrincipal.text() == "MSK principal contains a null byte"@,
        (AdminTokenError::Refused { code, message }).text()
            == "failed to install MSK OAuth token on admin client ("@ + code@ + "): "@ + message@,
        (TopicError::NoClient { cause }).text() == "failed to create the Kafka admin client"@,
        TopicError::Token(token).text() == token.text(),
        (TopicError::TimedOut { cause }).text() == "timed out creating the Kafka topic"@,
        (TopicError::Failed { cause }).text() == "Kafka topic creation request failed"@,
        TopicError::NoReply.text() == "Kafka returned no topic creation result"@,
        (TopicError::Refused { name, error }).text() == "failed to create Kafka topic "@ + name@
            + ": "@ + error@,
{
}

/// What is said of a run that failed names the phase and the sequence number.
pub proof fn run_errors_say_what_went_wrong(
    phase: WaitPhase,
    reason: String,
    target_seq: u64,
    cause: String,
    wait: WaitError,
    sample: SampleError,
    write: WriteError,
)
    ensures
        WaitPhase::Durability.text() == "writer durability"@,
        WaitPhase::Visibility.text() == "reader visibility"@,
        (WaitError::Closed { phase, reason }).text() == "database closed during "@ + phase.text()
            + ": "@ + reason@,
        (WaitError::ChannelClosed { phase, target_seq, cause }).text()
            == "status channel closed during "@ + phase.text() + " for sequence "@
            + crate::text::decimal(target_seq as nat),
        (WaitError::TimedOut { phase, target_seq, cause }).text() == "timed out during "@
            + phase.text() + " for sequence "@ + crate::text::decimal(target_seq as nat),
        SampleError::Wait(wait).text() == wait.text(),
        (SampleError::GetFailed { seq: target_seq, cause }).text()
            == "reader get failed for sequence "@ + crate::text::decimal(target_seq as nat),
        (SampleError::ValueMismatch { seq: target_seq }).text()
            == "reader value mismatch at sequence "@ + crate::text::decimal(target_seq as nat),
        (BenchmarkError::WriterPanicked { cause }).text() == "writer task panicked"@,
        BenchmarkError::WriterFailed(write).text() == "writer task failed"@,
        BenchmarkError::Sampling(sample).text() == sample.text(),
        (BenchmarkError::ReaderClose { cause }).text() == "failed to close the reader"@,
        (BenchmarkError::WriterClose { cause }).text() == "failed to close the writer"@,
        BenchmarkError::NoSamples.text() == "benchmark produced no samples"@,
{
}

// ---------------------------------------------------------------------------
// Settings that do not change
// ---------------------------------------------------------------------------

/// Where runs keep their data, how fast they write and sample, and how long they wait.
pub proof fn runs_have_fixed_settings()
    ensures
        crate::config::AWS_REGION@ == "us-west-2"@,
        crate::config::S3_BUCKET@ == "opendata-vector-bench"@,
        crate::config::S3_PREFIX@ == "wal-rfc-proto"@,
        crate::config::DEFAULT_PROPERTIES_PATH@ == "client.properties"@,
        crate::config::DEFAULT_TOPIC_PREFIX@ == "slatedb-kafka-wal-example"@,
        crate::config::DEFAULT_TEST_DURATION_SECONDS == 60,
        crate::config::DEFAULT_COMMIT_INTERVAL_MS == 100,
        crate::config::OBJECT_STORE_WAL_POLL_INTERVAL_MS == 10,
        crate::config::MAX_TOPIC_BYTES == 249,
        crate::writer::WRITE_INTERVAL_MS == 1,
        crate::writer::MAX_IN_FLIGHT_WRITES == 4096,
        crate::writer::KEY_SIZE == 32,
        crate::writer::VALUE_SIZE == 512,
        crate::sampler::SAMPLE_INTERVAL_MS == 100,
        crate::sampler::STATUS_TIMEOUT_SECONDS == 60,
        crate::kafka::OAUTH_TOKEN_TIMEOUT_SECONDS == 10,
        crate::kafka::ADMIN_TIMEOUT_SECONDS == 30,
        crate::kafka::TOPIC_PARTITIONS == 1,
        crate::kafka::TOPIC_REPLICATION == -1,
        crate::kafka::NO_ERROR == 0,
        crate::tables::ID_WIDTH == 20,
{
}

} // verus!
