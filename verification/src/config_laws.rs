//! What a configuration comes to, stated over the variables and the entries of the properties file.

use vstd::prelude::*;
use vstd::utf8::*;

use crate::config::{
    BenchmarkConfig, BenchmarkPlan, ConfigErrorView, ConfigView, EnvView, KafkaBenchmarkConfig,
    KafkaConfigView, KafkaInputs, PlanView, WalBackend,
};
use crate::properties::FaultView;

verus! {

// ---------------------------------------------------------------------------
// Single variables
// ---------------------------------------------------------------------------

/// Whether a variable names a backend: by its name, or Kafka where it is not set.
pub open spec fn names_backend(variable: EnvView, backend: WalBackend) -> bool {
    match backend {
        WalBackend::Kafka => variable == EnvView::Unset || variable == EnvView::Value("kafka"@),
        WalBackend::ObjectStore => variable == EnvView::Value("object_store"@),
    }
}

/// The backend is the one that the variable names; another text, and one that is not Unicode, is
/// refused.
pub proof fn backends_are_named(variable: EnvView, backend: WalBackend)
    ensures
        WalBackend::named(variable) == Ok::<WalBackend, ConfigErrorView>(backend)
            <==> names_backend(variable, backend),
        variable == EnvView::NotUnicode ==> WalBackend::named(variable) == Err::<
            WalBackend,
            ConfigErrorView,
        >(ConfigErrorView::NotUnicode { name: "WAL_BACKEND"@ }),
        variable matches EnvView::Value(value) && value != "kafka"@ && value != "object_store"@
            ==> WalBackend::named(variable) == Err::<WalBackend, ConfigErrorView>(
            ConfigErrorView::UnsupportedBackend { value: variable->Value_0 },
        ),
{
    reveal_strlit("kafka");
    reveal_strlit("object_store");
    assert("kafka"@.len() != "object_store"@.len());
}

/// Whether a variable asks for a number: it spells it out, or is not set where that is the default.
pub open spec fn asks_for_number(variable: EnvView, default: u64, n: u64) -> bool {
    match variable {
        EnvView::Unset => n == default,
        EnvView::NotUnicode => false,
        EnvView::Value(value) => crate::text_laws::spells(value, n as nat),
    }
}

/// A number is what its variable asks for; a text that spells none, and one that is not Unicode, is
/// refused.
pub proof fn numbers_are_what_is_asked_for(
    name: Seq<char>,
    variable: EnvView,
    default: u64,
    n: u64,
)
    ensures
        crate::config::env_u64_view(name, variable, default) == Ok::<u64, ConfigErrorView>(n)
            <==> asks_for_number(variable, default, n),
        variable == EnvView::NotUnicode ==> crate::config::env_u64_view(name, variable, default)
            == Err::<u64, ConfigErrorView>(ConfigErrorView::NotUnicode { name }),
        variable matches EnvView::Value(value) && (forall|m: u64|
            !#[trigger] crate::text_laws::spells(value, m as nat)) ==> crate::config::env_u64_view(
            name,
            variable,
            default,
        ) == Err::<u64, ConfigErrorView>(
            ConfigErrorView::NotAnInteger { name, value: variable->Value_0 },
        ),
{
    if let EnvView::Value(value) = variable {
        crate::text_laws::numbers_are_read_as_they_are_spelt(value, n);
        crate::text_laws::other_texts_spell_no_number(value);
    }
}

/// A number that must not be zero is refused exactly where it is.
pub proof fn zero_is_refused(name: Seq<char>, variable: EnvView, default: u64, n: u64)
    requires
        asks_for_number(variable, default, n),
    ensures
        n > 0 ==> crate::config::positive_u64_view(name, variable, default) == Ok::<
            u64,
            ConfigErrorView,
        >(n),
        n == 0 ==> crate::config::positive_u64_view(name, variable, default) == Err::<
            u64,
            ConfigErrorView,
        >(ConfigErrorView::Zero { name }),
{
    numbers_are_what_is_asked_for(name, variable, default, n);
}

/// Why a variable asks for no number.
pub open spec fn no_number(variable: EnvView, name: Seq<char>, error: ConfigErrorView) -> bool {
    match variable {
        EnvView::Unset => false,
        EnvView::NotUnicode => error == (ConfigErrorView::NotUnicode { name }),
        EnvView::Value(value) => {
            &&& forall|m: u64| !#[trigger] crate::text_laws::spells(value, m as nat)
            &&& error == (ConfigErrorView::NotAnInteger { name, value })
        },
    }
}

proof fn lemma_no_number(name: Seq<char>, variable: EnvView, default: u64, error: ConfigErrorView)
    requires
        no_number(variable, name, error),
    ensures
        crate::config::positive_u64_view(name, variable, default) == Err::<u64, ConfigErrorView>(
            error,
        ),
{
    numbers_are_what_is_asked_for(name, variable, default, 0);
}

// ---------------------------------------------------------------------------
// The plan of a run
// ---------------------------------------------------------------------------

/// A run is on the backend that is named, lasts exactly as many seconds as are asked for, or sixty,
/// has the identifier that it is given, and keeps its database under the prefix and that identifier.
pub proof fn runs_last_as_long_as_is_asked_for(
    backend_variable: EnvView,
    duration_variable: EnvView,
    run_id: Seq<char>,
    backend: WalBackend,
    seconds: u64,
)
    requires
        names_backend(backend_variable, backend),
        asks_for_number(duration_variable, 60, seconds),
        seconds > 0,
    ensures
        BenchmarkPlan::planned(backend_variable, duration_variable, run_id) == Ok::<
            PlanView,
            ConfigErrorView,
        >(
            PlanView {
                backend,
                duration_seconds: seconds,
                run_id,
                db_path: "wal-rfc-proto/"@ + run_id,
            },
        ),
{
    backends_are_named(backend_variable, backend);
    zero_is_refused("TEST_DURATION_SECONDS"@, duration_variable, 60, seconds);
    reveal_strlit("wal-rfc-proto");
    reveal_strlit("/");
    reveal_strlit("wal-rfc-proto/");
    assert("wal-rfc-proto"@ + "/"@ =~= "wal-rfc-proto/"@);
}

/// In particular a duration that is written in decimal is the duration of the run.
pub proof fn decimal_durations_are_kept(run_id: Seq<char>, seconds: u64)
    requires
        seconds > 0,
    ensures
        BenchmarkPlan::planned(
            EnvView::Unset,
            EnvView::Value(crate::text::decimal(seconds as nat)),
            run_id,
        ) matches Ok(plan) && plan.duration_seconds == seconds,
{
    let text = crate::text::decimal(seconds as nat);
    assert(text == crate::text_laws::zeros(0) + text);
    assert(crate::text_laws::spells(text, seconds as nat));
    runs_last_as_long_as_is_asked_for(
        EnvView::Unset,
        EnvView::Value(text),
        run_id,
        WalBackend::Kafka,
        seconds,
    );
}

/// A run is refused for its backend first, and then for a duration that is zero or no number.
pub proof fn unusable_runs_are_refused(
    backend_variable: EnvView,
    duration_variable: EnvView,
    run_id: Seq<char>,
    backend: WalBackend,
    error: ConfigErrorView,
)
    ensures
        WalBackend::named(backend_variable) == Err::<WalBackend, ConfigErrorView>(error)
            ==> BenchmarkPlan::planned(backend_variable, duration_variable, run_id) == Err::<
            PlanView,
            ConfigErrorView,
        >(error),
        names_backend(backend_variable, backend) && asks_for_number(duration_variable, 60, 0)
            ==> BenchmarkPlan::planned(backend_variable, duration_variable, run_id) == Err::<
            PlanView,
            ConfigErrorView,
        >(ConfigErrorView::Zero { name: "TEST_DURATION_SECONDS"@ }),
        names_backend(backend_variable, backend) && no_number(
            duration_variable,
            "TEST_DURATION_SECONDS"@,
            error,
        ) ==> BenchmarkPlan::planned(backend_variable, duration_variable, run_id) == Err::<
            PlanView,
            ConfigErrorView,
        >(error),
{
    backends_are_named(backend_variable, backend);
    if asks_for_number(duration_variable, 60, 0) {
        zero_is_refused("TEST_DURATION_SECONDS"@, duration_variable, 60, 0);
    }
    if no_number(duration_variable, "TEST_DURATION_SECONDS"@, error) {
        lemma_no_number("TEST_DURATION_SECONDS"@, duration_variable, 60, error);
    }
}

// ---------------------------------------------------------------------------
// The Kafka backend
// ---------------------------------------------------------------------------

/// Whether `brokers` are those of a run and `rest` is what is left of the properties: the variable
/// goes first and leaves the properties as they are; without it, the entry of the file is taken out.
pub open spec fn brokers_are(
    variable: EnvView,
    properties: Map<Seq<char>, Seq<char>>,
    brokers: Seq<char>,
    rest: Map<Seq<char>, Seq<char>>,
) -> bool {
    match variable {
        EnvView::Value(value) => brokers == value && rest == properties,
        _ => {
            &&& properties.contains_key("bootstrap.servers"@)
            &&& brokers == properties["bootstrap.servers"@]
            &&& rest == properties.remove("bootstrap.servers"@)
        },
    }
}

/// Whether no broker is named: by the variable, where it is set, or else by the file.
pub open spec fn no_brokers(variable: EnvView, properties: Map<Seq<char>, Seq<char>>) -> bool {
    match variable {
        EnvView::Value(value) => crate::text_laws::blank(value),
        _ => {
            ||| !properties.contains_key("bootstrap.servers"@)
            ||| crate::text_laws::blank(properties["bootstrap.servers"@])
        },
    }
}

/// Whether topics may have `c` in their names: an ASCII letter or digit, or one of `-`, `.` and `_`.
pub open spec fn allowed_in_topics(c: char) -> bool {
    ||| 97 <= c as int <= 122
    ||| 65 <= c as int <= 90
    ||| 48 <= c as int <= 57
    ||| c as int == 45
    ||| c as int == 46
    ||| c as int == 95
}

/// Whether `prefix` is what topics of a run start with.
pub open spec fn topics_start_with(variable: EnvView, prefix: Seq<char>) -> bool {
    match variable {
        EnvView::Value(value) => prefix == value,
        _ => prefix == "slatedb-kafka-wal-example"@,
    }
}

/// Whether topics may start with `prefix`.
pub open spec fn usable_prefix(prefix: Seq<char>) -> bool {
    prefix.len() > 0 && forall|i: int|
        0 <= i < prefix.len() ==> allowed_in_topics(#[trigger] prefix[i])
}

/// The topic of a run is the prefix, a hyphen and the run identifier, where the prefix is usable and
/// the name is not longer than 249 bytes; a prefix that is not usable is reported first.
pub proof fn topics_are_prefix_and_run(variable: EnvView, prefix: Seq<char>, run_id: Seq<char>)
    requires
        topics_start_with(variable, prefix),
    ensures
        crate::config::topic_view(variable, run_id) == (if !usable_prefix(prefix) {
            Err::<Seq<char>, ConfigErrorView>(ConfigErrorView::TopicPrefix)
        } else if encode_utf8(prefix + "-"@ + run_id).len() > 249 {
            Err(ConfigErrorView::TopicTooLong)
        } else {
            Ok(prefix + "-"@ + run_id)
        }),
{
    if usable_prefix(prefix) {
        assert forall|i: int| 0 <= i < prefix.len() implies crate::config::topic_char(
            #[trigger] prefix[i],
        ) by {
            assert(allowed_in_topics(prefix[i]));
        }
    } else if prefix.len() > 0 {
        let k = choose|k: int| 0 <= k < prefix.len() && !allowed_in_topics(#[trigger] prefix[k]);
        assert(!crate::config::topic_char(prefix[k]));
    }
}

/// A run on Kafka has the brokers and the properties that are given, commits exactly as often as is
/// asked for, or every 100 ms, and writes to its topic.
pub proof fn kafka_is_configured_as_is_asked_for(
    run_id: Seq<char>,
    inputs: KafkaInputs,
    contents: String,
    properties: Map<Seq<char>, Seq<char>>,
    brokers: Seq<char>,
    rest: Map<Seq<char>, Seq<char>>,
    interval_ms: u64,
    prefix: Seq<char>,
)
    requires
        inputs.properties == Ok::<String, String>(contents),
        crate::properties::file_view(contents@) == Ok::<Map<Seq<char>, Seq<char>>, FaultView>(
            properties,
        ),
        brokers_are(inputs.bootstrap_servers@, properties, brokers, rest),
        !crate::text_laws::blank(brokers),
        asks_for_number(inputs.commit_interval_ms@, 100, interval_ms),
        interval_ms > 0,
        topics_start_with(inputs.topic_prefix@, prefix),
        usable_prefix(prefix),
        encode_utf8(prefix + "-"@ + run_id).len() <= 249,
    ensures
        KafkaBenchmarkConfig::configured(run_id, inputs) == Ok::<KafkaConfigView, ConfigErrorView>(
            KafkaConfigView {
                bootstrap_servers: brokers,
                client_properties: rest,
                commit_interval_ms: interval_ms,
                properties_path: inputs.properties_path@,
                topic: prefix + "-"@ + run_id,
            },
        ),
{
    crate::text_laws::blank_texts_are_trimmed_away(brokers);
    zero_is_refused("KAFKA_COMMIT_INTERVAL_MS"@, inputs.commit_interval_ms@, 100, interval_ms);
    topics_are_prefix_and_run(inputs.topic_prefix@, prefix, run_id);
}

/// A properties file that cannot be read, or that holds a fault, is reported before anything else.
pub proof fn faulty_properties_are_reported_first(
    run_id: Seq<char>,
    inputs: KafkaInputs,
    contents: String,
    cause: String,
    fault: FaultView,
)
    ensures
        inputs.properties == Err::<String, String>(cause) ==> KafkaBenchmarkConfig::configured(
            run_id,
            inputs,
        ) == Err::<KafkaConfigView, ConfigErrorView>(
            ConfigErrorView::UnreadableProperties {
                path: inputs.properties_path@,
                cause: cause@,
            },
        ),
        inputs.properties == Ok::<String, String>(contents) && crate::properties::file_view(
            contents@,
        ) == Err::<Map<Seq<char>, Seq<char>>, FaultView>(fault) ==> KafkaBenchmarkConfig::configured(
            run_id,
            inputs,
        ) == Err::<KafkaConfigView, ConfigErrorView>(
            ConfigErrorView::Properties { path: inputs.properties_path@, fault },
        ),
{
}

/// With a good file, missing brokers are reported first, then a commit interval that is zero or no
/// number, then a topic prefix that is not usable, then a topic that is too long.
pub proof fn other_faults_are_reported_in_order(
    run_id: Seq<char>,
    inputs: KafkaInputs,
    contents: String,
    properties: Map<Seq<char>, Seq<char>>,
    brokers: Seq<char>,
    rest: Map<Seq<char>, Seq<char>>,
    interval_ms: u64,
    prefix: Seq<char>,
    error: ConfigErrorView,
)
    requires
        inputs.properties == Ok::<String, String>(contents),
        crate::properties::file_view(contents@) == Ok::<Map<Seq<char>, Seq<char>>, FaultView>(
            properties,
        ),
        topics_start_with(inputs.topic_prefix@, prefix),
    ensures
        ({
            let res = KafkaBenchmarkConfig::configured(run_id, inputs);
            let named = brokers_are(inputs.bootstrap_servers@, properties, brokers, rest)
                && !crate::text_laws::blank(brokers);
            let timed = asks_for_number(inputs.commit_interval_ms@, 100, interval_ms) && interval_ms
                > 0;
            &&& no_brokers(inputs.bootstrap_servers@, properties) ==> res == Err::<
                KafkaConfigView,
                ConfigErrorView,
            >(ConfigErrorView::NoBootstrapServers { path: inputs.properties_path@ })
            &&& named && asks_for_number(inputs.commit_interval_ms@, 100, 0) ==> res == Err::<
                KafkaConfigView,
                ConfigErrorView,
            >(ConfigErrorView::Zero { name: "KAFKA_COMMIT_INTERVAL_MS"@ })
            &&& named && no_number(
                inputs.commit_interval_ms@,
                "KAFKA_COMMIT_INTERVAL_MS"@,
                error,
            ) ==> res == Err::<KafkaConfigView, ConfigErrorView>(error)
            &&& named && timed && !usable_prefix(prefix) ==> res == Err::<
                KafkaConfigView,
                ConfigErrorView,
            >(ConfigErrorView::TopicPrefix)
            &&& named && timed && usable_prefix(prefix) && encode_utf8(
                prefix + "-"@ + run_id,
            ).len() > 249 ==> res == Err::<KafkaConfigView, ConfigErrorView>(
                ConfigErrorView::TopicTooLong,
            )
        }),
{
    let name = "KAFKA_COMMIT_INTERVAL_MS"@;
    let interval = inputs.commit_interval_ms@;
    crate::text_laws::blank_texts_are_trimmed_away(brokers);
    match inputs.bootstrap_servers@ {
        EnvView::Value(value) => {
            crate::text_laws::blank_texts_are_trimmed_away(value);
        },
        _ => {
            crate::text_laws::blank_texts_are_trimmed_away(properties["bootstrap.servers"@]);
        },
    }
    if asks_for_number(interval, 100, 0) {
        zero_is_refused(name, interval, 100, 0);
    }
    if asks_for_number(interval, 100, interval_ms) {
        zero_is_refused(name, interval, 100, interval_ms);
    }
    if no_number(interval, name, error) {
        lemma_no_number(name, interval, 100, error);
    }
    topics_are_prefix_and_run(inputs.topic_prefix@, prefix, run_id);
}

/// A run keeps its plan; on Kafka it has exactly the Kafka configuration of its inputs, or fails as
/// that does.
pub proof fn runs_keep_their_plan(plan: PlanView, inputs: KafkaInputs)
    ensures
        plan.backend == WalBackend::ObjectStore ==> BenchmarkConfig::configured(plan, None) == Ok::<
            ConfigView,
            ConfigErrorView,
        >(ConfigView { plan, kafka: None }),
        plan.backend == WalBackend::Kafka ==> match KafkaBenchmarkConfig::configured(
            plan.run_id,
            inputs,
        ) {
            Ok(kafka) => BenchmarkConfig::configured(plan, Some(inputs)) == Ok::<
                ConfigView,
                ConfigErrorView,
            >(ConfigView { plan, kafka: Some(kafka) }),
            Err(error) => BenchmarkConfig::configured(plan, Some(inputs)) == Err::<
                ConfigView,
                ConfigErrorView,
            >(error),
        },
{
}

} // verus!
