//! The steps by which the writer and the reader of a run are opened.

use vstd::prelude::*;

use crate::config::{
    BenchmarkConfig, ConfigErrorView, ConfigView, KafkaInputs, PlanView, WalBackend,
};

verus! {

/// A step on the way to an open writer and an open reader.
#[derive(Clone, Copy, Debug, PartialEq, Eq, Structural)]
pub enum OpenStep {
    /// Get a token, to see early whether the brokers will accept the run.
    Token,
    /// Create the topic.
    Topic,
    /// Open the writer.
    Writer,
    /// Open the reader.
    Reader,
}

/// The steps, in their order.
pub open spec fn steps(backend: WalBackend) -> Seq<OpenStep> {
    match backend {
        WalBackend::Kafka => seq![
            OpenStep::Token,
            OpenStep::Topic,
            OpenStep::Writer,
            OpenStep::Reader,
        ],
        WalBackend::ObjectStore => seq![OpenStep::Writer, OpenStep::Reader],
    }
}

/// The steps that open a run on the given backend, in their order.
pub fn open_steps(backend: WalBackend) -> (res: Vec<OpenStep>)
    ensures
        res@ == steps(backend),
{
    let mut res: Vec<OpenStep> = Vec::new();
    match backend {
        WalBackend::Kafka => {
            res.push(OpenStep::Token);
            res.push(OpenStep::Topic);
        },
        WalBackend::ObjectStore => {},
    }
    res.push(OpenStep::Writer);
    res.push(OpenStep::Reader);
    res
}

/// What is said when a step succeeded, where anything is.
pub fn step_line(step: OpenStep) -> (line: Option<&'static str>)
    ensures
        match step {
            OpenStep::Token => line matches Some(line) && line@
                == "MSK IAM token preflight succeeded"@,
            _ => line is None,
        },
{
    match step {
        OpenStep::Token => Some("MSK IAM token preflight succeeded"),
        _ => None,
    }
}

/// What is said when a step failed because of `cause`.
pub open spec fn failure_text(
    backend: WalBackend,
    step: OpenStep,
    cause: Seq<char>,
) -> Seq<char> {
    match (step, backend) {
        (OpenStep::Token, _) => "MSK IAM token preflight failed: "@ + cause,
        (OpenStep::Topic, _) => cause,
        (OpenStep::Writer, WalBackend::Kafka) =>
            "failed to open the SlateDB writer with the Kafka WAL"@,
        (OpenStep::Writer, WalBackend::ObjectStore) =>
            "failed to open the SlateDB writer with the object-store WAL"@,
        (OpenStep::Reader, WalBackend::Kafka) =>
            "failed to open the tailing SlateDB reader with the Kafka WAL"@,
        (OpenStep::Reader, WalBackend::ObjectStore) =>
            "failed to open the tailing SlateDB reader with the object-store WAL"@,
    }
}

/// What is said when a step failed because of `cause`.
pub fn open_failure(backend: WalBackend, step: OpenStep, cause: &str) -> (text: String)
    ensures
        text@ == failure_text(backend, step, cause@),
{
    match (step, backend) {
        (OpenStep::Token, _) => {
            let mut text = "MSK IAM token preflight failed: ".to_owned();
            text.append(cause);
            text
        },
        (OpenStep::Topic, _) => cause.to_owned(),
        (OpenStep::Writer, WalBackend::Kafka) =>
            "failed to open the SlateDB writer with the Kafka WAL".to_owned(),
        (OpenStep::Writer, WalBackend::ObjectStore) =>
            "failed to open the SlateDB writer with the object-store WAL".to_owned(),
        (OpenStep::Reader, WalBackend::Kafka) =>
            "failed to open the tailing SlateDB reader with the Kafka WAL".to_owned(),
        (OpenStep::Reader, WalBackend::ObjectStore) =>
            "failed to open the tailing SlateDB reader with the object-store WAL".to_owned(),
    }
}

/// The step with which the opening of a run starts.
pub fn first_step(backend: WalBackend) -> (step: OpenStep)
    ensures
        step == steps(backend)[0],
{
    match backend {
        WalBackend::Kafka => OpenStep::Token,
        WalBackend::ObjectStore => OpenStep::Writer,
    }
}

/// What follows the step number `done`, counted from zero, by how it ended: the next step, or none
/// after the last one; a failure ends the opening.
pub open spec fn following(
    backend: WalBackend,
    done: int,
    outcome: Result<(), Seq<char>>,
) -> Result<Option<OpenStep>, Seq<char>> {
    match outcome {
        Err(cause) => Err(failure_text(backend, steps(backend)[done], cause)),
        Ok(_) => if done + 1 < steps(backend).len() {
            Ok(Some(steps(backend)[done + 1]))
        } else {
            Ok(None)
        },
    }
}

/// What follows the step number `done`, counted from zero, by how it ended: the next step, or none
/// after the last one; or what is said of a failure, which ends the opening.
pub fn after_step(backend: WalBackend, done: usize, outcome: Result<(), &str>) -> (next: Result<
    Option<OpenStep>,
    String,
>)
    requires
        done < steps(backend).len(),
    ensures
        match (outcome, next) {
            (Err(cause), Err(text)) => following(backend, done as int, Err(cause@)) == Err::<
                Option<OpenStep>,
                Seq<char>,
            >(text@),
            (Ok(_), Ok(step)) => following(backend, done as int, Ok(())) == Ok::<
                Option<OpenStep>,
                Seq<char>,
            >(step),
            _ => false,
        },
{
    let all = open_steps(backend);
    match outcome {
        Err(cause) => Err(open_failure(backend, all[done], cause)),
        Ok(_) => if done + 1 < all.len() {
            Ok(Some(all[done + 1]))
        } else {
            Ok(None)
        },
    }
}

// ---------------------------------------------------------------------------
// What is opened
// ---------------------------------------------------------------------------

/// A log on Kafka that takes the place of the engine's own.
#[derive(Debug)]
pub struct LogSettings {
    /// The topic, by which the log is known.
    pub topic: String,
    /// How often transactions are committed.
    pub commit_interval_ms: u64,
}

/// What the writer and the reader of a run are opened on; what is not named here is left to the
/// engine.
#[derive(Debug)]
pub struct OpenSettings {
    /// The path, in the bucket, of the database.
    pub db_path: String,
    /// The log that is plugged in, where the engine's own is not used.
    pub log: Option<LogSettings>,
}

/// What a `LogSettings` stands for.
pub struct LogView {
    pub topic: Seq<char>,
    pub commit_interval_ms: u64,
}

/// What an `OpenSettings` stands for.
pub struct OpenView {
    pub db_path: Seq<char>,
    pub log: Option<LogView>,
}

impl View for OpenSettings {
    type V = OpenView;

    open spec fn view(&self) -> OpenView {
        OpenView {
            db_path: self.db_path@,
            log: match self.log {
                Some(log) => Some(
                    LogView { topic: log.topic@, commit_interval_ms: log.commit_interval_ms },
                ),
                None => None,
            },
        }
    }
}

/// What the writer and the reader of a run are opened on.
pub open spec fn opened_on(config: ConfigView) -> OpenView {
    OpenView {
        db_path: config.plan.db_path,
        log: match config.kafka {
            Some(kafka) => Some(
                LogView { topic: kafka.topic, commit_interval_ms: kafka.commit_interval_ms },
            ),
            None => None,
        },
    }
}

/// What the writer and the reader of a run are opened on, both of them on the same.
pub fn open_settings(config: &BenchmarkConfig) -> (settings: OpenSettings)
    ensures
        settings@ == opened_on(config@),
{
    OpenSettings {
        db_path: config.db_path.clone(),
        log: match &config.kafka {
            Some(kafka) => Some(
                LogSettings {
                    topic: kafka.topic.clone(),
                    commit_interval_ms: kafka.commit_interval_ms,
                },
            ),
            None => None,
        },
    }
}

/// A run on the object store uses the engine's own log; a run on Kafka plugs in a log on its topic.
/// Either way the database is that of the run.
pub proof fn logs_are_plugged_in_for_kafka_alone(plan: PlanView, kafka: Option<KafkaInputs>)
    requires
        plan.backend == WalBackend::Kafka ==> kafka is Some,
    ensures
        BenchmarkConfig::configured(plan, kafka) matches Ok(config) ==> {
            &&& opened_on(config).db_path == plan.db_path
            &&& plan.backend == WalBackend::ObjectStore ==> opened_on(config).log is None
            &&& plan.backend == WalBackend::Kafka ==> {
                &&& opened_on(config).log matches Some(log)
                &&& crate::config::topic_view(kafka->0.topic_prefix@, plan.run_id) == Ok::<
                    Seq<char>,
                    ConfigErrorView,
                >(log.topic)
                &&& config.kafka matches Some(kafka) && log.topic == kafka.topic
                    && log.commit_interval_ms == kafka.commit_interval_ms
                &&& log.commit_interval_ms > 0
            }
        },
{
}

// ---------------------------------------------------------------------------
// What holds of every opening
// ---------------------------------------------------------------------------

/// How far an opening has come.
pub enum OpeningState {
    /// It goes on with this step, having taken so many.
    Next { done: nat, step: OpenStep },
    /// Writer and reader are open.
    Opened,
    /// A step failed.
    Failed(Seq<char>),
}

/// How far an opening has come when its steps so far have ended with `outcomes`.
pub open spec fn opening_run(
    backend: WalBackend,
    outcomes: Seq<Result<(), Seq<char>>>,
) -> OpeningState
    decreases outcomes.len(),
{
    if outcomes.len() == 0 {
        OpeningState::Next { done: 0, step: steps(backend)[0] }
    } else {
        match opening_run(backend, outcomes.drop_last()) {
            OpeningState::Next { done, step } => match following(
                backend,
                done as int,
                outcomes.last(),
            ) {
                Err(text) => OpeningState::Failed(text),
                Ok(Some(step)) => OpeningState::Next { done: done + 1, step },
                Ok(None) => OpeningState::Opened,
            },
            ended => ended,
        }
    }
}

/// Whether each of `outcomes` is that of a step that was to be taken.
pub open spec fn opening_trace(
    backend: WalBackend,
    outcomes: Seq<Result<(), Seq<char>>>,
) -> bool
    decreases outcomes.len(),
{
    outcomes.len() > 0 ==> {
        &&& opening_trace(backend, outcomes.drop_last())
        &&& opening_run(backend, outcomes.drop_last()) is Next
    }
}

/// The steps that were taken.
pub open spec fn steps_taken(
    backend: WalBackend,
    outcomes: Seq<Result<(), Seq<char>>>,
) -> Seq<OpenStep>
    decreases outcomes.len(),
{
    if outcomes.len() == 0 {
        seq![]
    } else {
        match opening_run(backend, outcomes.drop_last()) {
            OpeningState::Next { step, .. } => steps_taken(backend, outcomes.drop_last()).push(step),
            _ => steps_taken(backend, outcomes.drop_last()),
        }
    }
}

/// The steps are taken in their order, and each only after all before it succeeded. The opening
/// fails exactly when a step does, which is then the last that is taken, and with what is said of
/// that step; writer and reader are open exactly when all steps succeeded.
pub proof fn steps_are_taken_until_one_fails(
    backend: WalBackend,
    outcomes: Seq<Result<(), Seq<char>>>,
)
    requires
        opening_trace(backend, outcomes),
    ensures
        outcomes.len() <= steps(backend).len(),
        steps_taken(backend, outcomes) == steps(backend).take(outcomes.len() as int),
        forall|i: int| 0 <= i < outcomes.len() - 1 ==> (#[trigger] outcomes[i]) is Ok,
        match opening_run(backend, outcomes) {
            OpeningState::Failed(text) => {
                &&& outcomes.len() > 0
                &&& outcomes.last() matches Err(cause)
                &&& text == failure_text(backend, steps(backend)[outcomes.len() - 1], cause)
            },
            OpeningState::Opened => {
                &&& outcomes.len() == steps(backend).len()
                &&& outcomes.last() is Ok
            },
            OpeningState::Next { done, step } => {
                &&& done == outcomes.len()
                &&& outcomes.len() < steps(backend).len()
                &&& step == steps(backend)[outcomes.len() as int]
                &&& outcomes.len() > 0 ==> outcomes.last() is Ok
            },
        },
    decreases outcomes.len(),
{
    if outcomes.len() > 0 {
        let before = outcomes.drop_last();
        steps_are_taken_until_one_fails(backend, before);
        assert forall|i: int| 0 <= i < outcomes.len() - 1 implies (#[trigger] outcomes[i]) is Ok by {
            if i < before.len() - 1 {
                assert(before[i] is Ok);
            }
            assert(outcomes[i] == before[i]);
        }
        assert(steps(backend).take(outcomes.len() as int) == steps(backend).take(
            before.len() as int,
        ).push(steps(backend)[before.len() as int]));
    } else {
        assert(steps(backend).take(0) =~= seq![]);
    }
}

/// After a failed step nothing more is done: without a token there is no topic, without a topic no
/// writer, and without a writer no reader.
pub proof fn nothing_follows_a_failed_step(
    backend: WalBackend,
    outcomes: Seq<Result<(), Seq<char>>>,
    at: int,
)
    requires
        opening_trace(backend, outcomes),
        0 <= at < outcomes.len(),
        outcomes[at] is Err,
    ensures
        outcomes.len() == at + 1,
        opening_run(backend, outcomes) == OpeningState::Failed(
            failure_text(backend, steps(backend)[at], outcomes[at]->Err_0),
        ),
        ({
            let taken = steps_taken(backend, outcomes);
            &&& steps(backend)[at] == OpenStep::Token ==> !taken.contains(OpenStep::Topic)
                && !taken.contains(OpenStep::Writer) && !taken.contains(OpenStep::Reader)
            &&& steps(backend)[at] == OpenStep::Topic ==> !taken.contains(OpenStep::Writer)
                && !taken.contains(OpenStep::Reader)
            &&& steps(backend)[at] == OpenStep::Writer ==> !taken.contains(OpenStep::Reader)
        }),
{
    steps_are_taken_until_one_fails(backend, outcomes);
    assert(at == outcomes.len() - 1) by {
        if at < outcomes.len() - 1 {
            assert(outcomes[at] is Ok);
        }
    }
    let taken = steps_taken(backend, outcomes);
    assert forall|step: OpenStep| #[trigger] taken.contains(step) implies exists|i: int|
        0 <= i <= at && steps(backend)[i] == step by {
        let i = taken.index_of(step);
        assert(steps(backend)[i] == step);
    }
}

/// A run creates a topic exactly when it is on Kafka: a run on the object store has nothing to do
/// with the brokers.
pub proof fn topics_are_created_for_kafka_alone(backend: WalBackend)
    ensures
        steps(backend).contains(OpenStep::Topic) <==> backend == WalBackend::Kafka,
        steps(backend).contains(OpenStep::Token) <==> backend == WalBackend::Kafka,
{
    if backend == WalBackend::Kafka {
        assert(steps(backend)[0] == OpenStep::Token);
        assert(steps(backend)[1] == OpenStep::Topic);
    }
}

/// Every run opens its writer and then its reader, and nothing after that; a topic exists before
/// the writer that needs it is opened.
pub proof fn writer_is_opened_before_the_reader(backend: WalBackend)
    ensures
        ({
            let all = steps(backend);
            let len = all.len();
            &&& len >= 2
            &&& all[len - 2] == OpenStep::Writer
            &&& all[len - 1] == OpenStep::Reader
            &&& forall|i: int|
                0 <= i < len - 2 ==> #[trigger] all[i] == OpenStep::Token || all[i]
                    == OpenStep::Topic
        }),
{
}

/// On Kafka a run gets a token, creates its topic, opens its writer and opens its reader; on the
/// object store it opens its writer and its reader.
pub proof fn steps_have_their_order(backend: WalBackend)
    ensures
        backend == WalBackend::Kafka ==> steps(backend).len() == 4 && steps(backend)[0]
            == OpenStep::Token && steps(backend)[1] == OpenStep::Topic && steps(backend)[2]
            == OpenStep::Writer && steps(backend)[3] == OpenStep::Reader,
        backend == WalBackend::ObjectStore ==> steps(backend).len() == 2 && steps(backend)[0]
            == OpenStep::Writer && steps(backend)[1] == OpenStep::Reader,
{
}

/// After a step that succeeded comes the next one, and nothing after the last; after one that failed
/// comes nothing but its failure.
pub proof fn each_step_is_followed_by_the_next(
    backend: WalBackend,
    done: int,
    cause: Seq<char>,
)
    requires
        0 <= done < steps(backend).len(),
    ensures
        following(backend, done, Err(cause)) == Err::<Option<OpenStep>, Seq<char>>(
            failure_text(backend, steps(backend)[done], cause),
        ),
        done + 1 < steps(backend).len() ==> following(backend, done, Ok(())) == Ok::<
            Option<OpenStep>,
            Seq<char>,
        >(Some(steps(backend)[done + 1])),
        done + 1 == steps(backend).len() ==> following(backend, done, Ok(())) == Ok::<
            Option<OpenStep>,
            Seq<char>,
        >(None),
{
}

/// A failed step says which log the run is on, or why it failed.
pub proof fn failed_steps_say_what_failed(cause: Seq<char>, backend: WalBackend)
    ensures
        failure_text(backend, OpenStep::Token, cause) == "MSK IAM token preflight failed: "@ + cause,
        failure_text(backend, OpenStep::Topic, cause) == cause,
        failure_text(WalBackend::Kafka, OpenStep::Writer, cause)
            == "failed to open the SlateDB writer with the Kafka WAL"@,
        failure_text(WalBackend::ObjectStore, OpenStep::Writer, cause)
            == "failed to open the SlateDB writer with the object-store WAL"@,
        failure_text(WalBackend::Kafka, OpenStep::Reader, cause)
            == "failed to open the tailing SlateDB reader with the Kafka WAL"@,
        failure_text(WalBackend::ObjectStore, OpenStep::Reader, cause)
            == "failed to open the tailing SlateDB reader with the object-store WAL"@,
{
}

} // verus!
