//! The sampler of a run: how long it takes until a reader sees what the writer made durable.

use vstd::prelude::*;

use crate::text::push_decimal;
use crate::writer::WrittenRecord;

verus! {

/// Time between two samples.
pub const SAMPLE_INTERVAL_MS: u64 = 100;

/// How long a sample may wait for a sequence number.
pub const STATUS_TIMEOUT_SECONDS: u64 = 60;

// ---------------------------------------------------------------------------
// Waiting for a sequence number
// ---------------------------------------------------------------------------

/// What a sample waits for.
#[derive(Clone, Copy, Debug, PartialEq, Eq, Structural)]
pub enum WaitPhase {
    /// That the writer has made a record durable.
    Durability,
    /// That the reader sees it.
    Visibility,
}

impl WaitPhase {
    /// The phase in words.
    pub open spec fn text(self) -> Seq<char> {
        match self {
            WaitPhase::Durability => "writer durability"@,
            WaitPhase::Visibility => "reader visibility"@,
        }
    }

    /// The phase in words.
    pub fn as_str(self) -> (text: &'static str)
        ensures
            text@ == self.text(),
    {
        match self {
            WaitPhase::Durability => "writer durability",
            WaitPhase::Visibility => "reader visibility",
        }
    }
}

/// What a database says of itself.
#[derive(Debug)]
pub struct DbStatus {
    /// The last sequence number that is durable.
    pub durable_seq: u64,
    /// Why the database was closed, if it was.
    pub close_reason: Option<String>,
}

/// What one look at the status of a database shows.
#[derive(Debug)]
pub enum StatusObservation {
    /// The status.
    Status(DbStatus),
    /// That the status is not reported any more.
    ChannelClosed { cause: String },
    /// That the time is over.
    TimedOut { cause: String },
}

/// Why a wait for a sequence number ended early.
#[derive(Debug)]
pub enum WaitError {
    Closed { phase: WaitPhase, reason: String },
    ChannelClosed { phase: WaitPhase, target_seq: u64, cause: String },
    TimedOut { phase: WaitPhase, target_seq: u64, cause: String },
}

impl WaitError {
    /// The error in words.
    pub open spec fn text(self) -> Seq<char> {
        match self {
            WaitError::Closed { phase, reason } => "database closed during "@ + phase.text() + ": "@
                + reason@,
            WaitError::ChannelClosed { phase, target_seq, .. } => "status channel closed during "@
                + phase.text() + " for sequence "@ + crate::text::decimal(target_seq as nat),
            WaitError::TimedOut { phase, target_seq, .. } => "timed out during "@ + phase.text()
                + " for sequence "@ + crate::text::decimal(target_seq as nat),
        }
    }

    /// The error in words.
    pub fn message(&self) -> (text: String)
        ensures
            text@ == self.text(),
    {
        match self {
            WaitError::Closed { phase, reason } => {
                let mut text = "database closed during ".to_owned();
                text.append(phase.as_str());
                text.append(": ");
                text.append(reason.as_str());
                text
            },
            WaitError::ChannelClosed { phase, target_seq, .. } => {
                let mut text = "status channel closed during ".to_owned();
                text.append(phase.as_str());
                text.append(" for sequence ");
                push_decimal(&mut text, *target_seq);
                text
            },
            WaitError::TimedOut { phase, target_seq, .. } => {
                let mut text = "timed out during ".to_owned();
                text.append(phase.as_str());
                text.append(" for sequence ");
                push_decimal(&mut text, *target_seq);
                text
            },
        }
    }
}

/// What a look at the status of a database says of a wait: that it is over, that it goes on, or
/// that it ends early. A closed database ends it, whatever is durable.
pub open spec fn wait_decision(
    observation: StatusObservation,
    target_seq: u64,
    phase: WaitPhase,
) -> Result<bool, WaitError> {
    match observation {
        StatusObservation::Status(status) => match status.close_reason {
            Some(reason) => Err(WaitError::Closed { phase, reason }),
            None => Ok(status.durable_seq >= target_seq),
        },
        StatusObservation::ChannelClosed { cause } => Err(
            WaitError::ChannelClosed { phase, target_seq, cause },
        ),
        StatusObservation::TimedOut { cause } => Err(
            WaitError::TimedOut { phase, target_seq, cause },
        ),
    }
}

/// Whether a look at the status shows that `target_seq` is reached; where it is not, the wait
/// goes on.
pub fn wait_for_seq(observation: StatusObservation, target_seq: u64, phase: WaitPhase) -> (res:
    Result<bool, WaitError>)
    ensures
        res == wait_decision(observation, target_seq, phase),
{
    match observation {
        StatusObservation::Status(status) => match status.close_reason {
            Some(reason) => Err(WaitError::Closed { phase, reason }),
            None => Ok(status.durable_seq >= target_seq),
        },
        StatusObservation::ChannelClosed { cause } => Err(
            WaitError::ChannelClosed { phase, target_seq, cause },
        ),
        StatusObservation::TimedOut { cause } => Err(
            WaitError::TimedOut { phase, target_seq, cause },
        ),
    }
}

// ---------------------------------------------------------------------------
// Sampling
// ---------------------------------------------------------------------------

/// Why the sampler stopped early.
#[derive(Debug)]
pub enum SampleError {
    /// A wait for a sequence number ended early.
    Wait(WaitError),
    /// The reader could not look the record up.
    GetFailed { seq: u64, cause: String },
    /// The reader found another value, or none.
    ValueMismatch { seq: u64 },
}

impl SampleError {
    /// The error in words.
    pub open spec fn text(self) -> Seq<char> {
        match self {
            SampleError::Wait(error) => error.text(),
            SampleError::GetFailed { seq, .. } => "reader get failed for sequence "@
                + crate::text::decimal(seq as nat),
            SampleError::ValueMismatch { seq } => "reader value mismatch at sequence "@
                + crate::text::decimal(seq as nat),
        }
    }

    /// The error in words.
    pub fn message(&self) -> (text: String)
        ensures
            text@ == self.text(),
    {
        match self {
            SampleError::Wait(error) => error.message(),
            SampleError::GetFailed { seq, .. } => {
                let mut text = "reader get failed for sequence ".to_owned();
                push_decimal(&mut text, *seq);
                text
            },
            SampleError::ValueMismatch { seq } => {
                let mut text = "reader value mismatch at sequence ".to_owned();
                push_decimal(&mut text, *seq);
                text
            },
        }
    }
}

/// What the sampler waits for.
#[derive(Debug)]
pub enum SamplerPhase {
    /// The next tick, or the deadline.
    Tick,
    /// That a record is durable.
    Durable(WrittenRecord),
    /// That the reader sees it.
    Visible(WrittenRecord),
    /// What the reader finds for its key, and how long the reader took to see it, in nanoseconds.
    Value(WrittenRecord, u128),
}

/// What happened.
#[derive(Debug)]
pub enum SamplerEvent {
    /// The deadline has passed.
    Deadline,
    /// It is time for the next sample; the latest record that was written, if there is one.
    Tick(Option<WrittenRecord>),
    /// How the wait for durability ended.
    Durable(Result<(), WaitError>),
    /// How the wait for visibility ended, and how long it took, in nanoseconds.
    Visible(Result<u128, WaitError>),
    /// What the reader found, or why it could not look.
    Fetched(Result<Option<Vec<u8>>, String>),
}

/// What is to be done.
#[derive(Debug)]
pub enum SamplerAction {
    /// Wait for the deadline or for the next tick.
    AwaitTick,
    /// Wait until the writer has made this sequence number durable.
    AwaitDurable(u64),
    /// Wait until the reader sees this sequence number, and measure how long it takes.
    AwaitVisible(u64),
    /// Have the reader look this key up.
    Get(Vec<u8>),
}

/// What an event brings the sampler to.
#[derive(Debug)]
pub enum SamplerStep {
    /// It goes on.
    Continue(SamplerLoop, SamplerAction),
    /// It is done; the latencies that it measured, in nanoseconds.
    Finished(Vec<u128>),
    /// It stopped.
    Failed(SampleError),
}

/// The sampler of a run.
#[derive(Debug)]
pub struct SamplerLoop {
    phase: SamplerPhase,
    last_sampled_seq: u64,
    latencies: Vec<u128>,
}

/// The state of the sampler.
pub struct SamplerState {
    pub phase: SamplerPhase,
    pub last_sampled_seq: u64,
    pub latencies: Seq<u128>,
}

/// What an event brings the state of the sampler to.
pub enum SamplerOutcome {
    Continue(SamplerState),
    Finished(Seq<u128>),
    Failed(SampleError),
}

/// The sampler before anything happened.
pub open spec fn sampler_start() -> SamplerState {
    SamplerState { phase: SamplerPhase::Tick, last_sampled_seq: 0, latencies: seq![] }
}

/// Whether `event` can happen while the sampler is in the given state.
pub open spec fn sampler_expects(state: SamplerState, event: SamplerEvent) -> bool {
    match event {
        SamplerEvent::Deadline => state.phase is Tick,
        SamplerEvent::Tick(_) => state.phase is Tick,
        SamplerEvent::Durable(_) => state.phase is Durable,
        SamplerEvent::Visible(_) => state.phase is Visible,
        SamplerEvent::Fetched(_) => state.phase is Value,
    }
}

/// Whether the reader found the value that was written.
pub open spec fn found_value(found: Option<Vec<u8>>, record: WrittenRecord) -> bool {
    found matches Some(value) && value@ == record.value@
}

/// What `event` brings the state of the sampler to.
pub open spec fn sampler_next(state: SamplerState, event: SamplerEvent) -> SamplerOutcome {
    match (event, state.phase) {
        (SamplerEvent::Deadline, _) => SamplerOutcome::Finished(state.latencies),
        (SamplerEvent::Tick(latest), _) => match latest {
            Some(record) => if record.seq > state.last_sampled_seq {
                SamplerOutcome::Continue(
                    SamplerState {
                        phase: SamplerPhase::Durable(record),
                        last_sampled_seq: record.seq,
                        ..state
                    },
                )
            } else {
                SamplerOutcome::Continue(state)
            },
            None => SamplerOutcome::Continue(state),
        },
        (SamplerEvent::Durable(waited), SamplerPhase::Durable(record)) => match waited {
            Ok(_) => SamplerOutcome::Continue(
                SamplerState { phase: SamplerPhase::Visible(record), ..state },
            ),
            Err(error) => SamplerOutcome::Failed(SampleError::Wait(error)),
        },
        (SamplerEvent::Visible(waited), SamplerPhase::Visible(record)) => match waited {
            Ok(latency) => SamplerOutcome::Continue(
                SamplerState { phase: SamplerPhase::Value(record, latency), ..state },
            ),
            Err(error) => SamplerOutcome::Failed(SampleError::Wait(error)),
        },
        (SamplerEvent::Fetched(fetched), SamplerPhase::Value(record, latency)) => match fetched {
            Ok(found) => if found_value(found, record) {
                SamplerOutcome::Continue(
                    SamplerState {
                        phase: SamplerPhase::Tick,
                        latencies: state.latencies.push(latency),
                        ..state
                    },
                )
            } else {
                SamplerOutcome::Failed(SampleError::ValueMismatch { seq: record.seq })
            },
            Err(cause) => SamplerOutcome::Failed(
                SampleError::GetFailed { seq: record.seq, cause },
            ),
        },
        _ => SamplerOutcome::Continue(state),
    }
}

/// What is to be done in the given state.
pub open spec fn sampler_action(state: SamplerState, action: SamplerAction) -> bool {
    match state.phase {
        SamplerPhase::Tick => action == SamplerAction::AwaitTick,
        SamplerPhase::Durable(record) => action == SamplerAction::AwaitDurable(record.seq),
        SamplerPhase::Visible(record) => action == SamplerAction::AwaitVisible(record.seq),
        SamplerPhase::Value(record, _) => action matches SamplerAction::Get(key) && key@
            == record.key@,
    }
}

fn same_bytes(a: &Vec<u8>, b: &Vec<u8>) -> (same: bool)
    ensures
        same == (a@ == b@),
{
    if a.len() != b.len() {
        return false;
    }
    let mut i: usize = 0;
    while i < a.len()
        invariant
            i <= a@.len() == b@.len(),
            forall|k: int| 0 <= k < i ==> a@[k] == b@[k],
        decreases a@.len() - i,
    {
        if a[i] != b[i] {
            return false;
        }
        i += 1;
    }
    assert(a@ =~= b@);
    true
}

impl SamplerLoop {
    /// The state of the sampler.
    pub closed spec fn state(&self) -> SamplerState {
        SamplerState {
            phase: self.phase,
            last_sampled_seq: self.last_sampled_seq,
            latencies: self.latencies@,
        }
    }

    /// A sampler that has not started; it waits for its first tick.
    pub fn new() -> (res: SamplerLoop)
        ensures
            res.state() == sampler_start(),
    {
        SamplerLoop { phase: SamplerPhase::Tick, last_sampled_seq: 0, latencies: Vec::new() }
    }

    /// Takes what happened.
    pub fn step(self, event: SamplerEvent) -> (res: SamplerStep)
        requires
            sampler_expects(self.state(), event),
        ensures
            match (res, sampler_next(self.state(), event)) {
                (SamplerStep::Continue(next, action), SamplerOutcome::Continue(state)) => {
                    &&& next.state() == state
                    &&& sampler_action(state, action)
                },
                (SamplerStep::Finished(latencies), SamplerOutcome::Finished(measured)) => latencies@
                    == measured,
                (SamplerStep::Failed(error), SamplerOutcome::Failed(expected)) => error == expected,
                _ => false,
            },
            event matches SamplerEvent::Tick(Some(record)) ==> {
                &&& record.seq > self.state().last_sampled_seq ==> {
                    &&& res matches SamplerStep::Continue(next, action)
                    &&& action == SamplerAction::AwaitDurable(record.seq)
                    &&& next.state().phase == SamplerPhase::Durable(record)
                    &&& next.state().last_sampled_seq == record.seq
                }
                &&& record.seq <= self.state().last_sampled_seq ==> {
                    &&& res matches SamplerStep::Continue(next, action)
                    &&& action == SamplerAction::AwaitTick
                    &&& next.state() == self.state()
                }
            },
            event matches SamplerEvent::Tick(None) ==> {
                &&& res matches SamplerStep::Continue(next, action)
                &&& action == SamplerAction::AwaitTick
                &&& next.state() == self.state()
            },
            event is Deadline ==> (res matches SamplerStep::Finished(latencies) && latencies@
                == self.state().latencies),
    {
        let SamplerLoop { phase, last_sampled_seq, latencies } = self;
        match (event, phase) {
            (SamplerEvent::Deadline, _) => SamplerStep::Finished(latencies),
            (SamplerEvent::Tick(latest), phase) => match latest {
                Some(record) => if record.seq > last_sampled_seq {
                    let seq = record.seq;
                    SamplerStep::Continue(
                        SamplerLoop {
                            phase: SamplerPhase::Durable(record),
                            last_sampled_seq: seq,
                            latencies,
                        },
                        SamplerAction::AwaitDurable(seq),
                    )
                } else {
                    SamplerStep::Continue(
                        SamplerLoop { phase, last_sampled_seq, latencies },
                        SamplerAction::AwaitTick,
                    )
                },
                None => SamplerStep::Continue(
                    SamplerLoop { phase, last_sampled_seq, latencies },
                    SamplerAction::AwaitTick,
                ),
            },
            (SamplerEvent::Durable(waited), SamplerPhase::Durable(record)) => match waited {
                Ok(_) => {
                    let seq = record.seq;
                    SamplerStep::Continue(
                        SamplerLoop {
                            phase: SamplerPhase::Visible(record),
                            last_sampled_seq,
                            latencies,
                        },
                        SamplerAction::AwaitVisible(seq),
                    )
                },
                Err(error) => SamplerStep::Failed(SampleError::Wait(error)),
            },
            (SamplerEvent::Visible(waited), SamplerPhase::Visible(record)) => match waited {
                Ok(latency) => {
                    let key = record.key.clone();
                    assert(key@ =~= record.key@);
                    SamplerStep::Continue(
                        SamplerLoop {
                            phase: SamplerPhase::Value(record, latency),
                            last_sampled_seq,
                            latencies,
                        },
                        SamplerAction::Get(key),
                    )
                },
                Err(error) => SamplerStep::Failed(SampleError::Wait(error)),
            },
            (SamplerEvent::Fetched(fetched), SamplerPhase::Value(record, latency)) => match fetched {
                Ok(Some(value)) => if same_bytes(&value, &record.value) {
                    let mut latencies = latencies;
                    latencies.push(latency);
                    SamplerStep::Continue(
                        SamplerLoop { phase: SamplerPhase::Tick, last_sampled_seq, latencies },
                        SamplerAction::AwaitTick,
                    )
                } else {
                    SamplerStep::Failed(SampleError::ValueMismatch { seq: record.seq })
                },
                Ok(None) => SamplerStep::Failed(SampleError::ValueMismatch { seq: record.seq }),
                Err(cause) => SamplerStep::Failed(
                    SampleError::GetFailed { seq: record.seq, cause },
                ),
            },
            // No other event comes in these phases.
            (_, phase) => SamplerStep::Continue(
                SamplerLoop { phase, last_sampled_seq, latencies },
                SamplerAction::AwaitTick,
            ),
        }
    }
}

} // verus!
