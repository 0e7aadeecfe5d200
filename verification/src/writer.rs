//! The writer of a run: it starts a write at every tick and keeps the newest one that finished.

use rand::rngs::StdRng;
use rand::RngCore;
use vstd::prelude::*;

use crate::config::{write_settings, WriteSettings};

verus! {

/// Time between two writes.
pub const WRITE_INTERVAL_MS: u64 = 1;

/// How many writes may be under way at once.
pub const MAX_IN_FLIGHT_WRITES: usize = 4096;

/// Length of keys, in bytes.
pub const KEY_SIZE: usize = 32;

/// Length of values, in bytes.
pub const VALUE_SIZE: usize = 512;

// ---------------------------------------------------------------------------
// Records
// ---------------------------------------------------------------------------

/// A random number generator that was seeded by the operating system.
#[verifier::external_type_specification]
#[verifier::external_body]
pub struct ExStdRng(StdRng);

/// Calls `rand::RngCore::fill_bytes`, which fills a buffer with random bytes.
///
/// Claimed: as many bytes come back as were asked for. Which bytes they are depends on the
/// generator, that is on chance, and is left unsaid.
#[verifier::external_body]
fn random_bytes(rng: &mut StdRng, len: usize) -> (bytes: Vec<u8>)
    ensures
        bytes@.len() == len,
{
    let mut bytes = vec![0u8; len];
    rng.fill_bytes(&mut bytes);
    bytes
}

/// A key and a value that are to be written.
#[derive(Debug)]
pub struct Payload {
    pub key: Vec<u8>,
    pub value: Vec<u8>,
}

/// A random key with a random value.
pub fn random_payload(rng: &mut StdRng) -> (payload: Payload)
    ensures
        payload.key@.len() == KEY_SIZE,
        payload.value@.len() == VALUE_SIZE,
{
    let key = random_bytes(rng, KEY_SIZE);
    let value = random_bytes(rng, VALUE_SIZE);
    Payload { key, value }
}

/// A write that the database accepted.
#[derive(Clone, Debug)]
pub struct WrittenRecord {
    pub seq: u64,
    pub key: Vec<u8>,
    pub value: Vec<u8>,
}

/// How a write ended.
#[derive(Debug)]
pub enum WriteCompletion {
    /// Its task panicked.
    Panicked { cause: String },
    /// The database refused it.
    Failed { cause: String },
    /// The database accepted it.
    Written(WrittenRecord),
}

/// How the write of `payload` ended, by the sequence number that the database gave it or by why it
/// was refused. The record holds the key and the value that were written.
pub fn write_ended(payload: Payload, put: Result<u64, String>) -> (completion: WriteCompletion)
    ensures
        completion == (match put {
            Ok(seq) => WriteCompletion::Written(
                WrittenRecord { seq, key: payload.key, value: payload.value },
            ),
            Err(cause) => WriteCompletion::Failed { cause },
        }),
{
    match put {
        Ok(seq) => WriteCompletion::Written(
            WrittenRecord { seq, key: payload.key, value: payload.value },
        ),
        Err(cause) => WriteCompletion::Failed { cause },
    }
}

/// Why the writer stopped.
#[derive(Debug)]
pub enum WriteError {
    Panicked { cause: String },
    Failed { cause: String },
}

impl WriteError {
    /// The error in words.
    pub fn message(&self) -> (text: String)
        ensures
            text@ == (match *self {
                WriteError::Panicked { .. } => "write task panicked"@,
                WriteError::Failed { .. } => "write failed"@,
            }),
    {
        match self {
            WriteError::Panicked { .. } => "write task panicked".to_owned(),
            WriteError::Failed { .. } => "write failed".to_owned(),
        }
    }
}

/// Whether a record with the sequence number `seq` is newer than the latest one.
pub open spec fn newer(latest: Option<WrittenRecord>, seq: u64) -> bool {
    match latest {
        None => true,
        Some(latest) => seq > latest.seq,
    }
}

/// The latest record once `record` was written too.
pub open spec fn latest_after(
    latest: Option<WrittenRecord>,
    record: WrittenRecord,
) -> Option<WrittenRecord> {
    if newer(latest, record.seq) {
        Some(record)
    } else {
        latest
    }
}

/// Counts a write that ended and keeps it if it is the newest; says whether it is.
pub fn record_completed_write(
    result: WriteCompletion,
    latest: &mut Option<WrittenRecord>,
    completed: &mut u64,
) -> (res: Result<bool, WriteError>)
    requires
        result is Written ==> *old(completed) < u64::MAX,
    ensures
        match result {
            WriteCompletion::Written(record) => {
                &&& res == Ok::<bool, WriteError>(newer(*old(latest), record.seq))
                &&& *final(latest) == latest_after(*old(latest), record)
                &&& *final(latest) matches Some(newest) && newest.seq >= record.seq && (newest
                    == record || *final(latest) == *old(latest))
                &&& *final(completed) == *old(completed) + 1
            },
            WriteCompletion::Panicked { cause } => {
                &&& res == Err::<bool, WriteError>(WriteError::Panicked { cause })
                &&& *final(latest) == *old(latest)
                &&& *final(completed) == *old(completed)
            },
            WriteCompletion::Failed { cause } => {
                &&& res == Err::<bool, WriteError>(WriteError::Failed { cause })
                &&& *final(latest) == *old(latest)
                &&& *final(completed) == *old(completed)
            },
        },
{
    let record = match result {
        WriteCompletion::Written(record) => record,
        WriteCompletion::Panicked { cause } => return Err(WriteError::Panicked { cause }),
        WriteCompletion::Failed { cause } => return Err(WriteError::Failed { cause }),
    };
    let is_newer = match &*latest {
        Some(current) => record.seq > current.seq,
        None => true,
    };
    if is_newer {
        *latest = Some(record);
    }
    *completed += 1;
    Ok(is_newer)
}

// ---------------------------------------------------------------------------
// The loop
// ---------------------------------------------------------------------------

/// What the writer waits for.
#[derive(Clone, Copy, Debug, PartialEq, Eq, Structural)]
pub enum WriterPhase {
    /// The next tick, or the deadline.
    Tick,
    /// That a write is started.
    Spawn,
    /// That one of the writes ends, because as many are under way as may be.
    Full,
    /// To hear whether a write has ended already.
    Poll,
    /// That the writes that are still under way end, because the deadline has passed.
    Drain,
    /// Nothing more.
    Done,
}

/// What happened.
#[derive(Debug)]
pub enum WriterEvent {
    /// The deadline has passed.
    Deadline,
    /// It is time for the next write.
    Tick,
    /// A write was started.
    Spawned,
    /// A write ended.
    Joined(WriteCompletion),
    /// No write has ended, or none is under way.
    NoneJoined,
}

/// What is to be done.
#[derive(Debug)]
pub enum WriterAction {
    /// Wait for the deadline or, if it has not passed, for the next tick.
    AwaitTick,
    /// Start a write, set up so, with a random key and a random value.
    SpawnWrite(WriteSettings),
    /// Wait until a write ends, if one is under way.
    JoinNext,
    /// See whether a write has ended.
    TryJoinNext,
    /// Report how many writes the database accepted.
    Finish(u64),
    /// Report that a write failed.
    Fail(WriteError),
}

/// The state of the writer.
pub struct WriterState {
    pub phase: WriterPhase,
    pub in_flight: nat,
    pub completed: nat,
    pub latest: Option<WrittenRecord>,
}

/// The writer before anything happened.
pub open spec fn writer_start() -> WriterState {
    WriterState { phase: WriterPhase::Tick, in_flight: 0, completed: 0, latest: None }
}

/// Whether `event` can happen while the writer is in the given state.
pub open spec fn writer_expects(state: WriterState, event: WriterEvent) -> bool {
    match event {
        WriterEvent::Deadline => state.phase == WriterPhase::Tick,
        WriterEvent::Tick => state.phase == WriterPhase::Tick,
        WriterEvent::Spawned => state.phase == WriterPhase::Spawn,
        WriterEvent::Joined(_) => {
            &&& state.in_flight > 0
            &&& state.phase == WriterPhase::Full || state.phase == WriterPhase::Poll || state.phase
                == WriterPhase::Drain
        },
        WriterEvent::NoneJoined => {
            ||| state.phase == WriterPhase::Poll
            ||| state.phase == WriterPhase::Drain && state.in_flight == 0
        },
    }
}

/// The state of the writer after `event`.
pub open spec fn writer_next(state: WriterState, event: WriterEvent) -> WriterState {
    match event {
        WriterEvent::Deadline => WriterState { phase: WriterPhase::Drain, ..state },
        WriterEvent::Tick => WriterState { phase: WriterPhase::Spawn, ..state },
        WriterEvent::Spawned => WriterState {
            phase: if state.in_flight + 1 >= MAX_IN_FLIGHT_WRITES {
                WriterPhase::Full
            } else {
                WriterPhase::Poll
            },
            in_flight: state.in_flight + 1,
            ..state
        },
        WriterEvent::Joined(WriteCompletion::Written(record)) => WriterState {
            phase: if state.phase == WriterPhase::Drain {
                WriterPhase::Drain
            } else {
                WriterPhase::Poll
            },
            in_flight: (state.in_flight - 1) as nat,
            completed: state.completed + 1,
            latest: latest_after(state.latest, record),
        },
        WriterEvent::Joined(_) => WriterState {
            phase: WriterPhase::Done,
            in_flight: (state.in_flight - 1) as nat,
            ..state
        },
        WriterEvent::NoneJoined => WriterState {
            phase: if state.phase == WriterPhase::Drain {
                WriterPhase::Done
            } else {
                WriterPhase::Tick
            },
            ..state
        },
    }
}

/// What is to be done after `event`, which brought the writer from one state to the next.
pub open spec fn writer_action(
    next: WriterState,
    event: WriterEvent,
    action: WriterAction,
) -> bool {
    match next.phase {
        WriterPhase::Tick => action == WriterAction::AwaitTick,
        WriterPhase::Spawn => action matches WriterAction::SpawnWrite(settings)
            && !settings.await_durable,
        WriterPhase::Full => action == WriterAction::JoinNext,
        WriterPhase::Poll => action == WriterAction::TryJoinNext,
        WriterPhase::Drain => action == WriterAction::JoinNext,
        WriterPhase::Done => match event {
            WriterEvent::Joined(WriteCompletion::Panicked { cause }) => action
                == WriterAction::Fail(WriteError::Panicked { cause }),
            WriterEvent::Joined(WriteCompletion::Failed { cause }) => action == WriterAction::Fail(
                WriteError::Failed { cause },
            ),
            _ => action matches WriterAction::Finish(completed) && completed == next.completed,
        },
    }
}

/// What holds of the writer at all times: the limit on writes that are under way is kept, and
/// there is room for one more whenever the writer waits for a tick or for a write to be started.
pub open spec fn within_limit(state: WriterState) -> bool {
    &&& state.in_flight <= MAX_IN_FLIGHT_WRITES
    &&& state.phase != WriterPhase::Full ==> state.in_flight < MAX_IN_FLIGHT_WRITES
    &&& state.phase == WriterPhase::Full ==> state.in_flight == MAX_IN_FLIGHT_WRITES
}

/// The writer of a run.
#[derive(Debug)]
pub struct WriterLoop {
    phase: WriterPhase,
    in_flight: usize,
    completed: u64,
}

impl WriterLoop {
    #[verifier::type_invariant]
    spec fn well_formed(self) -> bool {
        within_limit(self.state(None))
    }

    /// The state of the writer, where `latest` is the newest record that was written.
    pub closed spec fn state(&self, latest: Option<WrittenRecord>) -> WriterState {
        WriterState {
            phase: self.phase,
            in_flight: self.in_flight as nat,
            completed: self.completed as nat,
            latest,
        }
    }

    /// The state holds the latest record that it is asked about, and depends on that record in
    /// nothing else.
    pub proof fn state_holds_the_latest(&self, latest: Option<WrittenRecord>)
        ensures
            self.state(latest) == (WriterState { latest, ..self.state(None) }),
    {
    }

    /// A writer that has not started; it waits for its first tick.
    pub fn new() -> (res: WriterLoop)
        ensures
            res.state(None) == writer_start(),
    {
        WriterLoop { phase: WriterPhase::Tick, in_flight: 0, completed: 0 }
    }

    /// How many writes the database has accepted.
    pub fn completed(&self) -> (completed: u64)
        ensures
            forall|latest: Option<WrittenRecord>| #[trigger] self.state(latest).completed == completed,
    {
        self.completed
    }

    /// Takes what happened; says what is to be done, and whether the latest record changed.
    pub fn step(&mut self, event: WriterEvent, latest: &mut Option<WrittenRecord>) -> (res: (
        WriterAction,
        bool,
    ))
        requires
            writer_expects(old(self).state(*old(latest)), event),
            event matches WriterEvent::Joined(WriteCompletion::Written(_)) ==> old(self).state(
                *old(latest),
            ).completed < u64::MAX,
        ensures
            final(self).state(*final(latest)) == writer_next(
                old(self).state(*old(latest)),
                event,
            ),
            final(self).state(*final(latest)).latest == *final(latest),
            writer_action(final(self).state(*final(latest)), event, res.0),
            within_limit(final(self).state(*final(latest))),
            event is Tick ==> (res.0 matches WriterAction::SpawnWrite(settings)
                && !settings.await_durable),
            event is Deadline ==> res.0 == WriterAction::JoinNext,
            event matches WriterEvent::Joined(WriteCompletion::Written(_)) ==> (
            final(self).state(*final(latest)).completed == old(self).state(*old(latest)).completed
                + 1),
            res.1 == (event matches WriterEvent::Joined(WriteCompletion::Written(record)) && newer(
                *old(latest),
                record.seq,
            )),
    {
        proof {
            use_type_invariant(&*self);
        }
        let mut phase = self.phase;
        let mut in_flight: usize = self.in_flight;
        let mut completed: u64 = self.completed;
        let mut changed = false;
        let mut failure: Option<WriteError> = None;
        match event {
            WriterEvent::Deadline => {
                phase = WriterPhase::Drain;
            },
            WriterEvent::Tick => {
                phase = WriterPhase::Spawn;
            },
            WriterEvent::Spawned => {
                in_flight = in_flight + 1;
                phase = if in_flight >= MAX_IN_FLIGHT_WRITES {
                    WriterPhase::Full
                } else {
                    WriterPhase::Poll
                };
            },
            WriterEvent::Joined(result) => {
                in_flight = in_flight - 1;
                match record_completed_write(result, latest, &mut completed) {
                    Ok(is_newer) => {
                        changed = is_newer;
                        phase = if phase == WriterPhase::Drain {
                            WriterPhase::Drain
                        } else {
                            WriterPhase::Poll
                        };
                    },
                    Err(error) => {
                        failure = Some(error);
                        phase = WriterPhase::Done;
                    },
                }
            },
            WriterEvent::NoneJoined => {
                phase = if phase == WriterPhase::Drain {
                    WriterPhase::Done
                } else {
                    WriterPhase::Tick
                };
            },
        }
        *self = WriterLoop { phase, in_flight, completed };
        let action = match phase {
            WriterPhase::Tick => WriterAction::AwaitTick,
            WriterPhase::Spawn => WriterAction::SpawnWrite(write_settings()),
            WriterPhase::Full => WriterAction::JoinNext,
            WriterPhase::Poll => WriterAction::TryJoinNext,
            WriterPhase::Drain => WriterAction::JoinNext,
            WriterPhase::Done => match failure {
                Some(error) => WriterAction::Fail(error),
                None => WriterAction::Finish(completed),
            },
        };
        (action, changed)
    }
}

} // verus!
