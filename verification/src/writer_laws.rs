//! What holds of every run of the writer.

use vstd::prelude::*;

use crate::writer::{
    WriteCompletion, WriteError, WriterAction, WriterEvent, WriterPhase, WriterState, WrittenRecord,
    MAX_IN_FLIGHT_WRITES,
};

verus! {

/// The state of the writer after all of `events`.
pub open spec fn writer_run(events: Seq<WriterEvent>) -> WriterState
    decreases events.len(),
{
    if events.len() == 0 {
        crate::writer::writer_start()
    } else {
        crate::writer::writer_next(writer_run(events.drop_last()), events.last())
    }
}

/// Whether each of `events` can happen after those before it.
pub open spec fn writer_trace(events: Seq<WriterEvent>) -> bool
    decreases events.len(),
{
    events.len() > 0 ==> {
        &&& writer_trace(events.drop_last())
        &&& crate::writer::writer_expects(writer_run(events.drop_last()), events.last())
    }
}

/// The record that an event says was written.
pub open spec fn written(event: WriterEvent) -> Option<WrittenRecord> {
    match event {
        WriterEvent::Joined(WriteCompletion::Written(record)) => Some(record),
        _ => None,
    }
}

/// How many writes were started.
pub open spec fn started(events: Seq<WriterEvent>) -> nat
    decreases events.len(),
{
    if events.len() == 0 {
        0
    } else {
        started(events.drop_last()) + if events.last() is Spawned {
            1nat
        } else {
            0nat
        }
    }
}

/// How many writes ended, well or not.
pub open spec fn ended(events: Seq<WriterEvent>) -> nat
    decreases events.len(),
{
    if events.len() == 0 {
        0
    } else {
        ended(events.drop_last()) + if events.last() is Joined {
            1nat
        } else {
            0nat
        }
    }
}

/// How many writes the database accepted.
pub open spec fn accepted(events: Seq<WriterEvent>) -> nat
    decreases events.len(),
{
    if events.len() == 0 {
        0
    } else {
        accepted(events.drop_last()) + if written(events.last()) is Some {
            1nat
        } else {
            0nat
        }
    }
}

/// Never are more writes under way than the limit allows; those that are under way are those
/// that were started and have not ended; and the writer counts those that were accepted.
pub proof fn writer_keeps_count(events: Seq<WriterEvent>)
    requires
        writer_trace(events),
    ensures
        crate::writer::within_limit(writer_run(events)),
        writer_run(events).in_flight + ended(events) == started(events),
        writer_run(events).completed == accepted(events),
        started(events) - ended(events) <= MAX_IN_FLIGHT_WRITES,
    decreases events.len(),
{
    if events.len() > 0 {
        writer_keeps_count(events.drop_last());
    }
}

/// Every write that ended was accepted, unless the writer stopped because one was not.
proof fn lemma_no_failure_goes_unnoticed(events: Seq<WriterEvent>)
    requires
        writer_trace(events),
    ensures
        writer_run(events).phase != WriterPhase::Done || events.last() is NoneJoined
            ==> ended(events) == accepted(events),
    decreases events.len(),
{
    if events.len() > 0 {
        lemma_no_failure_goes_unnoticed(events.drop_last());
    }
}

/// A writer that finishes without an error has waited for every write that it started, and the
/// database accepted them all: the number that it reports.
pub proof fn finished_writer_accounts_for_every_write(events: Seq<WriterEvent>)
    requires
        writer_trace(events),
        events.len() > 0,
        events.last() is NoneJoined,
        writer_run(events).phase == WriterPhase::Done,
    ensures
        writer_run(events).in_flight == 0,
        writer_run(events).completed == started(events),
{
    writer_keeps_count(events);
    lemma_no_failure_goes_unnoticed(events);
}

/// The latest record is one of those that were written, and none of them has a higher sequence
/// number; there is none exactly as long as nothing was written.
pub proof fn latest_record_is_the_newest(events: Seq<WriterEvent>)
    ensures
        writer_run(events).latest matches Some(latest) ==> exists|i: int|
            0 <= i < events.len() && #[trigger] written(events[i]) == Some(latest),
        forall|i: int|
            0 <= i < events.len() && (#[trigger] written(events[i])) is Some ==> {
                &&& writer_run(events).latest is Some
                &&& written(events[i])->0.seq <= writer_run(events).latest->0.seq
            },
    decreases events.len(),
{
    if events.len() > 0 {
        let before = events.drop_last();
        latest_record_is_the_newest(before);
        let state = writer_run(events);
        if state.latest is Some {
            if state.latest == writer_run(before).latest {
                let i = choose|i: int|
                    0 <= i < before.len() && #[trigger] written(before[i]) == writer_run(
                        before,
                    ).latest;
                assert(written(events[i]) == state.latest);
            } else {
                assert(written(events[events.len() - 1]) == state.latest);
            }
        }
        assert forall|i: int|
            0 <= i < events.len() && (#[trigger] written(events[i])) is Some implies {
            &&& state.latest is Some
            &&& written(events[i])->0.seq <= state.latest->0.seq
        } by {
            if i < before.len() {
                assert(written(before[i]) is Some);
            }
        }
    }
}

// ---------------------------------------------------------------------------
// Ticks and the deadline
// ---------------------------------------------------------------------------

/// How often it was time for a write.
pub open spec fn ticks(events: Seq<WriterEvent>) -> nat
    decreases events.len(),
{
    if events.len() == 0 {
        0
    } else {
        ticks(events.drop_last()) + if events.last() is Tick {
            1nat
        } else {
            0nat
        }
    }
}

/// Every tick is followed by the start of a write: as many writes were started as there were ticks,
/// but for one that is about to be started.
pub proof fn every_tick_starts_a_write(events: Seq<WriterEvent>)
    requires
        writer_trace(events),
    ensures
        writer_run(events).phase == WriterPhase::Spawn ==> started(events) + 1 == ticks(events),
        writer_run(events).phase != WriterPhase::Spawn ==> started(events) == ticks(events),
        events.len() > 0 && events.last() is Tick ==> writer_run(events).phase
            == WriterPhase::Spawn,
    decreases events.len(),
{
    if events.len() > 0 {
        every_tick_starts_a_write(events.drop_last());
    }
}

/// Whether an event says that a write did not succeed.
pub open spec fn went_wrong(event: WriterEvent) -> bool {
    match event {
        WriterEvent::Joined(WriteCompletion::Panicked { .. }) => true,
        WriterEvent::Joined(WriteCompletion::Failed { .. }) => true,
        _ => false,
    }
}

/// The writer goes on until the deadline unless a write fails: only after the deadline does it wait
/// for the writes that are under way, and it is done only then or after a failure.
pub proof fn writer_goes_on_until_the_deadline(events: Seq<WriterEvent>)
    requires
        writer_trace(events),
        forall|i: int| 0 <= i < events.len() ==> !((#[trigger] events[i]) is Deadline),
        forall|i: int| 0 <= i < events.len() ==> !went_wrong(#[trigger] events[i]),
    ensures
        writer_run(events).phase != WriterPhase::Drain,
        writer_run(events).phase != WriterPhase::Done,
    decreases events.len(),
{
    if events.len() > 0 {
        let before = events.drop_last();
        assert forall|i: int| 0 <= i < before.len() implies !((#[trigger] before[i]) is Deadline)
            && !went_wrong(before[i]) by {
            assert(before[i] == events[i]);
        }
        writer_goes_on_until_the_deadline(before);
        let last = events[events.len() - 1];
        assert(!(last is Deadline) && !went_wrong(last));
    }
}

/// After the deadline no write is started.
pub proof fn no_write_is_started_after_the_deadline(events: Seq<WriterEvent>, at: int)
    requires
        writer_trace(events),
        0 <= at < events.len(),
        events[at] is Deadline,
    ensures
        writer_run(events).phase == WriterPhase::Drain || writer_run(events).phase
            == WriterPhase::Done,
        started(events) == started(events.take(at)),
    decreases events.len(),
{
    let before = events.drop_last();
    if at < before.len() {
        assert(before[at] == events[at]);
        no_write_is_started_after_the_deadline(before, at);
        assert(before.take(at) == events.take(at));
    } else {
        assert(before == events.take(at));
    }
}

/// A writer starts with nothing under way and nothing written, and waits for a tick.
pub proof fn writer_starts_with_nothing()
    ensures
        crate::writer::writer_start().phase == WriterPhase::Tick,
        crate::writer::writer_start().in_flight == 0,
        crate::writer::writer_start().completed == 0,
        crate::writer::writer_start().latest is None,
{
}

/// Whatever the counts are, a writer that waits for a tick takes a tick and the deadline; one that is
/// to start a write takes its start; one that waits for writes takes the end of any that is under
/// way; one that asks whether a write has ended takes that none has; and one that waits for the last
/// writes takes that none is left.
pub proof fn writer_takes_what_it_waits_for(
    state: WriterState,
    completion: WriteCompletion,
)
    ensures
        state.phase == WriterPhase::Tick ==> crate::writer::writer_expects(state, WriterEvent::Tick)
            && crate::writer::writer_expects(state, WriterEvent::Deadline),
        state.phase == WriterPhase::Spawn ==> crate::writer::writer_expects(
            state,
            WriterEvent::Spawned,
        ),
        state.in_flight > 0 && (state.phase == WriterPhase::Full || state.phase
            == WriterPhase::Poll || state.phase == WriterPhase::Drain)
            ==> crate::writer::writer_expects(state, WriterEvent::Joined(completion)),
        state.phase == WriterPhase::Poll ==> crate::writer::writer_expects(
            state,
            WriterEvent::NoneJoined,
        ),
        state.phase == WriterPhase::Drain && state.in_flight == 0 ==> crate::writer::writer_expects(
            state,
            WriterEvent::NoneJoined,
        ),
{
}

/// A tick, the deadline, the start of a write and the news that none has ended leave what was written
/// as it is; they bring the writer to the start of a write, to the wait for the last writes, to the
/// wait for writes or to the next tick. As long as fewer than 4,096 writes are under way the writer
/// does not wait for one to end.
pub proof fn writer_moves_on(state: WriterState)
    ensures
        ({
            let next = crate::writer::writer_next(state, WriterEvent::Tick);
            &&& next.phase == WriterPhase::Spawn
            &&& next.in_flight == state.in_flight
            &&& next.completed == state.completed
            &&& next.latest == state.latest
        }),
        ({
            let next = crate::writer::writer_next(state, WriterEvent::Deadline);
            &&& next.phase == WriterPhase::Drain
            &&& next.in_flight == state.in_flight
            &&& next.completed == state.completed
            &&& next.latest == state.latest
        }),
        ({
            let next = crate::writer::writer_next(state, WriterEvent::Spawned);
            &&& next.in_flight == state.in_flight + 1
            &&& next.phase == WriterPhase::Full <==> next.in_flight >= 4096
            &&& next.phase == WriterPhase::Poll <==> next.in_flight < 4096
            &&& next.completed == state.completed
            &&& next.latest == state.latest
        }),
        ({
            let next = crate::writer::writer_next(state, WriterEvent::NoneJoined);
            &&& state.phase == WriterPhase::Poll ==> next.phase == WriterPhase::Tick
            &&& state.phase == WriterPhase::Drain ==> next.phase == WriterPhase::Done
            &&& next.in_flight == state.in_flight
            &&& next.completed == state.completed
            &&& next.latest == state.latest
        }),
{
}

/// A write that was accepted is counted, is no longer under way, and is the latest record exactly
/// when none with as high a sequence number was; the writer goes on as before. Any other end of a
/// write stops the writer and counts for nothing.
pub proof fn accepted_writes_count_and_others_stop_the_writer(
    state: WriterState,
    record: WrittenRecord,
    cause: String,
)
    requires
        state.in_flight > 0,
    ensures
        ({
            let next = crate::writer::writer_next(
                state,
                WriterEvent::Joined(WriteCompletion::Written(record)),
            );
            &&& next.in_flight == state.in_flight - 1
            &&& next.completed == state.completed + 1
            &&& state.phase == WriterPhase::Drain ==> next.phase == WriterPhase::Drain
            &&& state.phase == WriterPhase::Full || state.phase == WriterPhase::Poll ==> next.phase
                == WriterPhase::Poll
            &&& state.latest is None ==> next.latest == Some(record)
            &&& state.latest matches Some(latest) ==> {
                &&& record.seq > latest.seq ==> next.latest == Some(record)
                &&& record.seq <= latest.seq ==> next.latest == Some(latest)
            }
        }),
        ({
            let next = crate::writer::writer_next(
                state,
                WriterEvent::Joined(WriteCompletion::Failed { cause }),
            );
            &&& next.phase == WriterPhase::Done
            &&& next.in_flight == state.in_flight - 1
            &&& next.completed == state.completed
            &&& next.latest == state.latest
        }),
        ({
            let next = crate::writer::writer_next(
                state,
                WriterEvent::Joined(WriteCompletion::Panicked { cause }),
            );
            &&& next.phase == WriterPhase::Done
            &&& next.in_flight == state.in_flight - 1
            &&& next.completed == state.completed
            &&& next.latest == state.latest
        }),
{
}

/// What is to be done says where the writer is, and only at the end what was counted or why it
/// stopped.
pub proof fn writer_does_what_its_phase_says(
    next: WriterState,
    event: WriterEvent,
    action: WriterAction,
    cause: String,
)
    requires
        crate::writer::writer_action(next, event, action),
    ensures
        action is AwaitTick <==> next.phase == WriterPhase::Tick,
        action is SpawnWrite <==> next.phase == WriterPhase::Spawn,
        action matches WriterAction::SpawnWrite(settings) ==> !settings.await_durable,
        action is JoinNext <==> next.phase == WriterPhase::Full || next.phase == WriterPhase::Drain,
        action is TryJoinNext <==> next.phase == WriterPhase::Poll,
        next.phase == WriterPhase::Done && event == WriterEvent::Joined(
            WriteCompletion::Failed { cause },
        ) ==> action == WriterAction::Fail(WriteError::Failed { cause }),
        next.phase == WriterPhase::Done && event == WriterEvent::Joined(
            WriteCompletion::Panicked { cause },
        ) ==> action == WriterAction::Fail(WriteError::Panicked { cause }),
        next.phase == WriterPhase::Done && !went_wrong(event) ==> (action
            matches WriterAction::Finish(writes) && writes == next.completed),
{
}

/// Whether a record is newer depends on its sequence number alone, and anything is newer than nothing.
pub proof fn newer_records_have_higher_sequence_numbers(latest: WrittenRecord, seq: u64)
    ensures
        crate::writer::newer(None, seq),
        crate::writer::newer(Some(latest), seq) <==> seq > latest.seq,
{
}

/// Never are more than 4,096 writes under way, and the writer waits because of that only when there
/// are that many.
pub proof fn limit_is_4096_writes(state: WriterState)
    requires
        crate::writer::within_limit(state),
    ensures
        state.in_flight <= 4096,
        state.phase == WriterPhase::Full ==> state.in_flight == 4096,
        state.phase == WriterPhase::Tick || state.phase == WriterPhase::Spawn ==> state.in_flight
            < 4096,
{
}

} // verus!
