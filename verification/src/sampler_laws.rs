//! What holds of every run of the sampler.

use vstd::prelude::*;

use crate::sampler::{
    DbStatus, SampleError, SamplerAction, SamplerEvent, SamplerOutcome, SamplerPhase, SamplerState,
    StatusObservation, WaitError, WaitPhase,
};
use crate::writer::WrittenRecord;

verus! {

/// How a wait for a sequence number ends, by what each look at the status shows; a wait that has
/// not ended goes on.
pub open spec fn wait_outcome(
    observations: Seq<StatusObservation>,
    target_seq: u64,
    phase: WaitPhase,
) -> Option<Result<(), WaitError>>
    decreases observations.len(),
{
    if observations.len() == 0 {
        None
    } else {
        match wait_outcome(observations.drop_last(), target_seq, phase) {
            Some(outcome) => Some(outcome),
            None => match crate::sampler::wait_decision(observations.last(), target_seq, phase) {
                Ok(true) => Some(Ok(())),
                Ok(false) => None,
                Err(error) => Some(Err(error)),
            },
        }
    }
}

/// Whether a look at the status shows an open database that has reached `target_seq`.
pub open spec fn reached(observation: StatusObservation, target_seq: u64) -> bool {
    observation matches StatusObservation::Status(status) && status.close_reason is None
        && status.durable_seq >= target_seq
}

/// Whether a look at the status shows an open database that has not reached `target_seq`.
pub open spec fn pending(observation: StatusObservation, target_seq: u64) -> bool {
    observation matches StatusObservation::Status(status) && status.close_reason is None
        && status.durable_seq < target_seq
}

/// A wait succeeds exactly when a look shows that the sequence number is reached and all looks
/// before it showed an open database that was not there yet.
pub proof fn successful_wait_saw_the_sequence_number(
    observations: Seq<StatusObservation>,
    target_seq: u64,
    phase: WaitPhase,
)
    ensures
        wait_outcome(observations, target_seq, phase) == Some(Ok::<(), WaitError>(())) <==> exists|
            at: int,
        |
            0 <= at < observations.len() && #[trigger] reached(observations[at], target_seq)
                && forall|i: int|
                0 <= i < at ==> #[trigger] pending(observations[i], target_seq),
        wait_outcome(observations, target_seq, phase) is None <==> forall|i: int|
            0 <= i < observations.len() ==> #[trigger] pending(observations[i], target_seq),
    decreases observations.len(),
{
    if observations.len() > 0 {
        let before = observations.drop_last();
        let last = observations.len() - 1;
        successful_wait_saw_the_sequence_number(before, target_seq, phase);
        assert forall|i: int| 0 <= i < last implies before[i] == observations[i] by {}
        match wait_outcome(before, target_seq, phase) {
            None => {
                assert forall|i: int| 0 <= i < last implies #[trigger] pending(
                    observations[i],
                    target_seq,
                ) by {
                    assert(pending(before[i], target_seq));
                }
                assert(reached(observations[last], target_seq) <==> crate::sampler::wait_decision(
                    observations[last],
                    target_seq,
                    phase,
                ) == Ok::<bool, WaitError>(true));
                assert(pending(observations[last], target_seq) <==> crate::sampler::wait_decision(
                    observations[last],
                    target_seq,
                    phase,
                ) == Ok::<bool, WaitError>(false));
            },
            Some(_) => {
                let k = choose|k: int| 0 <= k < last && !#[trigger] pending(before[k], target_seq);
                assert(!pending(observations[k], target_seq));
                if exists|at: int|
                    0 <= at < before.len() && #[trigger] reached(before[at], target_seq) && forall|
                        i: int,
                    |
                        0 <= i < at ==> #[trigger] pending(before[i], target_seq) {
                    let at = choose|at: int|
                        0 <= at < before.len() && #[trigger] reached(before[at], target_seq)
                            && forall|i: int|
                            0 <= i < at ==> #[trigger] pending(before[i], target_seq);
                    assert(reached(observations[at], target_seq));
                    assert forall|i: int| 0 <= i < at implies #[trigger] pending(
                        observations[i],
                        target_seq,
                    ) by {
                        assert(pending(before[i], target_seq));
                    }
                }
                if exists|at: int|
                    0 <= at < observations.len() && #[trigger] reached(
                        observations[at],
                        target_seq,
                    ) && forall|i: int|
                        0 <= i < at ==> #[trigger] pending(observations[i], target_seq) {
                    let at = choose|at: int|
                        0 <= at < observations.len() && #[trigger] reached(
                            observations[at],
                            target_seq,
                        ) && forall|i: int|
                            0 <= i < at ==> #[trigger] pending(observations[i], target_seq);
                    assert(at < last);
                    assert(reached(before[at], target_seq));
                    assert forall|i: int| 0 <= i < at implies #[trigger] pending(
                        before[i],
                        target_seq,
                    ) by {
                        assert(pending(observations[i], target_seq));
                    }
                }
            },
        }
    }
}

/// What all of `events` bring the sampler to.
pub open spec fn sampler_run(events: Seq<SamplerEvent>) -> SamplerOutcome
    decreases events.len(),
{
    if events.len() == 0 {
        SamplerOutcome::Continue(crate::sampler::sampler_start())
    } else {
        match sampler_run(events.drop_last()) {
            SamplerOutcome::Continue(state) => crate::sampler::sampler_next(state, events.last()),
            outcome => outcome,
        }
    }
}

/// Whether each of `events` can happen after those before it.
pub open spec fn sampler_trace(events: Seq<SamplerEvent>) -> bool
    decreases events.len(),
{
    events.len() > 0 ==> {
        &&& sampler_trace(events.drop_last())
        &&& sampler_run(events.drop_last()) matches SamplerOutcome::Continue(state)
        &&& crate::sampler::sampler_expects(state, events.last())
    }
}

/// A record that the reader was found to hold, and how long the reader took to see it.
pub struct Sample {
    pub seq: u64,
    pub latency: u128,
}

/// The sample that is complete when `event` happens: the reader found, for the key of the record
/// it was asked about, the value that was written.
pub open spec fn completed_sample(outcome: SamplerOutcome, event: SamplerEvent) -> Option<Sample> {
    match (outcome, event) {
        (
            SamplerOutcome::Continue(state),
            SamplerEvent::Fetched(Ok(found)),
        ) => match state.phase {
            SamplerPhase::Value(record, latency) => if crate::sampler::found_value(found, record) {
                Some(Sample { seq: record.seq, latency })
            } else {
                None
            },
            _ => None,
        },
        _ => None,
    }
}

/// The samples that `events` complete.
pub open spec fn samples(events: Seq<SamplerEvent>) -> Seq<Sample>
    decreases events.len(),
{
    if events.len() == 0 {
        seq![]
    } else {
        match completed_sample(sampler_run(events.drop_last()), events.last()) {
            Some(sample) => samples(events.drop_last()).push(sample),
            None => samples(events.drop_last()),
        }
    }
}

/// Whether each sample is of a newer record than the one before it.
pub open spec fn ever_newer(samples: Seq<Sample>) -> bool {
    forall|i: int, j: int|
        0 <= i < j < samples.len() ==> (#[trigger] samples[i]).seq < (#[trigger] samples[j]).seq
}

/// The latencies of samples.
pub open spec fn latencies_of(samples: Seq<Sample>) -> Seq<u128> {
    samples.map_values(|sample: Sample| sample.latency)
}

/// The sequence number of the record that is being sampled.
spec fn sampling(phase: SamplerPhase) -> Option<u64> {
    match phase {
        SamplerPhase::Tick => None,
        SamplerPhase::Durable(record) => Some(record.seq),
        SamplerPhase::Visible(record) => Some(record.seq),
        SamplerPhase::Value(record, _) => Some(record.seq),
    }
}

spec fn consistent(state: SamplerState, samples: Seq<Sample>) -> bool {
    &&& ever_newer(samples)
    &&& state.latencies == latencies_of(samples)
    &&& match sampling(state.phase) {
        None => forall|i: int|
            0 <= i < samples.len() ==> (#[trigger] samples[i]).seq <= state.last_sampled_seq,
        Some(seq) => seq == state.last_sampled_seq && forall|i: int|
            0 <= i < samples.len() ==> (#[trigger] samples[i]).seq < seq,
    }
}

proof fn lemma_consistent(events: Seq<SamplerEvent>)
    requires
        sampler_trace(events),
    ensures
        match sampler_run(events) {
            SamplerOutcome::Continue(state) => consistent(state, samples(events)),
            SamplerOutcome::Finished(latencies) => ever_newer(samples(events)) && latencies
                == latencies_of(samples(events)),
            SamplerOutcome::Failed(_) => ever_newer(samples(events)),
        },
    decreases events.len(),
{
    if events.len() == 0 {
        assert(latencies_of(samples(events)) =~= seq![]);
    } else {
        let before = events.drop_last();
        lemma_consistent(before);
        match completed_sample(sampler_run(before), events.last()) {
            Some(sample) => {
                assert(latencies_of(samples(before).push(sample)) =~= latencies_of(
                    samples(before),
                ).push(sample.latency));
            },
            None => {},
        }
    }
}

/// Only records that the reader was found to hold are measured, each of them newer than the one
/// before it, and the latencies that are kept are theirs.
pub proof fn sampler_measures_ever_newer_records(events: Seq<SamplerEvent>)
    requires
        sampler_trace(events),
    ensures
        ever_newer(samples(events)),
        match sampler_run(events) {
            SamplerOutcome::Continue(state) => state.latencies == latencies_of(samples(events)),
            SamplerOutcome::Finished(latencies) => latencies == latencies_of(samples(events)),
            SamplerOutcome::Failed(_) => true,
        },
{
    lemma_consistent(events);
}

/// A sampler that looked a record up and did not find the value that was written stops with an
/// error; it does not count the record.
pub proof fn wrong_value_stops_the_sampler(
    events: Seq<SamplerEvent>,
    found: Option<Vec<u8>>,
)
    requires
        sampler_trace(events.push(SamplerEvent::Fetched(Ok(found)))),
    ensures
        ({
            let after = events.push(SamplerEvent::Fetched(Ok(found)));
            &&& sampler_run(events) matches SamplerOutcome::Continue(state)
            &&& state.phase matches SamplerPhase::Value(record, _)
            &&& !crate::sampler::found_value(found, record) ==> {
                &&& sampler_run(after) is Failed
                &&& samples(after) == samples(events)
            }
            &&& crate::sampler::found_value(found, record) ==> samples(after).len() == samples(
                events,
            ).len() + 1
        }),
{
    assert(events.push(SamplerEvent::Fetched(Ok(found))).drop_last() == events);
}

// ---------------------------------------------------------------------------
// One event after the other
// ---------------------------------------------------------------------------

/// A tick that brings a record with a sequence number above the last sampled one leads to a wait for
/// the durability of exactly that record, however far ahead it is, and makes it the last sampled one;
/// a tick is passed over only if there is no record or its sequence number is not above.
pub proof fn newer_records_are_sampled(state: SamplerState, record: WrittenRecord)
    requires
        state.phase is Tick,
    ensures
        record.seq > state.last_sampled_seq ==> {
            &&& crate::sampler::sampler_next(state, SamplerEvent::Tick(Some(record)))
                matches SamplerOutcome::Continue(next)
            &&& next.phase == SamplerPhase::Durable(record)
            &&& next.last_sampled_seq == record.seq
            &&& next.latencies == state.latencies
        },
        record.seq <= state.last_sampled_seq ==> crate::sampler::sampler_next(
            state,
            SamplerEvent::Tick(Some(record)),
        ) == SamplerOutcome::Continue(state),
        crate::sampler::sampler_next(state, SamplerEvent::Tick(None)) == SamplerOutcome::Continue(
            state,
        ),
{
}

/// A record that became durable is waited for at the reader, a record that the reader sees is looked
/// up, and one that is found with its value adds exactly the time that the reader took.
pub proof fn samples_go_from_durable_to_visible_to_verified(
    state: SamplerState,
    record: WrittenRecord,
    latency: u128,
    found: Vec<u8>,
)
    ensures
        state.phase == SamplerPhase::Durable(record) ==> {
            &&& crate::sampler::sampler_next(state, SamplerEvent::Durable(Ok(())))
                matches SamplerOutcome::Continue(next)
            &&& next.phase == SamplerPhase::Visible(record)
            &&& next.last_sampled_seq == state.last_sampled_seq
            &&& next.latencies == state.latencies
        },
        state.phase == SamplerPhase::Visible(record) ==> {
            &&& crate::sampler::sampler_next(state, SamplerEvent::Visible(Ok(latency)))
                matches SamplerOutcome::Continue(next)
            &&& next.phase == SamplerPhase::Value(record, latency)
            &&& next.last_sampled_seq == state.last_sampled_seq
            &&& next.latencies == state.latencies
        },
        state.phase == SamplerPhase::Value(record, latency) && found@ == record.value@ ==> {
            &&& crate::sampler::sampler_next(state, SamplerEvent::Fetched(Ok(Some(found))))
                matches SamplerOutcome::Continue(next)
            &&& next.phase is Tick
            &&& next.last_sampled_seq == state.last_sampled_seq
            &&& next.latencies == state.latencies.push(latency)
        },
{
}

/// Another value, no value, a failed look-up and a wait that ended early stop the sampler, each with
/// its own error; the deadline ends it with all that was measured.
pub proof fn anything_else_stops_the_sampler(
    state: SamplerState,
    record: WrittenRecord,
    latency: u128,
    found: Vec<u8>,
    cause: String,
    error: WaitError,
)
    ensures
        state.phase == SamplerPhase::Value(record, latency) ==> {
            &&& found@ != record.value@ ==> crate::sampler::sampler_next(
                state,
                SamplerEvent::Fetched(Ok(Some(found))),
            ) == SamplerOutcome::Failed(SampleError::ValueMismatch { seq: record.seq })
            &&& crate::sampler::sampler_next(state, SamplerEvent::Fetched(Ok(None)))
                == SamplerOutcome::Failed(SampleError::ValueMismatch { seq: record.seq })
            &&& crate::sampler::sampler_next(state, SamplerEvent::Fetched(Err(cause)))
                == SamplerOutcome::Failed(SampleError::GetFailed { seq: record.seq, cause })
        },
        state.phase == SamplerPhase::Durable(record) ==> crate::sampler::sampler_next(
            state,
            SamplerEvent::Durable(Err(error)),
        ) == SamplerOutcome::Failed(SampleError::Wait(error)),
        state.phase == SamplerPhase::Visible(record) ==> crate::sampler::sampler_next(
            state,
            SamplerEvent::Visible(Err(error)),
        ) == SamplerOutcome::Failed(SampleError::Wait(error)),
        state.phase is Tick ==> crate::sampler::sampler_next(state, SamplerEvent::Deadline)
            == SamplerOutcome::Finished(state.latencies),
{
}

/// A sampler starts with nothing measured and the lowest sequence number, and waits for a tick.
pub proof fn sampler_starts_with_nothing()
    ensures
        crate::sampler::sampler_start().phase is Tick,
        crate::sampler::sampler_start().last_sampled_seq == 0,
        crate::sampler::sampler_start().latencies.len() == 0,
{
}

/// Whatever was measured, the sampler takes the events that it waits for.
pub proof fn sampler_takes_what_it_waits_for(state: SamplerState, event: SamplerEvent)
    ensures
        crate::sampler::sampler_expects(state, event) <==> match event {
            SamplerEvent::Deadline => state.phase is Tick,
            SamplerEvent::Tick(_) => state.phase is Tick,
            SamplerEvent::Durable(_) => state.phase is Durable,
            SamplerEvent::Visible(_) => state.phase is Visible,
            SamplerEvent::Fetched(_) => state.phase is Value,
        },
{
}

/// What is to be done is for the record that is being sampled: its sequence number is waited for, and
/// its key is looked up.
pub proof fn sampler_asks_for_the_sampled_record(
    state: SamplerState,
    action: SamplerAction,
    record: WrittenRecord,
    latency: u128,
)
    requires
        crate::sampler::sampler_action(state, action),
    ensures
        state.phase is Tick ==> action is AwaitTick,
        state.phase == SamplerPhase::Durable(record) ==> action == SamplerAction::AwaitDurable(
            record.seq,
        ),
        state.phase == SamplerPhase::Visible(record) ==> action == SamplerAction::AwaitVisible(
            record.seq,
        ),
        state.phase == SamplerPhase::Value(record, latency) ==> (action
            matches SamplerAction::Get(key) && key@ == record.key@),
{
}

/// One look at the status decides a wait: a closed database ends it with the reason, whatever is
/// durable; an open one ends it exactly when the sequence number is reached; a lost channel and the
/// end of the time end it with their cause.
pub proof fn one_look_decides_a_wait(
    durable_seq: u64,
    reason: String,
    cause: String,
    target_seq: u64,
    phase: WaitPhase,
)
    ensures
        crate::sampler::wait_decision(
            StatusObservation::Status(DbStatus { durable_seq, close_reason: Some(reason) }),
            target_seq,
            phase,
        ) == Err::<bool, WaitError>(WaitError::Closed { phase, reason }),
        crate::sampler::wait_decision(
            StatusObservation::Status(DbStatus { durable_seq, close_reason: None }),
            target_seq,
            phase,
        ) == Ok::<bool, WaitError>(durable_seq >= target_seq),
        crate::sampler::wait_decision(
            StatusObservation::ChannelClosed { cause },
            target_seq,
            phase,
        ) == Err::<bool, WaitError>(WaitError::ChannelClosed { phase, target_seq, cause }),
        crate::sampler::wait_decision(StatusObservation::TimedOut { cause }, target_seq, phase)
            == Err::<bool, WaitError>(WaitError::TimedOut { phase, target_seq, cause }),
{
}

} // verus!
