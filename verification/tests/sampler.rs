use slatedb_wal_bench::sampler::{
    wait_for_seq, DbStatus, SampleError, SamplerAction, SamplerEvent, SamplerLoop, SamplerStep,
    StatusObservation, WaitError, WaitPhase, SAMPLE_INTERVAL_MS, STATUS_TIMEOUT_SECONDS,
};
use slatedb_wal_bench::writer::WrittenRecord;

fn record(seq: u64) -> WrittenRecord {
    WrittenRecord { seq, key: vec![1, seq as u8], value: vec![2, seq as u8] }
}

fn status(durable_seq: u64) -> StatusObservation {
    StatusObservation::Status(DbStatus { durable_seq, close_reason: None })
}

fn go_on(step: SamplerStep) -> (SamplerLoop, SamplerAction) {
    match step {
        SamplerStep::Continue(sampler, action) => (sampler, action),
        other => panic!("{other:?}"),
    }
}

fn fail(step: SamplerStep) -> SampleError {
    match step {
        SamplerStep::Failed(error) => error,
        other => panic!("{other:?}"),
    }
}

fn asked_for_value(seq: u64) -> SamplerLoop {
    let (sampler, action) = go_on(SamplerLoop::new().step(SamplerEvent::Tick(Some(record(seq)))));
    assert!(matches!(action, SamplerAction::AwaitDurable(target) if target == seq));
    let (sampler, action) = go_on(sampler.step(SamplerEvent::Durable(Ok(()))));
    assert!(matches!(action, SamplerAction::AwaitVisible(target) if target == seq));
    let (sampler, action) = go_on(sampler.step(SamplerEvent::Visible(Ok(1_500))));
    assert!(matches!(action, SamplerAction::Get(key) if key == record(seq).key));
    sampler
}

#[test]
fn intervals_are_those_of_the_workload() {
    assert_eq!(SAMPLE_INTERVAL_MS, 100);
    assert_eq!(STATUS_TIMEOUT_SECONDS, 60);
}

#[test]
fn wait_ends_when_the_sequence_number_is_reached() {
    assert!(!wait_for_seq(status(4), 5, WaitPhase::Durability).unwrap());
    assert!(wait_for_seq(status(5), 5, WaitPhase::Durability).unwrap());
    assert!(wait_for_seq(status(6), 5, WaitPhase::Visibility).unwrap());
    assert!(wait_for_seq(status(0), 0, WaitPhase::Visibility).unwrap());
}

#[test]
fn waits_go_on_until_a_status_is_there() {
    let mut looks = 0;
    for durable_seq in [0, 3, 3, 7, 8] {
        looks += 1;
        if wait_for_seq(status(durable_seq), 7, WaitPhase::Durability).unwrap() {
            break;
        }
    }
    assert_eq!(looks, 4);
}

#[test]
fn closed_databases_end_a_wait() {
    let closed = StatusObservation::Status(DbStatus {
        durable_seq: 9,
        close_reason: Some("Fenced".to_string()),
    });
    let error = wait_for_seq(closed, 5, WaitPhase::Durability).unwrap_err();
    assert_eq!(error.message(), "database closed during writer durability: Fenced");
}

#[test]
fn other_ends_of_a_wait_are_reported() {
    let cause = || "cause".to_string();
    let closed = StatusObservation::ChannelClosed { cause: cause() };
    let error = wait_for_seq(closed, 12, WaitPhase::Visibility).unwrap_err();
    assert_eq!(
        error.message(),
        "status channel closed during reader visibility for sequence 12"
    );
    assert!(matches!(error, WaitError::ChannelClosed { cause, .. } if cause == "cause"));
    let timed_out = StatusObservation::TimedOut { cause: cause() };
    let error = wait_for_seq(timed_out, 7, WaitPhase::Durability).unwrap_err();
    assert_eq!(error.message(), "timed out during writer durability for sequence 7");
    assert!(matches!(
        error,
        WaitError::TimedOut { phase: WaitPhase::Durability, target_seq: 7, cause } if cause == "cause"
    ));
}

#[test]
fn verified_samples_are_kept() {
    let sampler = asked_for_value(3);
    let (sampler, action) = go_on(sampler.step(SamplerEvent::Fetched(Ok(Some(record(3).value)))));
    assert!(matches!(action, SamplerAction::AwaitTick));
    match sampler.step(SamplerEvent::Deadline) {
        SamplerStep::Finished(latencies) => assert_eq!(latencies, vec![1_500]),
        other => panic!("{other:?}"),
    }
}

#[test]
fn only_newer_records_are_sampled() {
    let (sampler, action) = go_on(SamplerLoop::new().step(SamplerEvent::Tick(None)));
    assert!(matches!(action, SamplerAction::AwaitTick));
    let (sampler, action) = go_on(sampler.step(SamplerEvent::Tick(Some(record(0)))));
    assert!(matches!(action, SamplerAction::AwaitTick));
    match sampler.step(SamplerEvent::Deadline) {
        SamplerStep::Finished(latencies) => assert!(latencies.is_empty()),
        other => panic!("{other:?}"),
    }

    let sampler = asked_for_value(3);
    let (sampler, _) = go_on(sampler.step(SamplerEvent::Fetched(Ok(Some(record(3).value)))));
    let (sampler, action) = go_on(sampler.step(SamplerEvent::Tick(Some(record(3)))));
    assert!(matches!(action, SamplerAction::AwaitTick));
    let (sampler, action) = go_on(sampler.step(SamplerEvent::Tick(Some(record(2)))));
    assert!(matches!(action, SamplerAction::AwaitTick));
    let (_, action) = go_on(sampler.step(SamplerEvent::Tick(Some(record(4)))));
    assert!(matches!(action, SamplerAction::AwaitDurable(4)));
}

#[test]
fn wrong_values_stop_the_sampler() {
    for found in [None, Some(vec![]), Some(vec![2]), Some(vec![2, 8]), Some(record(4).value)] {
        let error = fail(asked_for_value(3).step(SamplerEvent::Fetched(Ok(found))));
        assert!(matches!(error, SampleError::ValueMismatch { seq: 3 }));
        assert_eq!(error.message(), "reader value mismatch at sequence 3");
    }
}

#[test]
fn failed_reads_stop_the_sampler() {
    let fetched = SamplerEvent::Fetched(Err("io".to_string()));
    let error = fail(asked_for_value(30).step(fetched));
    assert_eq!(error.message(), "reader get failed for sequence 30");
    assert!(matches!(error, SampleError::GetFailed { seq: 30, cause } if cause == "io"));
}

#[test]
fn failed_waits_stop_the_sampler() {
    let timed_out = || {
        let observation = StatusObservation::TimedOut { cause: "elapsed".to_string() };
        wait_for_seq(observation, 3, WaitPhase::Durability).unwrap_err()
    };
    let (sampler, _) = go_on(SamplerLoop::new().step(SamplerEvent::Tick(Some(record(3)))));
    let error = fail(sampler.step(SamplerEvent::Durable(Err(timed_out()))));
    assert_eq!(error.message(), "timed out during writer durability for sequence 3");

    let (sampler, _) = go_on(SamplerLoop::new().step(SamplerEvent::Tick(Some(record(3)))));
    let (sampler, _) = go_on(sampler.step(SamplerEvent::Durable(Ok(()))));
    let error = fail(sampler.step(SamplerEvent::Visible(Err(timed_out()))));
    assert!(matches!(error, SampleError::Wait(WaitError::TimedOut { .. })));
}
