use rand::rngs::StdRng;
use rand::{RngCore, SeedableRng};
use slatedb_wal_bench::writer::{
    random_payload, record_completed_write, write_ended, WriteCompletion, WriteError, WriterAction, WriterEvent,
    WriterLoop, WrittenRecord, KEY_SIZE, MAX_IN_FLIGHT_WRITES, VALUE_SIZE, WRITE_INTERVAL_MS,
};

fn record(seq: u64) -> WrittenRecord {
    WrittenRecord { seq, key: vec![seq as u8], value: vec![] }
}

fn written(seq: u64) -> WriteCompletion {
    WriteCompletion::Written(record(seq))
}

fn failed() -> WriteCompletion {
    WriteCompletion::Failed { cause: "closed".to_string() }
}

#[test]
fn payloads_come_from_the_generator() {
    let mut rng = StdRng::seed_from_u64(7);
    let first = random_payload(&mut rng);
    let second = random_payload(&mut rng);
    let mut same = StdRng::seed_from_u64(7);
    for payload in [first, second] {
        let mut key = [0_u8; KEY_SIZE];
        let mut value = [0_u8; VALUE_SIZE];
        same.fill_bytes(&mut key);
        same.fill_bytes(&mut value);
        assert_eq!(payload.key, key);
        assert_eq!(payload.value, value);
        assert!(payload.key.iter().any(|byte| *byte != 0));
    }
    assert_eq!((KEY_SIZE, VALUE_SIZE), (32, 512));
}

#[test]
fn a_thousand_writes_a_second_are_the_target() {
    assert_eq!(1_000 / WRITE_INTERVAL_MS, 1_000);
    assert_eq!(MAX_IN_FLIGHT_WRITES, 4_096);
}

#[test]
fn newest_write_is_kept() {
    let mut latest = None;
    let mut completed = 0;
    for (seq, is_newer, kept) in [(5, true, 5), (3, false, 5), (5, false, 5), (9, true, 9)] {
        let res = record_completed_write(written(seq), &mut latest, &mut completed);
        assert_eq!(res.unwrap(), is_newer);
        assert_eq!(latest.as_ref().unwrap().seq, kept);
    }
    assert_eq!(completed, 4);
    let mut none = None;
    assert!(record_completed_write(written(0), &mut none, &mut completed).unwrap());
    assert_eq!(none.unwrap().seq, 0);
}

#[test]
fn failed_writes_change_nothing() {
    let mut latest = Some(record(4));
    let mut completed = 2;
    let error = record_completed_write(failed(), &mut latest, &mut completed).unwrap_err();
    assert_eq!(error.message(), "write failed");
    assert!(matches!(error, WriteError::Failed { cause } if cause == "closed"));
    let panicked = WriteCompletion::Panicked { cause: "boom".to_string() };
    let error = record_completed_write(panicked, &mut latest, &mut completed).unwrap_err();
    assert_eq!(error.message(), "write task panicked");
    assert!(matches!(error, WriteError::Panicked { cause } if cause == "boom"));
    assert_eq!(latest.as_ref().unwrap().seq, 4);
    assert_eq!(completed, 2);
    let mut full = u64::MAX;
    assert!(record_completed_write(failed(), &mut latest, &mut full).is_err());
    assert_eq!(full, u64::MAX);
}

#[test]
fn writer_drains_what_it_started() {
    let mut writer = WriterLoop::new();
    let mut latest = None;
    assert!(matches!(
        writer.step(WriterEvent::Tick, &mut latest),
        (WriterAction::SpawnWrite(settings), false) if !settings.await_durable
    ));
    assert!(matches!(
        writer.step(WriterEvent::Spawned, &mut latest),
        (WriterAction::TryJoinNext, false)
    ));
    assert!(matches!(
        writer.step(WriterEvent::NoneJoined, &mut latest),
        (WriterAction::AwaitTick, false)
    ));
    writer.step(WriterEvent::Tick, &mut latest);
    writer.step(WriterEvent::Spawned, &mut latest);
    assert!(matches!(
        writer.step(WriterEvent::Joined(written(2)), &mut latest),
        (WriterAction::TryJoinNext, true)
    ));
    assert_eq!(writer.completed(), 1);
    writer.step(WriterEvent::NoneJoined, &mut latest);
    assert!(matches!(
        writer.step(WriterEvent::Deadline, &mut latest),
        (WriterAction::JoinNext, false)
    ));
    assert!(matches!(
        writer.step(WriterEvent::Joined(written(1)), &mut latest),
        (WriterAction::JoinNext, false)
    ));
    assert!(matches!(
        writer.step(WriterEvent::NoneJoined, &mut latest),
        (WriterAction::Finish(2), false)
    ));
    assert_eq!(latest.unwrap().seq, 2);
}

#[test]
fn writer_waits_when_too_many_writes_are_under_way() {
    let mut writer = WriterLoop::new();
    let mut latest = None;
    for started in 1..=MAX_IN_FLIGHT_WRITES {
        writer.step(WriterEvent::Tick, &mut latest);
        let (action, _) = writer.step(WriterEvent::Spawned, &mut latest);
        if started < MAX_IN_FLIGHT_WRITES {
            assert!(matches!(action, WriterAction::TryJoinNext));
            writer.step(WriterEvent::NoneJoined, &mut latest);
        } else {
            assert!(matches!(action, WriterAction::JoinNext));
        }
    }
    assert!(matches!(
        writer.step(WriterEvent::Joined(written(1)), &mut latest),
        (WriterAction::TryJoinNext, true)
    ));
    assert!(matches!(
        writer.step(WriterEvent::NoneJoined, &mut latest),
        (WriterAction::AwaitTick, false)
    ));
    let (mut action, _) = writer.step(WriterEvent::Deadline, &mut latest);
    let mut seq = 2;
    while seq <= MAX_IN_FLIGHT_WRITES as u64 {
        assert!(matches!(action, WriterAction::JoinNext));
        action = writer.step(WriterEvent::Joined(written(seq)), &mut latest).0;
        seq += 1;
    }
    assert!(matches!(action, WriterAction::JoinNext));
    assert!(matches!(
        writer.step(WriterEvent::NoneJoined, &mut latest),
        (WriterAction::Finish(4_096), false)
    ));
    assert_eq!(latest.unwrap().seq, 4_096);
}

#[test]
fn writer_stops_at_the_first_failure() {
    let mut writer = WriterLoop::new();
    let mut latest = None;
    writer.step(WriterEvent::Tick, &mut latest);
    writer.step(WriterEvent::Spawned, &mut latest);
    assert!(matches!(
        writer.step(WriterEvent::Joined(failed()), &mut latest),
        (WriterAction::Fail(WriteError::Failed { cause }), false) if cause == "closed"
    ));

    let mut writer = WriterLoop::new();
    writer.step(WriterEvent::Tick, &mut latest);
    writer.step(WriterEvent::Spawned, &mut latest);
    writer.step(WriterEvent::NoneJoined, &mut latest);
    writer.step(WriterEvent::Deadline, &mut latest);
    let panicked = WriteCompletion::Panicked { cause: "boom".to_string() };
    assert!(matches!(
        writer.step(WriterEvent::Joined(panicked), &mut latest),
        (WriterAction::Fail(WriteError::Panicked { .. }), false)
    ));
    assert_eq!(writer.completed(), 0);
    assert!(latest.is_none());
}

#[test]
fn records_hold_what_was_written() {
    let mut rng = StdRng::seed_from_u64(1);
    let payload = random_payload(&mut rng);
    let (key, value) = (payload.key.clone(), payload.value.clone());
    assert!(matches!(
        write_ended(payload, Ok(17)),
        WriteCompletion::Written(record)
            if record.seq == 17 && record.key == key && record.value == value
    ));
    assert!(matches!(
        write_ended(random_payload(&mut rng), Err("fenced".to_string())),
        WriteCompletion::Failed { cause } if cause == "fenced"
    ));
}
