use tgbot::consumer::{
    classify_create_error, classify_read_error, entry_data, step, CreateOutcome, LogEntry,
    LoopDirective, LoopEvent, LoopState, ReadError, StreamGroup,
};

#[test]
fn classifies_read_errors() {
    assert_eq!(
        classify_read_error("NOGROUP No such consumer group 'telegram_bot'"),
        ReadError::GroupMissing
    );
    assert_eq!(classify_read_error("connection refused"), ReadError::Other);
}

#[test]
fn classifies_create_errors() {
    assert_eq!(
        classify_create_error("BUSYGROUP Consumer Group name already exists"),
        CreateOutcome::AlreadyExists
    );
    assert_eq!(classify_create_error("ERR no such key"), CreateOutcome::StreamMissing);
}

#[test]
fn recovery_bootstrap_reaches_reading_again() {
    let (s, d) = step(
        LoopState::Reading,
        LoopEvent::ReadFailed { error: ReadError::GroupMissing },
    );
    assert_eq!(s, LoopState::Recovering);
    assert_eq!(d, LoopDirective::CreateGroup);

    for outcome in [CreateOutcome::Created, CreateOutcome::AlreadyExists, CreateOutcome::StreamMissing] {
        let (s2, d2) = step(LoopState::Recovering, LoopEvent::CreateFinished { outcome });
        assert_eq!(s2, LoopState::Reading);
        assert_eq!(d2, LoopDirective::Delay { millis: 500 });
        let (s3, d3) = step(s2, LoopEvent::DelayElapsed);
        assert_eq!(s3, LoopState::Reading);
        assert_eq!(d3, LoopDirective::Read);
    }
}

#[test]
fn steady_state_polling_cadence() {
    assert_eq!(
        step(LoopState::Reading, LoopEvent::EmptyRead),
        (LoopState::Reading, LoopDirective::Delay { millis: 100 })
    );
    assert_eq!(
        step(LoopState::Reading, LoopEvent::BatchRead),
        (LoopState::Reading, LoopDirective::ProcessThenDelay { millis: 100 })
    );
}

#[test]
fn unclassified_errors_back_off_one_second() {
    let (s, d) = step(LoopState::Reading, LoopEvent::ReadFailed { error: ReadError::Other });
    assert_eq!(s, LoopState::IdleBackoff);
    assert_eq!(d, LoopDirective::Delay { millis: 1000 });
    assert_eq!(
        step(s, LoopEvent::DelayElapsed),
        (LoopState::Reading, LoopDirective::Read)
    );
}

fn group_with(ids: &[u64]) -> StreamGroup {
    StreamGroup {
        entries: ids
            .iter()
            .map(|id| LogEntry { id: *id, payload: format!("payload {id}") })
            .collect(),
        last_delivered: 0,
        acked: Vec::new(),
    }
}

#[test]
fn reads_are_bounded_and_in_order() {
    let mut g = group_with(&[1, 2, 3, 4, 5]);
    let batch = g.read_new(3);
    let ids: Vec<u64> = batch.iter().map(|e| e.id).collect();
    assert_eq!(ids, vec![1, 2, 3]);
    assert_eq!(g.last_delivered, 3);
}

#[test]
fn an_entry_is_never_delivered_twice() {
    let mut g = group_with(&[10, 20, 30]);
    let first = g.read_new(10);
    assert_eq!(first.len(), 3);
    for e in &first {
        g.ack(e.id);
    }
    let second = g.read_new(10);
    assert!(second.is_empty());

    // the cursor stands even when an entry was processed but the loop
    // re-reads before more entries arrive
    let third = g.read_new(10);
    assert!(third.is_empty());
    assert_eq!(g.acked, vec![10, 20, 30]);
}

#[test]
fn later_entries_are_still_delivered_once_each() {
    let mut g = group_with(&[1, 2]);
    let first = g.read_new(10);
    assert_eq!(first.len(), 2);
    g.ack(1);
    g.ack(2);
    g.entries.push(LogEntry { id: 3, payload: "payload 3".to_string() });
    let second = g.read_new(10);
    let ids: Vec<u64> = second.iter().map(|e| e.id).collect();
    assert_eq!(ids, vec![3]);
}

#[test]
fn acknowledgment_never_rewinds_the_cursor() {
    let mut g = group_with(&[5, 6]);
    let _ = g.read_new(10);
    let before = g.last_delivered;
    g.ack(5);
    g.ack(6);
    assert_eq!(g.last_delivered, before);
}

#[test]
fn entry_data_takes_the_first_data_field() {
    let fields = vec![
        ("meta".to_string(), "x".to_string()),
        ("data".to_string(), "{\"message\":\"hi\"}".to_string()),
        ("data".to_string(), "other".to_string()),
    ];
    assert_eq!(entry_data(&fields), Some("{\"message\":\"hi\"}".to_string()));
    let none = vec![("meta".to_string(), "x".to_string())];
    assert_eq!(entry_data(&none), None);
    assert_eq!(entry_data(&Vec::new()), None);
}
