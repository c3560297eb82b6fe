use agent_loom_runtime::json::JsonValue;
use agent_loom_runtime::state::{
    payload_digest, CommandRecord, DeliveredEvent, QueuedEvent, State, StateError, StoreWrite, RETENTION_MICROS,
};

const DAY: i64 = 86_400_000_000;

fn payload(n: i64) -> JsonValue {
    JsonValue::Object(vec![("n".to_string(), JsonValue::Number(n.to_string()))])
}

#[test]
fn retention_prunes_only_old_delivered_evidence() {
    let mut state = State::new();
    for n in 0..4 {
        state.queue_event_at("ack", payload(n), 0).unwrap();
    }
    state.delivered_at(1, 0).unwrap();
    state.delivered_at(2, 3 * DAY).unwrap();
    let now = 5 * DAY;
    let removed = state.prune_detailed_evidence(now);
    assert_eq!(removed, 1);
    assert_eq!(state.status().queued_events, 2);
    assert!(state.delivered_event(1).is_none());
    assert!(state.delivered_event(2).is_some());
    let pending: Vec<i64> = state.pending_events().iter().map(|e| e.id).collect();
    assert_eq!(pending, vec![3, 4]);
}

#[test]
fn retention_keeps_evidence_exactly_at_the_cutoff() {
    let mut state = State::new();
    state.queue_event_at("ack", payload(1), 0).unwrap();
    state.delivered_at(1, 10 * DAY - RETENTION_MICROS).unwrap();
    assert_eq!(state.prune_detailed_evidence(10 * DAY), 0);
    assert_eq!(state.prune_detailed_evidence(10 * DAY + 1), 1);
}

#[test]
fn pending_events_come_oldest_first_and_at_most_a_hundred() {
    let mut state = State::new();
    for n in 0..105 {
        state.queue_event_at("progress", payload(n), n).unwrap();
    }
    let pending = state.pending_events();
    assert_eq!(pending.len(), 100);
    assert_eq!(pending[0].id, 1);
    assert_eq!(pending[99].id, 100);
    assert_eq!(pending[0].kind, "progress");
}

#[test]
fn queue_ids_follow_the_largest_id_in_use() {
    let mut state = State::new();
    state.queue_event_at("ack", payload(1), 0).unwrap();
    state.queue_event_at("ack", payload(2), 0).unwrap();
    state.delivered_at(2, 0).unwrap();
    state.queue_event_at("ack", payload(3), 0).unwrap();
    let ids: Vec<i64> = state.pending_events().iter().map(|e| e.id).collect();
    assert_eq!(ids, vec![1, 2]);
    state.delivered_at(1, 0).unwrap();
    assert_eq!(state.delivered_event(2).unwrap().id, 2);
}

#[test]
fn delivering_an_unknown_event_changes_nothing() {
    let mut state = State::new();
    state.queue_event_at("ack", payload(1), 0).unwrap();
    let _ = state.take_writes();
    state.delivered_at(42, 0).unwrap();
    assert_eq!(state.status().queued_events, 1);
    assert!(state.take_writes().is_empty());
}

#[test]
fn failed_delivery_counts_attempts_and_remembers_the_error() {
    let mut state = State::new();
    state.queue_event_at("ack", payload(1), 0).unwrap();
    state.failed_delivery(1, "offline");
    state.failed_delivery(1, "refused");
    let event = state.queued_event(1).unwrap();
    assert_eq!(event.attempts, 2);
    assert_eq!(event.last_error.as_deref(), Some("refused"));
    assert_eq!(state.meta_value("last_error").as_deref(), Some("refused"));
    assert_eq!(state.status().queued_events, 1);
}

#[test]
fn metadata_keeps_the_last_value_per_key() {
    let mut state = State::new();
    state.set_meta("a", "1");
    state.set_meta("b", "2");
    state.set_meta("a", "3");
    assert_eq!(state.meta_value("a").as_deref(), Some("3"));
    assert_eq!(state.meta_value("b").as_deref(), Some("2"));
    assert_eq!(state.meta_value("c"), None);
    assert_eq!(state.status().last_error, None);
}

#[test]
fn recorded_commands_keep_only_the_digest_of_their_instruction() {
    let mut state = State::new();
    assert!(state.record_command_at(7, &JsonValue::Object(vec![]), 11));
    let record = state.command_record(7).unwrap();
    assert_eq!(
        record.payload_digest,
        "sha256:44136fa355b3678a1146ad16f7e8649e94fb4fc21fe77e8310c060f61caaff8a"
    );
    assert_eq!(record.received_at, 11);
    assert_eq!(payload_digest("{}"), record.payload_digest);
    assert_eq!(state.status().known_commands, 1);
}

#[test]
fn every_change_is_reported_for_durable_storage() {
    let mut state = State::new();
    state.save_identity(1, "s");
    assert!(state.record_command_at(9, &JsonValue::Object(vec![]), 0));
    assert!(!state.record_command_at(9, &JsonValue::Object(vec![]), 0));
    state.queue_event_at("ack", payload(1), 0).unwrap();
    state.failed_delivery(1, "x");
    state.delivered_at(1, 0).unwrap();
    let writes = state.take_writes();
    assert!(matches!(writes[0], StoreWrite::Identity));
    assert!(matches!(writes[1], StoreWrite::Command(9)));
    assert!(matches!(writes[2], StoreWrite::Queued(1)));
    assert!(matches!(writes[3], StoreWrite::Failed(1)));
    assert!(matches!(&writes[4], StoreWrite::Meta(k) if k == "last_error"));
    assert!(matches!(writes[5], StoreWrite::Delivered { queued_id: 1, history_id: 1 }));
    assert_eq!(writes.len(), 6);
    assert!(state.take_writes().is_empty());
}

#[test]
fn restore_refuses_rows_out_of_order_or_repeated() {
    let event = |id: i64| QueuedEvent {
        id,
        kind: "ack".into(),
        payload: JsonValue::Null,
        created_at: 0,
        attempts: 0,
        last_error: None,
    };
    assert!(matches!(
        State::restore(None, vec![], vec![event(2), event(1)], vec![], vec![]),
        Err(StateError::Inconsistent)
    ));
    let record = |id: u128| CommandRecord {
        command_id: id,
        payload_digest: String::new(),
        received_at: 0,
    };
    assert!(matches!(
        State::restore(None, vec![record(1), record(1)], vec![], vec![], vec![]),
        Err(StateError::Inconsistent)
    ));
    let delivered = |id: i64| DeliveredEvent {
        id,
        kind: "ack".into(),
        payload: JsonValue::Null,
        created_at: 0,
        delivered_at: 0,
    };
    let state = State::restore(None, vec![record(1)], vec![event(1), event(5)], vec![delivered(3)], vec![]).unwrap();
    assert_eq!(state.status().queued_events, 2);
    assert_eq!(state.status().known_commands, 1);
    assert!(!state.status().identity_present);
}

#[test]
fn state_error_texts() {
    assert_eq!(StateError::IdSpaceExhausted.message(), "no row id is left");
    assert_eq!(StateError::Inconsistent.message(), "stored state is inconsistent");
}

#[test]
fn queue_refuses_when_no_id_is_left() {
    let event = QueuedEvent {
        id: i64::MAX,
        kind: "ack".into(),
        payload: JsonValue::Null,
        created_at: 0,
        attempts: 0,
        last_error: None,
    };
    let mut state = State::restore(None, vec![], vec![event], vec![], vec![]).unwrap();
    assert!(matches!(state.queue_event_at("ack", JsonValue::Null, 0), Err(StateError::IdSpaceExhausted)));
    assert_eq!(state.status().queued_events, 1);
}
