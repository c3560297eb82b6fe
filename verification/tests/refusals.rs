use agent_loom_runtime::client::idempotency_key;
use agent_loom_runtime::clock::{moment_from, new_message_id, now, StampError};
use agent_loom_runtime::daemon::{
    accept_command, capability_of, conclude_command, settle_delivery, Capability, Delivery, Outcome,
};
use agent_loom_runtime::repo_sync::SyncError;
use agent_loom_runtime::hermes::HermesError;
use agent_loom_runtime::json::JsonValue;
use agent_loom_runtime::protocol::{Command, Envelope, CommandRef};
use agent_loom_runtime::state::{DeliveredEvent, QueuedEvent, State, StateError};
use uuid::Uuid;

fn queued(id: i64) -> QueuedEvent {
    QueuedEvent { id, kind: "ack".into(), payload: JsonValue::Null, created_at: 0, attempts: 0, last_error: None }
}

fn command(id: u128) -> Envelope<Command> {
    Envelope::new(Command { command_id: id, instruction: JsonValue::Null, lease_token: None, lease_expires_at: None })
        .unwrap()
}

#[test]
fn new_command_is_refused_whole_when_the_queue_has_no_room_for_both_events() {
    let mut state = State::restore(None, vec![], vec![queued(i64::MAX - 1)], vec![], vec![]).unwrap();
    assert!(matches!(accept_command(&mut state, &command(7)), Err(StateError::IdSpaceExhausted)));
    assert!(!state.knows(7));
    assert_eq!(state.status().queued_events, 1);
    let mut roomy = State::restore(None, vec![], vec![queued(i64::MAX - 2)], vec![], vec![]).unwrap();
    assert!(accept_command(&mut roomy, &command(7)).unwrap());
    assert_eq!(roomy.status().queued_events, 3);
}

#[test]
fn conclusion_is_refused_only_when_no_queue_id_is_left() {
    let mut full = State::restore(None, vec![], vec![queued(i64::MAX)], vec![], vec![]).unwrap();
    assert!(matches!(
        conclude_command(&mut full, 7, Outcome::Run(Err(HermesError::Cancelled))),
        Err(StateError::IdSpaceExhausted)
    ));
    assert_eq!(full.status().queued_events, 1);
    let mut state = State::new();
    conclude_command(&mut state, 7, Outcome::Run(Err(HermesError::Cancelled))).unwrap();
    assert_eq!(state.status().queued_events, 1);
}

#[test]
fn delivery_is_refused_only_when_no_history_id_is_left() {
    let last = DeliveredEvent { id: i64::MAX, kind: "ack".into(), payload: JsonValue::Null, created_at: 0, delivered_at: 0 };
    let mut state = State::restore(None, vec![], vec![queued(1)], vec![last], vec![]).unwrap();
    assert!(matches!(settle_delivery(&mut state, 1, Delivery::Recorded), Err(StateError::IdSpaceExhausted)));
    assert_eq!(state.status().queued_events, 1);
    assert!(settle_delivery(&mut state, 99, Delivery::Recorded).unwrap());
}

#[test]
fn stamps_are_readable_times_and_random_ids() {
    let moment = now().unwrap();
    assert!(moment.micros > 0);
    assert!(moment.rfc3339.parse::<chrono::DateTime<chrono::Utc>>().is_ok());
    let envelope = Envelope::new(CommandRef { command_id: 1 }).unwrap();
    assert!(envelope.sent_at.parse::<chrono::DateTime<chrono::Utc>>().is_ok());
    assert_eq!(Uuid::from_u128(envelope.message_id).get_version_num(), 4);
    assert_eq!(idempotency_key(envelope.message_id), Uuid::from_u128(envelope.message_id).to_string());
    assert_eq!(StampError::ClockUnavailable.message(), "system time is not usable");
    assert_eq!(
        StateError::Stamp(StampError::RandomnessUnavailable).message(),
        "could not retrieve random bytes for a message id"
    );
}

fn field<'a>(value: &'a JsonValue, key: &str) -> &'a JsonValue {
    value.get(key).unwrap()
}

#[test]
fn repository_synchronisations_are_routed_and_reported() {
    let sync = JsonValue::Object(vec![("kind".into(), JsonValue::Text("repo.sync".into()))]);
    let run = JsonValue::Object(vec![("kind".into(), JsonValue::Text("hermes.run".into()))]);
    assert_eq!(capability_of(&sync), Capability::RepoSync);
    assert_eq!(capability_of(&run), Capability::Hermes);
    assert_eq!(capability_of(&JsonValue::Null), Capability::Hermes);
    let mut state = State::new();
    conclude_command(&mut state, 1, Outcome::Sync(Ok("Already up to date.".into()))).unwrap();
    conclude_command(&mut state, 2, Outcome::Sync(Err(SyncError::Command("denied".into())))).unwrap();
    let events = state.pending_events();
    assert_eq!(events[0].kind, "result");
    assert!(matches!(field(field(&events[0].payload, "result"), "output"), JsonValue::Text(t) if t == "Already up to date."));
    assert_eq!(events[1].kind, "error");
    let error = field(&events[1].payload, "error");
    assert!(matches!(field(error, "code"), JsonValue::Text(t) if t == "execution_failed"));
    assert!(matches!(field(error, "message"), JsonValue::Text(t) if t == "repository sync command failed: denied"));
}

#[test]
fn clock_readings_become_moments() {
    let epoch = moment_from(0, 0).unwrap();
    assert_eq!(epoch.micros, 0);
    assert_eq!(epoch.rfc3339, "1970-01-01T00:00:00Z");
    let later = moment_from(1_767_225_600, 123_456_789).unwrap();
    assert_eq!(later.micros, 1_767_225_600_123_456);
    assert_eq!(later.rfc3339, "2026-01-01T00:00:00.123456789Z");
    assert!(matches!(moment_from(u64::MAX, 0), Err(StampError::ClockUnavailable)));
    assert!(matches!(moment_from(9_223_372_036_854, 999_999_999), Err(StampError::ClockUnavailable)));
    let id = Uuid::from_u128(new_message_id().unwrap());
    assert_eq!(id.get_version_num(), 4);
    assert_eq!(id.get_variant(), uuid::Variant::RFC4122);
}
