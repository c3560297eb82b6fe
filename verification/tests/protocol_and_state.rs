use agent_loom_runtime::json::JsonValue;
use agent_loom_runtime::protocol::{decode_command_collection, decode_command_envelope, Command, Envelope, VERSION};
use agent_loom_runtime::state::State;
use uuid::Uuid;

fn text(t: &str) -> JsonValue {
    JsonValue::Text(t.to_string())
}

fn object(fields: Vec<(&str, JsonValue)>) -> JsonValue {
    JsonValue::Object(fields.into_iter().map(|(k, v)| (k.to_string(), v)).collect())
}

fn uuid_value(id: Uuid) -> JsonValue {
    text(&id.to_string())
}

#[test]
fn envelope_rejects_unknown_fields_and_wrong_version() {
    let raw = object(vec![
        ("protocol_version", text("v1")),
        ("message_id", uuid_value(Uuid::new_v4())),
        ("sent_at", text("2026-01-01T00:00:00Z")),
        ("command_id", uuid_value(Uuid::new_v4())),
        ("instruction", object(vec![])),
        ("unexpected", JsonValue::Bool(true)),
    ]);
    assert!(decode_command_envelope(&raw).is_err());
    let bad = Envelope {
        protocol_version: "v2".into(),
        message_id: Uuid::new_v4().as_u128(),
        sent_at: chrono::Utc::now().to_rfc3339(),
        body: Command {
            command_id: Uuid::new_v4().as_u128(),
            instruction: object(vec![]),
            lease_token: None,
            lease_expires_at: None,
        },
    };
    assert!(bad.validate_version().is_err());
    assert_eq!(VERSION, "v1");
}

#[test]
fn state_deduplicates_commands_and_preserves_events() {
    let mut state = State::new();
    let id = Uuid::new_v4();
    assert!(state.record_command(id.as_u128(), &object(vec![("kind", text("test"))])).unwrap());
    assert!(!state.record_command(id.as_u128(), &object(vec![("kind", text("test"))])).unwrap());
    state.queue_event("ack", object(vec![("command_id", uuid_value(id))])).unwrap();
    let event = state.pending_events().pop().unwrap();
    state.failed_delivery(event.id, "offline");
    assert_eq!(state.status().queued_events, 1);
    state.delivered(event.id).unwrap();
    assert_eq!(state.status().queued_events, 0);
}

#[test]
fn state_persists_identity_and_diagnostic_metadata() {
    let mut state = State::new();
    let id = Uuid::new_v4();
    state.save_identity(id.as_u128(), "runtime-secret");
    state.set_meta("last_error", "offline");
    assert_eq!(state.identity().unwrap().runtime_id, id.to_string());
    assert_eq!(state.status().last_error.as_deref(), Some("offline"));
}

#[test]
fn command_collection_accepts_leases_and_rejects_unknown_fields() {
    let command_id = Uuid::new_v4();
    let raw = object(vec![
        ("protocol_version", text("v1")),
        (
            "commands",
            JsonValue::Array(vec![object(vec![
                ("protocol_version", text("v1")),
                ("message_id", uuid_value(Uuid::new_v4())),
                ("sent_at", text("2026-01-01T00:00:00Z")),
                ("command_id", uuid_value(command_id)),
                (
                    "instruction",
                    object(vec![("application", text("example")), ("version", JsonValue::Number("1".into()))]),
                ),
                ("lease_token", uuid_value(Uuid::new_v4())),
                ("lease_expires_at", text("2026-01-01T00:01:00Z")),
            ])]),
        ),
    ]);
    let collection = decode_command_collection(&raw).unwrap();
    assert_eq!(collection.commands[0].body.command_id, command_id.as_u128());
    let invalid = object(vec![
        ("protocol_version", text("v1")),
        ("commands", JsonValue::Array(vec![])),
        ("unexpected", JsonValue::Bool(true)),
    ]);
    assert!(decode_command_collection(&invalid).is_err());
}
