use agent_loom_runtime::hermes::{HermesError, RunInstruction};
use agent_loom_runtime::json::JsonValue;
use agent_loom_runtime::protocol::{decode_command_collection, decode_command_envelope, decode_registration_response};
use agent_loom_runtime::repo_sync::{parse, Operation, SyncError};

fn text(t: &str) -> JsonValue {
    JsonValue::Text(t.to_string())
}

fn object(fields: Vec<(&str, JsonValue)>) -> JsonValue {
    JsonValue::Object(fields.into_iter().map(|(k, v)| (k.to_string(), v)).collect())
}

fn invalid_instruction(value: JsonValue) -> String {
    match RunInstruction::try_from(value) {
        Err(HermesError::InvalidInstruction(m)) => m,
        other => panic!("expected an invalid instruction, got {other:?}"),
    }
}

fn invalid_sync(value: JsonValue) -> String {
    match parse(value) {
        Err(SyncError::Invalid(m)) => m,
        other => panic!("expected an invalid sync instruction, got {other:?}"),
    }
}

#[test]
fn run_instruction_shape_errors_name_the_field() {
    assert_eq!(invalid_instruction(text("x")), "invalid type: expected an object");
    assert_eq!(
        invalid_instruction(object(vec![("kind", text("hermes.run")), ("prompt", text("p")), ("extra", JsonValue::Bool(true))])),
        "unknown field `extra`, expected `kind` or `prompt`"
    );
    assert_eq!(invalid_instruction(object(vec![("prompt", text("p"))])), "missing field `kind`");
    assert_eq!(
        invalid_instruction(object(vec![("kind", text("hermes.run")), ("prompt", JsonValue::Null)])),
        "invalid type for field `prompt`: expected a string"
    );
}

#[test]
fn sync_instruction_shape_errors_name_the_field() {
    let full = |operation: JsonValue, credential: JsonValue| {
        object(vec![
            ("kind", text("repo.sync")),
            ("repository_url", text("https://example.com/r.git")),
            ("operation", operation),
            ("reference", text("main")),
            ("worktree", text("w")),
            ("credential", credential),
        ])
    };
    assert_eq!(invalid_sync(text("x")), "invalid type: expected an object");
    assert_eq!(invalid_sync(object(vec![("zzz", JsonValue::Null)])), "unknown field `zzz`, expected one of `kind`, `repository_url`, `operation`, `reference`, `worktree`, `credential`");
    assert_eq!(invalid_sync(object(vec![("kind", text("repo.sync"))])), "missing field `repository_url`");
    assert_eq!(
        invalid_sync(full(text("fetch"), JsonValue::Null)),
        "unknown variant `fetch`, expected one of `pull`, `push`, `pull_push`"
    );
    assert_eq!(
        invalid_sync(full(text("pull"), text("secret"))),
        "invalid type for field `credential`: expected an object"
    );
    assert_eq!(
        invalid_sync(full(text("pull"), object(vec![("username", text("u"))]))),
        "missing field `token`"
    );
    assert_eq!(
        invalid_sync(full(text("pull"), object(vec![("username", text("u")), ("token", text("t")), ("x", JsonValue::Null)]))),
        "unknown field `x`, expected `username` or `token`"
    );
}

#[test]
fn envelope_and_collection_shape_errors_name_the_field() {
    let envelope = |message_id: &str| {
        object(vec![
            ("protocol_version", text("v1")),
            ("message_id", text(message_id)),
            ("sent_at", text("2026-01-01T00:00:00Z")),
            ("command_id", text("67e55044-10b1-426f-9247-bb680e5fe0c8")),
            ("instruction", object(vec![])),
        ])
    };
    assert!(decode_command_envelope(&envelope("67e55044-10b1-426f-9247-bb680e5fe0c8")).is_ok());
    assert_eq!(
        decode_command_envelope(&envelope("not-a-uuid")).unwrap_err().message,
        "invalid UUID in field `message_id`"
    );
    let no_instruction = object(vec![
        ("protocol_version", text("v1")),
        ("message_id", text("67e55044-10b1-426f-9247-bb680e5fe0c8")),
        ("sent_at", text("2026-01-01T00:00:00Z")),
        ("command_id", text("67e55044-10b1-426f-9247-bb680e5fe0c8")),
    ]);
    assert_eq!(decode_command_envelope(&no_instruction).unwrap_err().message, "missing field `instruction`");
    let bad_time = object(vec![
        ("protocol_version", text("v1")),
        ("message_id", text("67e55044-10b1-426f-9247-bb680e5fe0c8")),
        ("sent_at", text("yesterday")),
        ("command_id", text("67e55044-10b1-426f-9247-bb680e5fe0c8")),
        ("instruction", object(vec![])),
    ]);
    assert_eq!(decode_command_envelope(&bad_time).unwrap_err().message, "invalid timestamp in field `sent_at`");

    let collection = object(vec![
        ("protocol_version", text("v1")),
        ("commands", JsonValue::Array(vec![envelope("67e55044-10b1-426f-9247-bb680e5fe0c8"), envelope("bad")])),
    ]);
    assert_eq!(decode_command_collection(&collection).unwrap_err().message, "invalid UUID in field `message_id`");
    let not_a_list = object(vec![("protocol_version", text("v1")), ("commands", object(vec![]))]);
    assert_eq!(
        decode_command_collection(&not_a_list).unwrap_err().message,
        "invalid type for field `commands`: expected an array"
    );
    assert_eq!(
        decode_command_collection(&object(vec![("protocol_version", text("v1"))])).unwrap_err().message,
        "missing field `commands`"
    );
}

#[test]
fn enrollment_answer_shape_errors_name_the_field() {
    let answer = object(vec![
        ("runtime_id", text("67e55044-10b1-426f-9247-bb680e5fe0c8")),
        ("runtime_secret", JsonValue::Number("7".into())),
        ("protocol_version", text("v1")),
    ]);
    assert_eq!(
        decode_registration_response(&answer).unwrap_err().message,
        "invalid type for field `runtime_secret`: expected a string"
    );
    assert_eq!(
        decode_registration_response(&object(vec![("runtime_id", JsonValue::Bool(false))])).unwrap_err().message,
        "invalid type for field `runtime_id`: expected a string"
    );
}

#[test]
fn operation_takes_both_forms_of_a_unit_variant() {
    let with_operation = |operation: JsonValue| {
        object(vec![
            ("kind", text("repo.sync")),
            ("repository_url", text("https://example.com/r.git")),
            ("operation", operation),
            ("reference", text("main")),
            ("worktree", text("w")),
        ])
    };
    let by_map = parse(with_operation(object(vec![("push", JsonValue::Null)]))).unwrap();
    assert_eq!(by_map.operation, Operation::Push);
    let by_name = parse(with_operation(text("pull_push"))).unwrap();
    assert_eq!(by_name.operation, Operation::PullPush);
    assert_eq!(
        invalid_sync(with_operation(object(vec![("push", JsonValue::Bool(true))]))),
        "invalid type for field `operation`: expected unit"
    );
    assert_eq!(
        invalid_sync(with_operation(object(vec![("merge", JsonValue::Null)]))),
        "unknown variant `merge`, expected one of `pull`, `push`, `pull_push`"
    );
    assert_eq!(
        invalid_sync(with_operation(object(vec![]))),
        "invalid value for field `operation`: expected a map with a single key"
    );
    assert_eq!(
        invalid_sync(with_operation(JsonValue::Number("1".into()))),
        "invalid type for field `operation`: expected a string or map"
    );
}
