use agent_loom_runtime::client::{
    authorization, check_collection, check_registration, endpoint_url, event_answer, read_command_collection,
    read_registration_response, route_path, ClientError, EventAnswer, Route,
};
use agent_loom_runtime::doctor::{doctor_report, doctor_verdict};
use agent_loom_runtime::json::JsonValue;
use agent_loom_runtime::protocol::{
    decode_registration_response, CommandCollection, ProtocolError, RegistrationResponse,
};
use agent_loom_runtime::state::Status;
use uuid::Uuid;

#[test]
fn endpoints_sit_below_the_control_plane_root() {
    assert_eq!(route_path(&Route::Register), "api/v1/runtimes/register");
    assert_eq!(route_path(&Route::Event("ack".into())), "api/v1/runtime/events/ack");
    assert_eq!(
        endpoint_url("https://loom.example.com", &Route::Commands).unwrap(),
        "https://loom.example.com/api/v1/runtime/commands"
    );
    assert_eq!(
        endpoint_url("https://loom.example.com/", &Route::Heartbeat).unwrap(),
        "https://loom.example.com/api/v1/runtime/heartbeat"
    );
    assert!(endpoint_url("not a url", &Route::Commands).is_none());
}

#[test]
fn runtime_authorization_header() {
    let id = Uuid::new_v4();
    assert_eq!(authorization(id.as_u128(), "sec"), format!("Runtime {id}.sec"));
}

#[test]
fn answers_of_other_versions_are_refused() {
    let ok = RegistrationResponse { runtime_id: 1, runtime_secret: "s".into(), protocol_version: "v1".into() };
    assert!(check_registration(&ok).is_ok());
    let old = RegistrationResponse { runtime_id: 1, runtime_secret: "s".into(), protocol_version: "v0".into() };
    assert!(matches!(check_registration(&old), Err(ClientError::IncompatibleRegistration)));
    let collection = CommandCollection { protocol_version: "v2".into(), commands: vec![] };
    assert!(matches!(check_collection(&collection), Err(ClientError::IncompatibleCollection)));
    assert!(check_collection(&CommandCollection { protocol_version: "v1".into(), commands: vec![] }).is_ok());
    assert_eq!(
        ClientError::Command(ProtocolError::UnsupportedVersion("v9".into())).message(),
        "unsupported protocol version: v9"
    );
    assert_eq!(ClientError::NotEnrolled.message(), "runtime is not enrolled");
}

#[test]
fn event_statuses() {
    assert_eq!(event_answer(409), EventAnswer::AlreadySeen);
    assert_eq!(event_answer(201), EventAnswer::Recorded);
    assert_eq!(event_answer(400), EventAnswer::Refused(400));
    assert_eq!(event_answer(503), EventAnswer::Refused(503));
    assert_eq!(event_answer(302), EventAnswer::Recorded);
}

#[test]
fn enrollment_answer_is_read_strictly() {
    let id = Uuid::new_v4();
    let answer = JsonValue::Object(vec![
        ("runtime_id".into(), JsonValue::Text(id.to_string())),
        ("runtime_secret".into(), JsonValue::Text("s".into())),
        ("protocol_version".into(), JsonValue::Text("v1".into())),
    ]);
    assert_eq!(decode_registration_response(&answer).unwrap().runtime_id, id.as_u128());
    let bad = JsonValue::Object(vec![
        ("runtime_id".into(), JsonValue::Text("nope".into())),
        ("runtime_secret".into(), JsonValue::Text("s".into())),
        ("protocol_version".into(), JsonValue::Text("v1".into())),
    ]);
    assert!(decode_registration_response(&bad).is_err());
}

#[test]
fn doctor_reports_local_state_only() {
    let status = Status { identity_present: false, queued_events: 3, known_commands: 2, last_error: None };
    assert_eq!(
        doctor_report("https://x/", "state.db", &status),
        "control_plane_url: https://x/\nstate_path: state.db\nenrolled: false\nknown_commands: 2\nqueued_events: 3\nlast_error: none"
    );
    assert!(doctor_verdict(&status, &None).is_err());
    assert!(doctor_verdict(&status, &Some("t".into())).is_ok());
    let enrolled = Status { identity_present: true, queued_events: 0, known_commands: 0, last_error: Some("x".into()) };
    assert!(doctor_verdict(&enrolled, &None).is_ok());
}

fn command_envelope(version: &str) -> JsonValue {
    JsonValue::Object(vec![
        ("protocol_version".into(), JsonValue::Text(version.into())),
        ("message_id".into(), JsonValue::Text(Uuid::new_v4().to_string())),
        ("sent_at".into(), JsonValue::Text("2026-01-01T00:00:00Z".into())),
        ("command_id".into(), JsonValue::Text(Uuid::new_v4().to_string())),
        ("instruction".into(), JsonValue::Object(vec![])),
    ])
}

fn collection(version: &str, commands: Vec<JsonValue>) -> JsonValue {
    JsonValue::Object(vec![
        ("protocol_version".into(), JsonValue::Text(version.into())),
        ("commands".into(), JsonValue::Array(commands)),
    ])
}

#[test]
fn polled_commands_are_read_and_checked() {
    let ok = read_command_collection(&collection("v1", vec![command_envelope("v1"), command_envelope("v1")])).unwrap();
    assert_eq!(ok.commands.len(), 2);
    assert!(matches!(
        read_command_collection(&collection("v2", vec![])),
        Err(ClientError::IncompatibleCollection)
    ));
    assert!(matches!(
        read_command_collection(&collection("v1", vec![command_envelope("v1"), command_envelope("v3")])),
        Err(ClientError::Command(ProtocolError::UnsupportedVersion(v))) if v == "v3"
    ));
    let malformed = read_command_collection(&JsonValue::Object(vec![])).unwrap_err();
    assert!(matches!(&malformed, ClientError::Malformed(m) if m == "missing field `protocol_version`"));
    assert_eq!(malformed.message(), "error decoding response body: missing field `protocol_version`");
}

#[test]
fn enrollment_answers_are_read_and_checked() {
    let id = Uuid::new_v4();
    let answer = |version: &str| {
        JsonValue::Object(vec![
            ("runtime_id".into(), JsonValue::Text(id.to_string())),
            ("runtime_secret".into(), JsonValue::Text("s".into())),
            ("protocol_version".into(), JsonValue::Text(version.into())),
        ])
    };
    let accepted = read_registration_response(&answer("v1")).unwrap();
    assert_eq!(accepted.runtime_id, id.as_u128());
    assert_eq!(accepted.runtime_secret, "s");
    assert!(matches!(read_registration_response(&answer("v0")), Err(ClientError::IncompatibleRegistration)));
    assert!(matches!(
        read_registration_response(&JsonValue::Null),
        Err(ClientError::Malformed(m)) if m == "invalid type: expected an object"
    ));
}
