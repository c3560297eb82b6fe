use agent_loom_runtime::daemon::{
    accept_command, capabilities, complete_enrollment, conclude_command, error_code, heartbeat,
    registration, settle_delivery, startup, Delivery, Outcome, Startup, StartupError,
};
use agent_loom_runtime::hermes::{HermesError, RunResult};
use agent_loom_runtime::json::JsonValue;
use agent_loom_runtime::protocol::{Command, Envelope, RegistrationResponse};
use agent_loom_runtime::state::{Identity, State, StoreWrite};
use std::time::Duration;
use uuid::Uuid;

fn field<'a>(value: &'a JsonValue, key: &str) -> &'a JsonValue {
    value.get(key).unwrap()
}

fn text_of(value: &JsonValue) -> &str {
    match value {
        JsonValue::Text(t) => t,
        other => panic!("not a string: {other:?}"),
    }
}

fn command(id: Uuid) -> Envelope<Command> {
    Envelope::new(Command {
        command_id: id.as_u128(),
        instruction: JsonValue::Object(vec![
            ("kind".into(), JsonValue::Text("hermes.run".into())),
            ("prompt".into(), JsonValue::Text("run".into())),
        ]),
        lease_token: None,
        lease_expires_at: None,
    })
    .unwrap()
}

fn kinds(state: &State) -> Vec<String> {
    state.pending_events().into_iter().map(|e| e.kind).collect()
}

#[test]
fn accepted_command_queues_ack_progress_then_one_result() {
    let mut state = State::new();
    let id = Uuid::new_v4();
    assert!(accept_command(&mut state, &command(id)).unwrap());
    let result = RunResult {
        stdout: "done".into(),
        stderr: String::new(),
        stdout_truncated: false,
        stderr_truncated: false,
        exit_code: 0,
    };
    conclude_command(&mut state, id.as_u128(), Outcome::Run(Ok(result))).unwrap();
    assert_eq!(kinds(&state), ["ack", "progress", "result"]);
    let events = state.pending_events();
    assert_eq!(text_of(field(&events[0].payload, "command_id")), id.to_string());
    assert_eq!(text_of(field(&events[0].payload, "protocol_version")), "v1");
    let progress = field(&events[1].payload, "progress");
    assert!(matches!(field(progress, "percent"), JsonValue::Number(n) if n == "0"));
    assert_eq!(text_of(field(progress, "status")), "running");
    let result = field(&events[2].payload, "result");
    assert_eq!(text_of(field(result, "stdout")), "done");
    assert!(matches!(field(result, "exit_code"), JsonValue::Number(n) if n == "0"));
}

#[test]
fn replayed_command_is_not_accepted_twice() {
    let mut state = State::new();
    let id = Uuid::new_v4();
    let envelope = command(id);
    assert!(accept_command(&mut state, &envelope).unwrap());
    assert!(!accept_command(&mut state, &envelope).unwrap());
    assert_eq!(kinds(&state), ["ack", "progress"]);
}

#[test]
fn failed_run_queues_an_error_with_its_code_and_message() {
    let mut state = State::new();
    let id = Uuid::new_v4();
    assert!(accept_command(&mut state, &command(id)).unwrap());
    let failure = HermesError::NonZero { status: "exit status: 7".into(), stderr: "bad".into() };
    conclude_command(&mut state, id.as_u128(), Outcome::Run(Err(failure))).unwrap();
    let events = state.pending_events();
    assert_eq!(events[2].kind, "error");
    let error = field(&events[2].payload, "error");
    assert_eq!(text_of(field(error, "code")), "execution_failed");
    assert_eq!(text_of(field(error, "message")), "Hermes exited with status exit status: 7: bad");
}

#[test]
fn error_codes_name_every_failure() {
    assert_eq!(error_code(&HermesError::InvalidInstruction("x".into())), "invalid_instruction");
    assert_eq!(error_code(&HermesError::UnsupportedInstruction("x".into())), "unsupported_instruction");
    assert_eq!(error_code(&HermesError::Timeout(Duration::from_secs(1))), "execution_timeout");
    assert_eq!(error_code(&HermesError::NonZero { status: "s".into(), stderr: "e".into() }), "execution_failed");
    assert_eq!(error_code(&HermesError::Start("x".into())), "executor_unavailable");
    assert_eq!(error_code(&HermesError::Io("x".into())), "execution_io_error");
    assert_eq!(error_code(&HermesError::Cancelled), "execution_cancelled");
}

#[test]
fn already_seen_event_counts_as_delivered() {
    let mut state = State::new();
    state.queue_event("ack", JsonValue::Null).unwrap();
    state.queue_event("progress", JsonValue::Null).unwrap();
    assert!(settle_delivery(&mut state, 1, Delivery::AlreadySeen).unwrap());
    assert!(settle_delivery(&mut state, 2, Delivery::Recorded).unwrap());
    assert_eq!(state.status().queued_events, 0);
    assert_eq!(state.delivered_event(1).unwrap().kind, "ack");
    assert_eq!(state.delivered_event(2).unwrap().kind, "progress");
}

#[test]
fn failed_delivery_keeps_the_event_queued() {
    let mut state = State::new();
    state.queue_event("ack", JsonValue::Null).unwrap();
    assert!(!settle_delivery(&mut state, 1, Delivery::Failed("offline".into())).unwrap());
    assert_eq!(state.status().queued_events, 1);
    assert_eq!(state.status().last_error.as_deref(), Some("offline"));
}

#[test]
fn failed_delivery_retries_in_the_same_order() {
    let mut state = State::new();
    for kind in ["ack", "progress", "result"] {
        state.queue_event(kind, JsonValue::Null).unwrap();
    }
    assert!(!settle_delivery(&mut state, 2, Delivery::Failed("timeout".into())).unwrap());
    let ids: Vec<i64> = state.pending_events().iter().map(|e| e.id).collect();
    assert_eq!(ids, [1, 2, 3]);
    assert_eq!(kinds(&state), ["ack", "progress", "result"]);
    assert_eq!(state.queued_event(2).unwrap().attempts, 1);
}

#[test]
fn startup_resumes_enrolls_or_refuses() {
    let id = Uuid::new_v4();
    let stored = Identity { runtime_id: id.to_string(), runtime_secret: "s".into() };
    match startup(Some(stored), None, "rt").unwrap() {
        Startup::Resume { runtime_id, runtime_secret } => {
            assert_eq!(runtime_id, id.as_u128());
            assert_eq!(runtime_secret, "s");
        }
        other => panic!("unexpected {other:?}"),
    }
    let broken = Identity { runtime_id: "not-a-uuid".into(), runtime_secret: "s".into() };
    assert!(matches!(startup(Some(broken), Some("t".into()), "rt"), Err(StartupError::InvalidStoredIdentity)));
    match startup(None, Some("token".into()), "rt").unwrap() {
        Startup::Enroll { enrollment_token, registration } => {
            assert_eq!(enrollment_token, "token");
            assert_eq!(registration.runtime_name, "rt");
            assert_eq!(registration.capabilities, ["hermes.run", "repo.sync"]);
        }
        other => panic!("unexpected {other:?}"),
    }
    assert!(matches!(startup(None, None, "rt"), Err(StartupError::NotEnrolled)));
    assert_eq!(
        StartupError::NotEnrolled.message(),
        "runtime is not enrolled; AGENT_LOOM_ENROLLMENT_TOKEN is required"
    );
    assert_eq!(StartupError::InvalidStoredIdentity.message(), "invalid locally stored runtime identity");
}

#[test]
fn enrollment_is_stored_and_resumed() {
    let mut state = State::new();
    let id = Uuid::new_v4();
    let answer = RegistrationResponse { runtime_id: id.as_u128(), runtime_secret: "secret".into(), protocol_version: "v1".into() };
    let (runtime_id, secret) = complete_enrollment(&mut state, &answer).unwrap();
    assert_eq!(runtime_id, id.as_u128());
    assert_eq!(secret, "secret");
    assert!(matches!(
        startup(state.identity(), None, "rt").unwrap(),
        Startup::Resume { runtime_id, .. } if runtime_id == id.as_u128()
    ));
    let mut other = State::new();
    let old = RegistrationResponse { runtime_id: 1, runtime_secret: "s".into(), protocol_version: "v0".into() };
    assert!(complete_enrollment(&mut other, &old).is_err());
    assert!(other.identity().is_none());
}

#[test]
fn registration_and_heartbeat_advertise_the_capabilities() {
    assert_eq!(capabilities(), ["hermes.run", "repo.sync"]);
    assert_eq!(registration("name").capabilities, ["hermes.run", "repo.sync"]);
    let envelope = Envelope::new(heartbeat()).unwrap().to_json();
    match field(&envelope, "capabilities") {
        JsonValue::Array(items) => assert!(
            matches!(&items[..], [JsonValue::Text(a), JsonValue::Text(b)] if a == "hermes.run" && b == "repo.sync")
        ),
        other => panic!("unexpected {other:?}"),
    }
}

#[test]
fn every_daemon_step_reports_what_to_store() {
    let mut state = State::new();
    let id = Uuid::new_v4();
    assert!(accept_command(&mut state, &command(id)).unwrap());
    let writes = state.take_writes();
    assert_eq!(writes.len(), 3);
    assert!(matches!(writes[0], StoreWrite::Command(c) if c == id.as_u128()));
    assert!(matches!(writes[1], StoreWrite::Queued(1)));
    assert!(matches!(writes[2], StoreWrite::Queued(2)));
    assert!(!accept_command(&mut state, &command(id)).unwrap());
    assert!(state.take_writes().is_empty());
    conclude_command(&mut state, id.as_u128(), Outcome::Run(Err(HermesError::Cancelled))).unwrap();
    let writes = state.take_writes();
    assert!(matches!(writes[..], [StoreWrite::Queued(3)]));
    assert!(settle_delivery(&mut state, 1, Delivery::Recorded).unwrap());
    let writes = state.take_writes();
    assert!(matches!(writes[..], [StoreWrite::Delivered { queued_id: 1, history_id: 1 }]));
    assert!(!settle_delivery(&mut state, 2, Delivery::Failed("down".into())).unwrap());
    let writes = state.take_writes();
    assert!(matches!(&writes[..], [StoreWrite::Failed(2), StoreWrite::Meta(k)] if k == "last_error"));
    let answer = RegistrationResponse { runtime_id: 5, runtime_secret: "s".into(), protocol_version: "v1".into() };
    complete_enrollment(&mut state, &answer).unwrap();
    assert!(matches!(state.take_writes()[..], [StoreWrite::Identity]));
}
