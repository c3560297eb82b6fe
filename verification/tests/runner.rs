use agent_loom_runtime::hermes::{
    finish_run, BoundedOutput, ExitReport, HermesError, HermesRunner, RunInstruction, CAPABILITY,
};
use agent_loom_runtime::json::JsonValue;
use std::path::PathBuf;
use std::time::Duration;

fn text(t: &str) -> JsonValue {
    JsonValue::Text(t.to_string())
}

fn instruction(prompt: &str) -> JsonValue {
    JsonValue::Object(vec![("kind".into(), text("hermes.run")), ("prompt".into(), text(prompt))])
}

fn output(bytes: &[u8], truncated: bool) -> BoundedOutput {
    BoundedOutput { bytes: bytes.to_vec(), truncated }
}

#[test]
fn runner_runs_only_its_binary_with_the_prompt() {
    let runner = HermesRunner::new(PathBuf::from("/opt/hermes"), Duration::from_secs(3), 16);
    assert_eq!(runner.capability(), CAPABILITY);
    assert_eq!(runner.binary(), &PathBuf::from("/opt/hermes"));
    assert_eq!(*runner.timeout(), Duration::from_secs(3));
    assert_eq!(runner.output_limit(), 16);
    let args = runner.invocation(instruction("say hi")).unwrap();
    assert_eq!(args, ["run", "--prompt", "say hi"]);
    assert!(matches!(runner.invocation(text("nope")), Err(HermesError::InvalidInstruction(_))));
}

#[test]
fn instruction_errors_name_what_is_wrong() {
    let blank = RunInstruction::try_from(instruction(" \t\n"));
    assert!(matches!(blank, Err(HermesError::InvalidInstruction(m)) if m == "prompt must not be empty"));
    let large = "x".repeat(131_073);
    let too_large = RunInstruction::try_from(instruction(&large));
    assert!(matches!(too_large, Err(HermesError::InvalidInstruction(m)) if m == "prompt exceeds 131072 bytes"));
    let limit = "é".repeat(65_536);
    assert!(RunInstruction::try_from(instruction(&limit)).is_ok());
    let over = format!("{limit}x");
    assert!(RunInstruction::try_from(instruction(&over)).is_err());
    let missing = RunInstruction::try_from(JsonValue::Object(vec![("kind".into(), text("hermes.run"))]));
    assert!(matches!(missing, Err(HermesError::InvalidInstruction(m)) if m == "missing field `prompt`"));
    let wrong_type = RunInstruction::try_from(JsonValue::Object(vec![
        ("kind".into(), text("hermes.run")),
        ("prompt".into(), JsonValue::Bool(true)),
    ]));
    assert!(matches!(wrong_type, Err(HermesError::InvalidInstruction(_))));
    let unsupported = RunInstruction::try_from(JsonValue::Object(vec![
        ("kind".into(), text("repo.sync")),
        ("prompt".into(), text("x")),
    ]));
    assert!(matches!(unsupported, Err(HermesError::UnsupportedInstruction(k)) if k == "repo.sync"));
    let accepted = RunInstruction::try_from(instruction("hello")).unwrap();
    assert_eq!(accepted.kind, "hermes.run");
    assert_eq!(accepted.prompt, "hello");
}

#[test]
fn bounded_output_keeps_the_first_bytes_and_marks_truncation() {
    let mut out = BoundedOutput::new();
    out.absorb(b"out-", 8);
    out.absorb(b"prompt", 8);
    assert_eq!(out.bytes, b"out-prom");
    assert!(out.truncated);
    let mut exact = BoundedOutput::new();
    exact.absorb(b"1234", 8);
    exact.absorb(b"5678", 8);
    assert_eq!(exact.bytes, b"12345678");
    assert!(!exact.truncated);
    exact.absorb(b"", 8);
    assert!(!exact.truncated);
    exact.absorb(b"9", 8);
    assert!(exact.truncated);
    assert_eq!(exact.bytes.len(), 8);
}

#[test]
fn finished_run_reports_result_or_non_zero_exit() {
    let ok = finish_run(
        ExitReport { success: true, code: Some(0), description: "exit status: 0".into() },
        output(b"out-prom", true),
        output(b"err", false),
    )
    .unwrap();
    assert_eq!(ok.stdout, "out-prom");
    assert_eq!(ok.stderr, "err");
    assert!(ok.stdout_truncated);
    assert!(!ok.stderr_truncated);
    assert_eq!(ok.exit_code, 0);
    let signalled = finish_run(
        ExitReport { success: true, code: None, description: "signal".into() },
        output(b"", false),
        output(b"", false),
    )
    .unwrap();
    assert_eq!(signalled.exit_code, -1);
    let failed = finish_run(
        ExitReport { success: false, code: Some(7), description: "exit status: 7".into() },
        output(b"", false),
        output(b"token=secret-value\n", false),
    )
    .unwrap_err();
    assert!(failed.message().contains("token=[REDACTED]"));
    assert!(matches!(failed, HermesError::NonZero { ref status, .. } if status == "exit status: 7"));
}

#[test]
fn output_is_decoded_leniently_before_redaction() {
    let ok = finish_run(
        ExitReport { success: true, code: Some(0), description: String::new() },
        output(&[b'a', 0xFF, b'b'], false),
        output("é".as_bytes(), false),
    )
    .unwrap();
    assert_eq!(ok.stdout, "a\u{FFFD}b");
    assert_eq!(ok.stderr, "é");
}

#[test]
fn error_texts_follow_the_runner_wording() {
    assert_eq!(HermesError::InvalidInstruction("x".into()).message(), "invalid Hermes instruction: x");
    assert_eq!(HermesError::UnsupportedInstruction("y".into()).message(), "unsupported instruction kind: y");
    assert_eq!(HermesError::Timeout(Duration::from_millis(30)).message(), "Hermes execution timed out after 30ms");
    assert_eq!(
        HermesError::NonZero { status: "exit status: 7".into(), stderr: "boom".into() }.message(),
        "Hermes exited with status exit status: 7: boom"
    );
    assert_eq!(HermesError::Start("gone".into()).message(), "failed to start Hermes: gone");
    assert_eq!(HermesError::Io("pipe".into()).message(), "failed to capture Hermes output: pipe");
    assert_eq!(HermesError::Cancelled.message(), "Hermes execution was cancelled");
}

#[test]
fn run_result_as_json_holds_every_field() {
    let ok = finish_run(
        ExitReport { success: true, code: Some(3), description: String::new() },
        output(b"o", false),
        output(b"e", true),
    )
    .unwrap();
    let json = ok.to_json();
    assert!(matches!(json.get("stdout"), Some(JsonValue::Text(t)) if t == "o"));
    assert!(matches!(json.get("stderr_truncated"), Some(JsonValue::Bool(true))));
    assert!(matches!(json.get("exit_code"), Some(JsonValue::Number(n)) if n == "3"));
}
