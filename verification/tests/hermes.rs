use agent_loom_runtime::hermes::{redact, HermesError, RunInstruction};
use agent_loom_runtime::json::JsonValue;

fn text(t: &str) -> JsonValue {
    JsonValue::Text(t.to_string())
}

fn object(fields: Vec<(&str, JsonValue)>) -> JsonValue {
    JsonValue::Object(fields.into_iter().map(|(k, v)| (k.to_string(), v)).collect())
}

fn instruction(prompt: &str) -> JsonValue {
    object(vec![("kind", text("hermes.run")), ("prompt", text(prompt))])
}

#[test]
fn instruction_validation_is_typed_and_strict() {
    assert!(RunInstruction::try_from(instruction("hello")).is_ok());
    assert!(matches!(
        RunInstruction::try_from(object(vec![("kind", text("other")), ("prompt", text("hello"))])),
        Err(HermesError::UnsupportedInstruction(_))
    ));
    assert!(RunInstruction::try_from(object(vec![("kind", text("hermes.run")), ("prompt", text(" "))])).is_err());
    assert!(RunInstruction::try_from(object(vec![
        ("kind", text("hermes.run")),
        ("prompt", text("ok")),
        ("extra", JsonValue::Bool(true)),
    ]))
    .is_err());
}

#[test]
fn redaction_is_deterministic_for_common_secret_formats() {
    let input = "Bearer abc.def token: xyz password='pass' api_key=key".to_owned();
    assert_eq!(
        redact(input),
        "Bearer [REDACTED] token=[REDACTED] password=[REDACTED] api_key=[REDACTED]"
    );
}
