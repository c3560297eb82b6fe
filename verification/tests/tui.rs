use agent_loom_runtime::state::Status;
use agent_loom_runtime::tui::status_screen;

#[test]
fn renders_runtime_status_deterministically() {
    let status = Status {
        identity_present: true,
        queued_events: 2,
        known_commands: 7,
        last_error: Some("connection refused".into()),
    };

    let first = status_screen(&status.clone());
    let second = status_screen(&status);

    assert_eq!(first.title, second.title);
    assert_eq!(first.summary, second.summary);
    assert_eq!(first.last_error, second.last_error);
    assert!(first.title.contains("Agent Loom Runtime"));
    assert!(first.summary.contains("enrolled: true | commands: 7 | queued events: 2"));
    assert!(first.last_error.contains("connection refused"));
}

#[test]
fn renders_default_diagnostic_when_no_error_exists() {
    let status = Status {
        identity_present: false,
        queued_events: 0,
        known_commands: 0,
        last_error: None,
    };

    let screen = status_screen(&status);

    assert!(screen.last_error.contains("online status is reported by the daemon"));
}
