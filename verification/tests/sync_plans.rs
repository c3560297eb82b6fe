use agent_loom_runtime::json::JsonValue;
use agent_loom_runtime::repo_sync::{
    check_instruction, git_environment, git_outcome, join_path, parse, plan, redact, worktree_escapes,
    Credential, Operation, SyncError, SyncInstruction, SyncProgress,
};

fn text(t: &str) -> JsonValue {
    JsonValue::Text(t.to_string())
}

fn instruction(operation: Operation, credential: Option<Credential>) -> SyncInstruction {
    SyncInstruction {
        kind: "repo.sync".into(),
        repository_url: "https://example.com/r.git".into(),
        operation,
        reference: "main".into(),
        worktree: "repo".into(),
        credential,
    }
}

#[test]
fn pull_without_a_repository_clones_it() {
    let p = plan(&instruction(Operation::Pull, None), "/srv/repos", false).unwrap();
    assert!(p.prepare_root);
    assert!(p.returns_output);
    assert_eq!(p.steps, vec![vec!["clone", "--branch", "main", "https://example.com/r.git", "/srv/repos/repo"]]);
}

#[test]
fn pushing_needs_an_existing_worktree() {
    for op in [Operation::Push, Operation::PullPush] {
        let refused = plan(&instruction(op, None), "repos", false);
        assert!(matches!(refused, Err(SyncError::Invalid(m)) if m == "push operations require an existing worktree"));
    }
}

#[test]
fn existing_worktree_pulls_then_pushes() {
    let pull = plan(&instruction(Operation::Pull, None), "repos/", true).unwrap();
    assert!(!pull.prepare_root);
    assert!(!pull.returns_output);
    assert_eq!(pull.steps, vec![vec!["-C", "repos/repo", "pull", "--ff-only", "origin", "main"]]);
    let both = plan(&instruction(Operation::PullPush, None), "repos", true).unwrap();
    assert!(both.returns_output);
    assert_eq!(
        both.steps,
        vec![
            vec!["-C", "repos/repo", "pull", "--ff-only", "origin", "main"],
            vec!["-C", "repos/repo", "push", "origin", "HEAD:main"],
        ]
    );
    let push = plan(&instruction(Operation::Push, None), "", true).unwrap();
    assert_eq!(push.steps, vec![vec!["-C", "repo", "push", "origin", "HEAD:main"]]);
}

#[test]
fn plan_steps_advance_until_the_first_failure() {
    let both = plan(&instruction(Operation::PullPush, None), "repos", true).unwrap();
    assert!(matches!(both.first_step(), SyncProgress::Run(0)));
    assert!(matches!(both.after_step(0, Ok("pulled".into())), SyncProgress::Run(1)));
    assert!(matches!(both.after_step(1, Ok("pushed".into())), SyncProgress::Done(Ok(t)) if t == "pushed"));
    assert!(matches!(
        both.after_step(0, Err(SyncError::Command("denied".into()))),
        SyncProgress::Done(Err(SyncError::Command(m))) if m == "denied"
    ));
    let pull = plan(&instruction(Operation::Pull, None), "repos", true).unwrap();
    assert!(matches!(pull.after_step(0, Ok("pulled".into())), SyncProgress::Done(Ok(t)) if t.is_empty()));
}

#[test]
fn paths_join_like_the_standard_library() {
    assert_eq!(join_path("root", "w"), "root/w");
    assert_eq!(join_path("root/", "w"), "root/w");
    assert_eq!(join_path("", "w"), "w");
    assert_eq!(join_path("root", "/abs"), "/abs");
    assert_eq!(join_path("root", ""), "root/");
}

#[test]
fn worktrees_must_stay_under_the_root() {
    assert!(worktree_escapes("/etc"));
    assert!(worktree_escapes(".."));
    assert!(worktree_escapes("a/../b"));
    assert!(worktree_escapes("a/.."));
    assert!(!worktree_escapes("a/..b"));
    assert!(!worktree_escapes("..a/b"));
    assert!(!worktree_escapes("a/./b"));
    assert!(!worktree_escapes(""));
}

#[test]
fn credentials_travel_only_in_the_environment() {
    let plain = git_environment(&None);
    assert_eq!(plain, vec![("GIT_TERMINAL_PROMPT".to_string(), "0".to_string())]);
    let with = git_environment(&Some(Credential { username: "user".into(), token: "tok".into() }));
    assert_eq!(with.len(), 4);
    assert_eq!(with[1], ("GIT_CONFIG_COUNT".to_string(), "1".to_string()));
    assert_eq!(with[2], ("GIT_CONFIG_KEY_0".to_string(), "http.extraHeader".to_string()));
    assert_eq!(with[3], ("GIT_CONFIG_VALUE_0".to_string(), "Authorization: Basic dXNlcjp0b2s=".to_string()));
    let p = plan(&instruction(Operation::Pull, Some(Credential { username: "u".into(), token: "t".into() })), "r", false).unwrap();
    assert!(!p.steps.iter().flatten().any(|a| a.contains('t') && a == "t"));
}

#[test]
fn git_output_is_trimmed_and_redacted() {
    assert_eq!(git_outcome(true, b"  Already up to date.\n", b"").unwrap(), "Already up to date.");
    let failed = git_outcome(false, b"", b"fatal: token=abc def");
    assert!(matches!(failed, Err(SyncError::Command(m)) if m == "fatal: token=[REDACTED]"));
    assert_eq!(redact("x GIT_TOKEN=abc rest".into()), "x GIT_TOKEN=[REDACTED]");
    assert_eq!(redact("nothing secret".into()), "nothing secret");
}

#[test]
fn sync_error_texts() {
    assert_eq!(SyncError::Invalid("x".into()).message(), "invalid repository sync instruction: x");
    assert_eq!(SyncError::Command("x".into()).message(), "repository sync command failed: x");
    assert_eq!(SyncError::Start("x".into()).message(), "failed to start git: x");
    assert_eq!(SyncError::Io("x".into()).message(), "failed to read git output: x");
}

fn base(extra: Vec<(&str, JsonValue)>) -> JsonValue {
    let mut fields = vec![
        ("kind".to_string(), text("repo.sync")),
        ("repository_url".to_string(), text("https://example.com/r.git")),
        ("operation".to_string(), text("pull")),
        ("reference".to_string(), text("main")),
        ("worktree".to_string(), text("repo")),
    ];
    for (k, v) in extra {
        fields.retain(|(key, _)| key != k);
        fields.push((k.to_string(), v));
    }
    JsonValue::Object(fields)
}

#[test]
fn parse_reports_each_safety_check() {
    let cases = [
        (vec![("kind", text("other"))], "unsupported kind"),
        (vec![("repository_url", text("git@example.com:r.git"))], "repository_url must use https"),
        (vec![("reference", text(""))], "reference must be a non-empty safe ref"),
        (vec![("reference", text("a\nb"))], "reference must be a non-empty safe ref"),
        (vec![("worktree", text("/abs"))], "worktree must be relative to the configured sync root"),
        (
            vec![("credential", JsonValue::Object(vec![("username".into(), text("u")), ("token".into(), text(""))]))],
            "credential token must not be empty",
        ),
    ];
    for (extra, message) in cases {
        assert!(matches!(parse(base(extra)), Err(SyncError::Invalid(m)) if m == message));
    }
    assert!(parse(base(vec![("credential", JsonValue::Null)])).unwrap().credential.is_none());
    assert!(parse(base(vec![("operation", text("fetch"))])).is_err());
    assert!(parse(base(vec![("extra", JsonValue::Null)])).is_err());
    assert!(parse(base(vec![(
        "credential",
        JsonValue::Object(vec![("username".into(), text("u")), ("token".into(), text("t")), ("x".into(), text("y"))])
    )]))
    .is_err());
    assert!(parse(text("repo.sync")).is_err());
    let accepted = parse(base(vec![("operation", text("pull_push"))])).unwrap();
    assert_eq!(accepted.operation, Operation::PullPush);
    assert_eq!(check_instruction(&accepted), None);
}
