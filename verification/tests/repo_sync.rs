use agent_loom_runtime::json::JsonValue;
use agent_loom_runtime::repo_sync::{self, CAPABILITY};

fn text(t: &str) -> JsonValue {
    JsonValue::Text(t.to_string())
}

fn object(fields: Vec<(&str, JsonValue)>) -> JsonValue {
    JsonValue::Object(fields.into_iter().map(|(k, v)| (k.to_string(), v)).collect())
}

#[test]
fn accepts_pull_instruction_with_relative_worktree() {
    let instruction = repo_sync::parse(object(vec![
        ("kind", text(CAPABILITY)),
        ("repository_url", text("https://github.com/WilberC/dotfiles-skills.git")),
        ("operation", text("pull")),
        ("reference", text("main")),
        ("worktree", text("dotfiles-skills")),
        ("credential", object(vec![("username", text("x-access-token")), ("token", text("secret"))])),
    ]))
    .unwrap();
    assert_eq!(
        instruction.repository_url,
        "https://github.com/WilberC/dotfiles-skills.git"
    );
}

#[test]
fn accepts_push_operations() {
    for operation in ["push", "pull_push"] {
        assert!(repo_sync::parse(object(vec![
            ("kind", text(CAPABILITY)),
            ("repository_url", text("https://github.com/example/repo.git")),
            ("operation", text(operation)),
            ("reference", text("main")),
            ("worktree", text("repo")),
        ]))
        .is_ok());
    }
}

#[test]
fn rejects_unsafe_repository_sync_inputs() {
    for (url, worktree, reference) in [
        ("http://github.com/example/repo.git", "repo", "main"),
        ("https://github.com/example/repo.git", "../repo", "main"),
        ("https://github.com/example/repo.git", "repo", "main branch"),
    ] {
        assert!(repo_sync::parse(object(vec![
            ("kind", text(CAPABILITY)),
            ("repository_url", text(url)),
            ("operation", text("pull")),
            ("reference", text(reference)),
            ("worktree", text(worktree)),
        ]))
        .is_err());
    }
}
