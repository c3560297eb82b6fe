use agent_loom_runtime::config::{
    from_values, parse_u64, secret_from_file, secret_source, ConfigError, ConfigValues, SecretSource, Setting,
};

fn values(url: Option<&str>) -> ConfigValues {
    ConfigValues {
        control_plane_url: url.map(str::to_string),
        runtime_name: None,
        enrollment_token: None,
        state_path: None,
        poll_interval: None,
        heartbeat_interval: None,
        request_timeout: None,
        hermes_binary: None,
        hermes_timeout: None,
        hermes_output_limit: None,
        repo_sync_root: None,
    }
}

#[test]
fn configuration_defaults() {
    let config = from_values(values(Some("https://loom.example.com"))).unwrap();
    assert_eq!(config.control_plane_url, "https://loom.example.com/");
    assert_eq!(config.runtime_name, "agent-loom-runtime");
    assert_eq!(config.enrollment_token, None);
    assert_eq!(config.state_path, "agent-loom-runtime.sqlite3");
    assert_eq!((config.poll_interval, config.heartbeat_interval, config.request_timeout), (10, 30, 30));
    assert_eq!(config.hermes_binary, "hermes");
    assert_eq!(config.repo_sync_root, "repos");
}

#[test]
fn configuration_refusals() {
    assert!(matches!(from_values(values(None)), Err(ConfigError::MissingControlPlaneUrl)));
    assert!(matches!(from_values(values(Some("not a url"))), Err(ConfigError::InvalidControlPlaneUrl)));
    assert!(matches!(from_values(values(Some("ftp://x.example"))), Err(ConfigError::UnsupportedScheme)));
    let mut zero = values(Some("http://x.example"));
    zero.heartbeat_interval = Some("0".into());
    assert!(matches!(from_values(zero), Err(ConfigError::NotPositive(Setting::HeartbeatInterval))));
    let mut junk = values(Some("http://x.example"));
    junk.poll_interval = Some("ten".into());
    junk.heartbeat_interval = Some("0".into());
    assert!(matches!(from_values(junk), Err(ConfigError::InvalidNumber(Setting::PollInterval))));
    assert_eq!(ConfigError::InvalidNumber(Setting::RequestTimeout).message(), "invalid duration");
    assert_eq!(ConfigError::InvalidNumber(Setting::HermesOutputLimit).message(), "invalid output limit");
    assert_eq!(ConfigError::NotPositive(Setting::PollInterval).message(), "AGENT_LOOM_POLL_INTERVAL_SECS must be positive");
    assert_eq!(ConfigError::MissingControlPlaneUrl.message(), "AGENT_LOOM_CONTROL_PLANE_URL is required");
    assert_eq!(ConfigError::UnsupportedScheme.message(), "control-plane URL must use http(s)");
}

#[test]
fn configuration_takes_given_values() {
    let mut given = values(Some("http://x.example:8000"));
    given.enrollment_token = Some(String::new());
    given.runtime_name = Some("edge".into());
    given.request_timeout = Some("+45".into());
    let config = from_values(given).unwrap();
    assert_eq!(config.enrollment_token, None);
    assert_eq!(config.runtime_name, "edge");
    assert_eq!(config.request_timeout, 45);
    let mut token = values(Some("http://x.example"));
    token.enrollment_token = Some("t".into());
    assert_eq!(from_values(token).unwrap().enrollment_token.as_deref(), Some("t"));
}

#[test]
fn numbers_parse_as_the_standard_library_does() {
    assert_eq!(parse_u64("42"), Some(42));
    assert_eq!(parse_u64("+7"), Some(7));
    assert_eq!(parse_u64("18446744073709551615"), Some(u64::MAX));
    assert_eq!(parse_u64("18446744073709551616"), None);
    assert_eq!(parse_u64(""), None);
    assert_eq!(parse_u64("+"), None);
    assert_eq!(parse_u64("-1"), None);
    assert_eq!(parse_u64(" 1"), None);
    assert_eq!(parse_u64("007"), Some(7));
}

#[test]
fn secret_comes_from_one_source() {
    assert!(matches!(secret_source(Some("s".into()), Some("/f".into())), Err(ConfigError::ConflictingSecretSources)));
    assert!(matches!(secret_source(Some(String::new()), Some("/f".into())), Ok(SecretSource::File(p)) if p == "/f"));
    assert!(matches!(secret_source(Some("s".into()), None), Ok(SecretSource::Direct(Some(s))) if s == "s"));
    assert!(matches!(secret_source(Some(String::new()), None), Ok(SecretSource::Direct(None))));
    assert_eq!(secret_from_file("  secret\n"), "secret");
    assert_eq!(ConfigError::ConflictingSecretSources.message(), "set only one runtime secret source");
}
