use vstd::prelude::*;
use crate::text::{chars_of, joined, same_text, text};

verus! {

/// A numeric setting read from the environment.
#[derive(Debug, PartialEq, Eq, Structural, Clone, Copy)]
pub enum Setting {
    PollInterval,
    HeartbeatInterval,
    RequestTimeout,
    HermesTimeout,
    HermesOutputLimit,
}

/// The environment variable of a setting.
pub open spec fn setting_name(s: Setting) -> Seq<char> {
    match s {
        Setting::PollInterval => "AGENT_LOOM_POLL_INTERVAL_SECS"@,
        Setting::HeartbeatInterval => "AGENT_LOOM_HEARTBEAT_INTERVAL_SECS"@,
        Setting::RequestTimeout => "AGENT_LOOM_REQUEST_TIMEOUT_SECS"@,
        Setting::HermesTimeout => "AGENT_LOOM_HERMES_TIMEOUT_SECS"@,
        Setting::HermesOutputLimit => "AGENT_LOOM_HERMES_OUTPUT_LIMIT_BYTES"@,
    }
}

/// The value a setting takes when the environment leaves it unset.
pub open spec fn setting_default(s: Setting) -> u64 {
    match s {
        Setting::PollInterval => 10,
        Setting::HeartbeatInterval => 30,
        Setting::RequestTimeout => 30,
        Setting::HermesTimeout => 900,
        Setting::HermesOutputLimit => 65536,
    }
}

impl Setting {
    /// The environment variable of the setting.
    pub fn name(&self) -> (n: &'static str)
        ensures
            n@ == setting_name(*self),
    {
        match self {
            Setting::PollInterval => "AGENT_LOOM_POLL_INTERVAL_SECS",
            Setting::HeartbeatInterval => "AGENT_LOOM_HEARTBEAT_INTERVAL_SECS",
            Setting::RequestTimeout => "AGENT_LOOM_REQUEST_TIMEOUT_SECS",
            Setting::HermesTimeout => "AGENT_LOOM_HERMES_TIMEOUT_SECS",
            Setting::HermesOutputLimit => "AGENT_LOOM_HERMES_OUTPUT_LIMIT_BYTES",
        }
    }

    /// The value the setting takes when the environment leaves it unset.
    pub fn default_value(&self) -> (v: u64)
        ensures
            v == setting_default(*self),
    {
        match self {
            Setting::PollInterval => 10,
            Setting::HeartbeatInterval => 30,
            Setting::RequestTimeout => 30,
            Setting::HermesTimeout => 900,
            Setting::HermesOutputLimit => 65536,
        }
    }
}

/// Why the configuration was refused.
#[derive(Debug, PartialEq, Eq, Structural, Clone, Copy)]
pub enum ConfigError {
    MissingControlPlaneUrl,
    InvalidControlPlaneUrl,
    UnsupportedScheme,
    InvalidNumber(Setting),
    NotPositive(Setting),
    ConflictingSecretSources,
}

impl ConfigError {
    /// The error's text.
    pub fn message(&self) -> (m: String)
        ensures
            match *self {
                ConfigError::MissingControlPlaneUrl => m@ == "AGENT_LOOM_CONTROL_PLANE_URL is required"@,
                ConfigError::InvalidControlPlaneUrl => m@ == "invalid AGENT_LOOM_CONTROL_PLANE_URL"@,
                ConfigError::UnsupportedScheme => m@ == "control-plane URL must use http(s)"@,
                ConfigError::InvalidNumber(s) => m@ == if s == Setting::HermesOutputLimit {
                    "invalid output limit"@
                } else {
                    "invalid duration"@
                },
                ConfigError::NotPositive(s) => m@ == setting_name(s) + " must be positive"@,
                ConfigError::ConflictingSecretSources => m@ == "set only one runtime secret source"@,
            },
    {
        match self {
            ConfigError::MissingControlPlaneUrl => {
                proof { reveal_strlit("AGENT_LOOM_CONTROL_PLANE_URL is required"); }
                text("AGENT_LOOM_CONTROL_PLANE_URL is required")
            },
            ConfigError::InvalidControlPlaneUrl => {
                proof { reveal_strlit("invalid AGENT_LOOM_CONTROL_PLANE_URL"); }
                text("invalid AGENT_LOOM_CONTROL_PLANE_URL")
            },
            ConfigError::UnsupportedScheme => {
                proof { reveal_strlit("control-plane URL must use http(s)"); }
                text("control-plane URL must use http(s)")
            },
            ConfigError::InvalidNumber(s) => {
                proof {
                    reveal_strlit("invalid output limit");
                    reveal_strlit("invalid duration");
                }
                if *s == Setting::HermesOutputLimit {
                    text("invalid output limit")
                } else {
                    text("invalid duration")
                }
            },
            ConfigError::NotPositive(s) => {
                proof { reveal_strlit(" must be positive"); }
                joined(s.name(), " must be positive")
            },
            ConfigError::ConflictingSecretSources => {
                proof { reveal_strlit("set only one runtime secret source"); }
                text("set only one runtime secret source")
            },
        }
    }
}

/// Whether a character is an ASCII decimal digit.
pub open spec fn is_digit(c: char) -> bool {
    '0' <= c && c <= '9'
}

/// The value of a run of decimal digits.
pub open spec fn digits_value(d: Seq<char>) -> nat
    decreases d.len(),
{
    if d.len() == 0 {
        0
    } else {
        digits_value(d.drop_last()) * 10 + ((d.last() as u32) - ('0' as u32)) as nat
    }
}

/// What `str::parse::<u64>` makes of a text: an optional `+`, then one or more decimal digits
/// whose value fits in 64 bits.
pub open spec fn parsed_u64(s: Seq<char>) -> Option<u64> {
    if unsigned_digits(s).len() > 0 && all_digits(unsigned_digits(s)) && digits_value(unsigned_digits(s)) <= u64::MAX {
        Some(digits_value(unsigned_digits(s)) as u64)
    } else {
        None
    }
}

/// The digits of a number's text: without a leading `+`.
pub open spec fn unsigned_digits(s: Seq<char>) -> Seq<char> {
    if s.len() > 0 && s[0] == '+' { s.drop_first() } else { s }
}

/// Whether every character is a decimal digit.
pub open spec fn all_digits(d: Seq<char>) -> bool {
    forall|i: int| 0 <= i < d.len() ==> is_digit(#[trigger] d[i])
}

proof fn lemma_digits_prefix_monotone(d: Seq<char>, i: int, j: int)
    requires
        0 <= i <= j <= d.len(),
        forall|k: int| 0 <= k < d.len() ==> is_digit(#[trigger] d[k]),
    ensures
        digits_value(d.take(i)) <= digits_value(d.take(j)),
    decreases j - i,
{
    if i < j {
        lemma_digits_prefix_monotone(d, i, j - 1);
        assert(d.take(j).drop_last() =~= d.take(j - 1));
    }
}

/// Reads an unsigned 64-bit number as `str::parse::<u64>` does.
pub fn parse_u64(s: &str) -> (r: Option<u64>)
    ensures
        r == parsed_u64(s@),
{
    let cs = chars_of(s);
    let start: usize = if cs.len() > 0 && cs[0] == '+' { 1 } else { 0 };
    let ghost d = unsigned_digits(s@);
    proof {
        assert(d =~= cs@.skip(start as int));
    }
    if start >= cs.len() {
        return None;
    }
    let mut value: u64 = 0;
    let mut i: usize = start;
    while i < cs.len()
        invariant
            cs@ == s@,
            start <= i <= cs@.len(),
            d == cs@.skip(start as int),
            d == unsigned_digits(s@),
            forall|k: int| 0 <= k < i - start ==> is_digit(#[trigger] d[k]),
            value == digits_value(d.take(i - start)),
        decreases cs.len() - i,
    {
        let c = cs[i];
        if !('0' <= c && c <= '9') {
            assert(!is_digit(d[i - start]));
            assert(!all_digits(d));
            assert(parsed_u64(s@) is None);
            return None;
        }
        let digit: u64 = (c as u32 - '0' as u32) as u64;
        proof {
            assert(d.take(i - start + 1).drop_last() =~= d.take(i - start));
            assert(d.take(i - start + 1).last() == c);
        }
        if value > (u64::MAX - digit) / 10 {
            proof {
                assert(digits_value(d.take(i - start + 1)) > u64::MAX) by (nonlinear_arith)
                    requires
                        value > (u64::MAX - digit) / 10,
                        digits_value(d.take(i - start + 1)) == value * 10 + digit,
                        digit <= 9;
                if all_digits(d) {
                    lemma_digits_prefix_monotone(d, i - start + 1, d.len() as int);
                    assert(d.take(d.len() as int) =~= d);
                    assert(digits_value(d) > u64::MAX);
                }
                assert(parsed_u64(s@) is None);
            }
            return None;
        }
        value = value * 10 + digit;
        i = i + 1;
    }
    proof {
        assert(d.take(d.len() as int) =~= d);
    }
    Some(value)
}

/// The configuration as the environment gives it; `None` where a variable is unset (or not
/// valid Unicode).
#[derive(Debug)]
pub struct ConfigValues {
    pub control_plane_url: Option<String>,
    pub runtime_name: Option<String>,
    pub enrollment_token: Option<String>,
    pub state_path: Option<String>,
    pub poll_interval: Option<String>,
    pub heartbeat_interval: Option<String>,
    pub request_timeout: Option<String>,
    pub hermes_binary: Option<String>,
    pub hermes_timeout: Option<String>,
    pub hermes_output_limit: Option<String>,
    pub repo_sync_root: Option<String>,
}

/// The runtime's configuration. Durations are in seconds.
#[derive(Debug)]
pub struct Config {
    pub control_plane_url: String,
    pub runtime_name: String,
    pub enrollment_token: Option<String>,
    pub state_path: String,
    pub poll_interval: u64,
    pub heartbeat_interval: u64,
    pub request_timeout: u64,
    pub hermes_binary: String,
    pub hermes_timeout: u64,
    pub hermes_output_limit: u64,
    pub repo_sync_root: String,
}

/// What `url::Url::parse` makes of a text: the URL's scheme and its serialisation, or nothing
/// when the text is no URL.
pub uninterp spec fn url_parsed(text: Seq<char>) -> Option<(Seq<char>, Seq<char>)>;

/// Parses a URL; calls `url::Url::parse`, `Url::scheme` and the URL's `Display`.
/// Claims that the outcome is a function of the text.
#[verifier::external_body]
fn parse_url(s: &str) -> (r: Option<(String, String)>)
    ensures
        match r {
            Some((scheme, serialized)) => url_parsed(s@) == Some((scheme@, serialized@)),
            None => url_parsed(s@) is None,
        },
{
    match url::Url::parse(s) {
        Ok(u) => Some((u.scheme().to_string(), u.to_string())),
        Err(_) => None,
    }
}

/// The value of a numeric setting: its default when unset, otherwise the number it holds,
/// which must be positive.
pub open spec fn setting_value(v: Option<String>, s: Setting) -> Result<u64, ConfigError> {
    match v {
        None => Ok(setting_default(s)),
        Some(t) => match parsed_u64(t@) {
            None => Err(ConfigError::InvalidNumber(s)),
            Some(n) => if n == 0 { Err(ConfigError::NotPositive(s)) } else { Ok(n) },
        },
    }
}

fn positive(v: &Option<String>, s: Setting) -> (r: Result<u64, ConfigError>)
    ensures
        r == setting_value(*v, s),
{
    let n = match v {
        None => s.default_value(),
        Some(t) => match parse_u64(t.as_str()) {
            None => return Err(ConfigError::InvalidNumber(s)),
            Some(n) => n,
        },
    };
    if n == 0 {
        return Err(ConfigError::NotPositive(s));
    }
    Ok(n)
}

/// A non-empty value, or none.
pub open spec fn non_empty(v: Option<String>) -> Option<String> {
    match v {
        Some(t) => if t@.len() == 0 { None } else { Some(t) },
        None => None,
    }
}

fn keep_non_empty(v: Option<String>) -> (r: Option<String>)
    ensures
        r == non_empty(v),
{
    match v {
        Some(t) => {
            let cs = chars_of(t.as_str());
            if cs.len() == 0 { None } else { Some(t) }
        },
        None => None,
    }
}

/// Builds the configuration from the environment's values: the control-plane URL is required,
/// must parse and must use `http` or `https`; numeric settings default when unset and must
/// be positive (checked in the order poll, heartbeat, request timeout, Hermes timeout, output
/// limit); an empty enrollment token counts as none.
pub fn from_values(values: ConfigValues) -> (r: Result<Config, ConfigError>)
    ensures
        match values.control_plane_url {
            None => r == Err::<Config, ConfigError>(ConfigError::MissingControlPlaneUrl),
            Some(u) => match url_parsed(u@) {
                None => r == Err::<Config, ConfigError>(ConfigError::InvalidControlPlaneUrl),
                Some((scheme, serialized)) => if scheme != "http"@ && scheme != "https"@ {
                    r == Err::<Config, ConfigError>(ConfigError::UnsupportedScheme)
                } else {
                    match (setting_value(values.poll_interval, Setting::PollInterval),
                        setting_value(values.heartbeat_interval, Setting::HeartbeatInterval),
                        setting_value(values.request_timeout, Setting::RequestTimeout),
                        setting_value(values.hermes_timeout, Setting::HermesTimeout),
                        setting_value(values.hermes_output_limit, Setting::HermesOutputLimit)) {
                        (Err(e), _, _, _, _) => r == Err::<Config, ConfigError>(e),
                        (Ok(_), Err(e), _, _, _) => r == Err::<Config, ConfigError>(e),
                        (Ok(_), Ok(_), Err(e), _, _) => r == Err::<Config, ConfigError>(e),
                        (Ok(_), Ok(_), Ok(_), Err(e), _) => r == Err::<Config, ConfigError>(e),
                        (Ok(_), Ok(_), Ok(_), Ok(_), Err(e)) => r == Err::<Config, ConfigError>(e),
                        (Ok(p), Ok(h), Ok(t), Ok(ht), Ok(lim)) => match r {
                            Err(_) => false,
                            Ok(c) => {
                                &&& c.control_plane_url@ == serialized
                                &&& c.runtime_name@ == match values.runtime_name { Some(n) => n@, None => "agent-loom-runtime"@ }
                                &&& c.enrollment_token == non_empty(values.enrollment_token)
                                &&& c.state_path@ == match values.state_path { Some(sp) => sp@, None => "agent-loom-runtime.sqlite3"@ }
                                &&& c.poll_interval == p && c.heartbeat_interval == h && c.request_timeout == t
                                &&& c.hermes_timeout == ht && c.hermes_output_limit == lim
                                &&& c.hermes_binary@ == match values.hermes_binary { Some(b) => b@, None => "hermes"@ }
                                &&& c.repo_sync_root@ == match values.repo_sync_root { Some(d) => d@, None => "repos"@ }
                            },
                        },
                    }
                },
            },
        },
{
    proof {
        reveal_strlit("http");
        reveal_strlit("https");
        reveal_strlit("agent-loom-runtime");
        reveal_strlit("agent-loom-runtime.sqlite3");
        reveal_strlit("hermes");
        reveal_strlit("repos");
    }
    let url = match &values.control_plane_url {
        None => return Err(ConfigError::MissingControlPlaneUrl),
        Some(u) => u,
    };
    let (scheme, serialized) = match parse_url(url.as_str()) {
        None => return Err(ConfigError::InvalidControlPlaneUrl),
        Some(p) => p,
    };
    if !same_text(scheme.as_str(), "http") && !same_text(scheme.as_str(), "https") {
        return Err(ConfigError::UnsupportedScheme);
    }
    let poll_interval = match positive(&values.poll_interval, Setting::PollInterval) {
        Err(e) => return Err(e),
        Ok(v) => v,
    };
    let heartbeat_interval = match positive(&values.heartbeat_interval, Setting::HeartbeatInterval) {
        Err(e) => return Err(e),
        Ok(v) => v,
    };
    let request_timeout = match positive(&values.request_timeout, Setting::RequestTimeout) {
        Err(e) => return Err(e),
        Ok(v) => v,
    };
    let hermes_timeout = match positive(&values.hermes_timeout, Setting::HermesTimeout) {
        Err(e) => return Err(e),
        Ok(v) => v,
    };
    let hermes_output_limit = match positive(&values.hermes_output_limit, Setting::HermesOutputLimit) {
        Err(e) => return Err(e),
        Ok(v) => v,
    };
    let ConfigValues { runtime_name, enrollment_token, state_path, hermes_binary, repo_sync_root, .. } = values;
    Ok(Config {
        control_plane_url: serialized,
        runtime_name: match runtime_name { Some(n) => n, None => text("agent-loom-runtime") },
        enrollment_token: keep_non_empty(enrollment_token),
        state_path: match state_path { Some(p) => p, None => text("agent-loom-runtime.sqlite3") },
        poll_interval,
        heartbeat_interval,
        request_timeout,
        hermes_binary: match hermes_binary { Some(b) => b, None => text("hermes") },
        hermes_timeout,
        hermes_output_limit,
        repo_sync_root: match repo_sync_root { Some(d) => d, None => text("repos") },
    })
}

/// Where the runtime secret comes from.
#[derive(Debug)]
pub enum SecretSource {
    /// Read from this file, trimmed.
    File(String),
    /// Given directly (none when unset or empty).
    Direct(Option<String>),
}

/// Chooses the runtime secret's source: a direct secret (ignored when empty) or a secret file,
/// but not both.
pub fn secret_source(direct: Option<String>, file: Option<String>) -> (r: Result<SecretSource, ConfigError>)
    ensures
        non_empty(direct) is Some && file is Some ==> r == Err::<SecretSource, ConfigError>(ConfigError::ConflictingSecretSources),
        non_empty(direct) is None && file is Some ==> (r matches Ok(SecretSource::File(p)) && file == Some(p)),
        file is None ==> (r matches Ok(SecretSource::Direct(d)) && d == non_empty(direct)),
{
    let direct = keep_non_empty(direct);
    if direct.is_some() && file.is_some() {
        return Err(ConfigError::ConflictingSecretSources);
    }
    match file {
        Some(p) => Ok(SecretSource::File(p)),
        None => Ok(SecretSource::Direct(direct)),
    }
}

/// The secret held in a secret file: its contents without surrounding white space.
pub fn secret_from_file(contents: &str) -> (s: String)
    ensures
        s@ == crate::text::trim_spec(contents@),
{
    crate::text::trim(contents)
}

} // verus!
