use vstd::prelude::*;
use crate::json::{
    as_text, check_known_keys, field_type_message, first_unknown_key, keys_within, lemma_first_unknown_key_none, lookup,
    missing_field_message, string_field, string_field_error, unknown_field_message, JsonValue, JsonView,
};
use crate::text::{chars_of, find_spec, joined, starts_with_spec, string_of, text, trim_spec};

verus! {

/// The capability of repository synchronisation, and the instruction kind it accepts.
pub const CAPABILITY: &'static str = "repo.sync";

/// What a synchronisation does with the remote.
#[derive(Debug, PartialEq, Eq, Structural, Clone, Copy)]
pub enum Operation {
    Pull,
    Push,
    PullPush,
}

/// Credentials handed over for one synchronisation; never stored.
#[derive(Debug)]
pub struct Credential {
    pub username: String,
    pub token: String,
}

/// A validated `repo.sync` instruction. The worktree is relative to the sync root.
#[derive(Debug)]
pub struct SyncInstruction {
    pub kind: String,
    pub repository_url: String,
    pub operation: Operation,
    pub reference: String,
    pub worktree: String,
    pub credential: Option<Credential>,
}

/// Why a synchronisation failed.
#[derive(Debug)]
pub enum SyncError {
    Invalid(String),
    Command(String),
    Start(String),
    Io(String),
}

/// The text of a synchronisation error.
pub open spec fn sync_error_text(e: SyncError) -> Seq<char> {
    match e {
        SyncError::Invalid(s) => "invalid repository sync instruction: "@ + s@,
        SyncError::Command(s) => "repository sync command failed: "@ + s@,
        SyncError::Start(s) => "failed to start git: "@ + s@,
        SyncError::Io(s) => "failed to read git output: "@ + s@,
    }
}

impl SyncError {
    /// The error's text.
    pub fn message(&self) -> (m: String)
        ensures
            m@ == sync_error_text(*self),
    {
        match self {
            SyncError::Invalid(s) => {
                proof { reveal_strlit("invalid repository sync instruction: "); }
                joined("invalid repository sync instruction: ", s.as_str())
            },
            SyncError::Command(s) => {
                proof { reveal_strlit("repository sync command failed: "); }
                joined("repository sync command failed: ", s.as_str())
            },
            SyncError::Start(s) => {
                proof { reveal_strlit("failed to start git: "); }
                joined("failed to start git: ", s.as_str())
            },
            SyncError::Io(s) => {
                proof { reveal_strlit("failed to read git output: "); }
                joined("failed to read git output: ", s.as_str())
            },
        }
    }
}

/// The fields of a `repo.sync` instruction as read from JSON, before the safety checks.
pub struct SyncShape {
    pub kind: Seq<char>,
    pub repository_url: Seq<char>,
    pub operation: Operation,
    pub reference: Seq<char>,
    pub worktree: Seq<char>,
    pub credential: Option<(Seq<char>, Seq<char>)>,
}

/// The keys a `repo.sync` instruction may hold.
pub open spec fn sync_keys() -> Seq<Seq<char>> {
    seq!["kind"@, "repository_url"@, "operation"@, "reference"@, "worktree"@, "credential"@]
}

/// The keys a credential may hold.
pub open spec fn credential_keys() -> Seq<Seq<char>> {
    seq!["username"@, "token"@]
}

/// The operation named by a text (`pull`, `push`, `pull_push`).
pub open spec fn operation_named(t: Seq<char>) -> Option<Operation> {
    if t == "pull"@ {
        Some(Operation::Pull)
    } else if t == "push"@ {
        Some(Operation::Push)
    } else if t == "pull_push"@ {
        Some(Operation::PullPush)
    } else {
        None
    }
}

/// The operation held by the `operation` field: its name as a string, or a map with that
/// name as its single key and `null` as its value (the two forms a unit variant takes in
/// JSON). `None` when the field is absent or malformed.
pub open spec fn operation_of(v: Option<JsonView>) -> Option<Operation> {
    match v {
        Some(JsonView::Text(t)) => operation_named(t),
        Some(JsonView::Object(fs)) => if fs.len() == 1 && fs[0].1 == JsonView::Null {
            operation_named(fs[0].0)
        } else {
            None
        },
        _ => None,
    }
}

/// The message for an operation name that names no operation.
pub open spec fn unknown_operation_message(t: Seq<char>) -> Seq<char> {
    "unknown variant `"@ + t + "`, expected one of `pull`, `push`, `pull_push`"@
}

/// The credential field read from JSON: absent or null means none; an object must hold only
/// string `username` and `token`. `None` when the field is malformed.
pub open spec fn credential_shape(v: Option<JsonView>) -> Option<Option<(Seq<char>, Seq<char>)>> {
    match v {
        None => Some(None),
        Some(JsonView::Null) => Some(None),
        Some(JsonView::Object(fs)) => {
            if keys_within(fs, credential_keys()) && as_text(lookup(fs, "username"@)) is Some
                && as_text(lookup(fs, "token"@)) is Some {
                Some(Some((as_text(lookup(fs, "username"@))->0, as_text(lookup(fs, "token"@))->0)))
            } else {
                None
            }
        },
        _ => None,
    }
}

/// The fields of an instruction of the right shape; `None` when the JSON does not have it.
pub open spec fn sync_shape(v: JsonView) -> Option<SyncShape> {
    match v {
        JsonView::Object(fs) => {
            if keys_within(fs, sync_keys())
                && as_text(lookup(fs, "kind"@)) is Some
                && as_text(lookup(fs, "repository_url"@)) is Some
                && operation_of(lookup(fs, "operation"@)) is Some
                && as_text(lookup(fs, "reference"@)) is Some
                && as_text(lookup(fs, "worktree"@)) is Some
                && credential_shape(lookup(fs, "credential"@)) is Some {
                Some(SyncShape {
                    kind: as_text(lookup(fs, "kind"@))->0,
                    repository_url: as_text(lookup(fs, "repository_url"@))->0,
                    operation: operation_of(lookup(fs, "operation"@))->0,
                    reference: as_text(lookup(fs, "reference"@))->0,
                    worktree: as_text(lookup(fs, "worktree"@))->0,
                    credential: credential_shape(lookup(fs, "credential"@))->0,
                })
            } else {
                None
            }
        },
        _ => None,
    }
}

/// The message reported for a malformed credential field.
pub open spec fn credential_error(v: Option<JsonView>) -> Seq<char> {
    match v {
        Some(JsonView::Object(fs)) => match first_unknown_key(fs, credential_keys()) {
            Some(k) => unknown_field_message(k, credential_keys()),
            None => if as_text(lookup(fs, "username"@)) is None {
                string_field_error(fs, "username"@)
            } else {
                string_field_error(fs, "token"@)
            },
        },
        _ => field_type_message("credential"@, "an object"@),
    }
}

/// The message reported for an operation field that holds no operation.
pub open spec fn operation_error(fs: Seq<(Seq<char>, JsonView)>) -> Seq<char> {
    match lookup(fs, "operation"@) {
        None => missing_field_message("operation"@),
        Some(JsonView::Text(t)) => unknown_operation_message(t),
        Some(JsonView::Object(m)) => if m.len() != 1 {
            "invalid value for field `operation`: expected a map with a single key"@
        } else if operation_named(m[0].0) is None {
            unknown_operation_message(m[0].0)
        } else {
            "invalid type for field `operation`: expected unit"@
        },
        Some(_) => field_type_message("operation"@, "a string or map"@),
    }
}

/// The message reported for an instruction that does not have the right shape: the first
/// unknown key, else the first field, in the order of the schema, that is malformed.
pub open spec fn sync_shape_error(v: JsonView) -> Seq<char> {
    match v {
        JsonView::Object(fs) => match first_unknown_key(fs, sync_keys()) {
            Some(k) => unknown_field_message(k, sync_keys()),
            None => if as_text(lookup(fs, "kind"@)) is None {
                string_field_error(fs, "kind"@)
            } else if as_text(lookup(fs, "repository_url"@)) is None {
                string_field_error(fs, "repository_url"@)
            } else if operation_of(lookup(fs, "operation"@)) is None {
                operation_error(fs)
            } else if as_text(lookup(fs, "reference"@)) is None {
                string_field_error(fs, "reference"@)
            } else if as_text(lookup(fs, "worktree"@)) is None {
                string_field_error(fs, "worktree"@)
            } else {
                credential_error(lookup(fs, "credential"@))
            },
        },
        _ => "invalid type: expected an object"@,
    }
}

/// Whether a `..` segment starts at index `i` of a path.
pub open spec fn parent_segment_at(w: Seq<char>, i: int) -> bool {
    &&& 0 <= i && i + 2 <= w.len()
    &&& w[i] == '.' && w[i + 1] == '.'
    &&& (i == 0 || w[i - 1] == '/')
    &&& (i + 2 == w.len() || w[i + 2] == '/')
}

/// Whether a worktree path could leave the sync root: it is absolute, or it has a `..`
/// component.
pub open spec fn escapes_root(w: Seq<char>) -> bool {
    (w.len() > 0 && w[0] == '/') || exists|i: int| parent_segment_at(w, i)
}

/// Whether a reference is unsafe to hand to git: empty, or holding a space or a line break.
pub open spec fn unsafe_reference(r: Seq<char>) -> bool {
    r.len() == 0 || exists|i: int| 0 <= i < r.len() && (r[i] == ' ' || r[i] == '\n' || r[i] == '\r')
}

/// The first safety check a well-shaped instruction fails, as the message reported; `None`
/// when it passes them all.
pub open spec fn sync_rejection(s: SyncShape) -> Option<Seq<char>> {
    if s.kind != CAPABILITY@ {
        Some("unsupported kind"@)
    } else if !starts_with_spec(s.repository_url, "https://"@) {
        Some("repository_url must use https"@)
    } else if unsafe_reference(s.reference) {
        Some("reference must be a non-empty safe ref"@)
    } else if escapes_root(s.worktree) {
        Some("worktree must be relative to the configured sync root"@)
    } else if s.credential matches Some((_, token)) && token.len() == 0 {
        Some("credential token must not be empty"@)
    } else {
        None
    }
}

/// The shape of a parsed instruction.
pub open spec fn instruction_shape(i: SyncInstruction) -> SyncShape {
    SyncShape {
        kind: i.kind@,
        repository_url: i.repository_url@,
        operation: i.operation,
        reference: i.reference@,
        worktree: i.worktree@,
        credential: match i.credential {
            Some(c) => Some((c.username@, c.token@)),
            None => None,
        },
    }
}

/// Whether `w` could leave the sync root.
pub fn worktree_escapes(w: &str) -> (r: bool)
    ensures
        r == escapes_root(w@),
{
    let cs = chars_of(w);
    if cs.len() > 0 && cs[0] == '/' {
        return true;
    }
    let mut i: usize = 0;
    while i < cs.len() && i + 1 < cs.len()
        invariant
            cs@ == w@,
            i <= cs@.len(),
            !(cs@.len() > 0 && cs@[0] == '/'),
            forall|j: int| 0 <= j < i ==> !parent_segment_at(w@, j),
        decreases cs.len() - i,
    {
        if cs[i] == '.' && cs[i + 1] == '.' && (i == 0 || cs[i - 1] == '/') && (i + 2 == cs.len() || cs[i + 2] == '/') {
            assert(parent_segment_at(w@, i as int));
            return true;
        }
        i = i + 1;
    }
    assert forall|j: int| !parent_segment_at(w@, j) by {
        if 0 <= j && j + 2 <= w@.len() {
            assert(j < i);
        }
    }
    false
}

/// Whether `r` is unsafe as a git reference.
pub fn reference_unsafe(r: &str) -> (b: bool)
    ensures
        b == unsafe_reference(r@),
{
    let cs = chars_of(r);
    if cs.len() == 0 {
        return true;
    }
    let mut i: usize = 0;
    while i < cs.len()
        invariant
            cs@ == r@,
            i <= cs@.len(),
            cs@.len() > 0,
            forall|j: int| 0 <= j < i ==> !(cs@[j] == ' ' || cs@[j] == '\n' || cs@[j] == '\r'),
        decreases cs.len() - i,
    {
        let c = cs[i];
        if c == ' ' || c == '\n' || c == '\r' {
            return true;
        }
        i = i + 1;
    }
    false
}

/// The credential view of a parsed credential.
pub open spec fn credential_view(c: Option<Credential>) -> Option<(Seq<char>, Seq<char>)> {
    match c {
        Some(c) => Some((c.username@, c.token@)),
        None => None,
    }
}

fn credential_field(value: &JsonValue) -> (r: Result<Option<Credential>, String>)
    requires
        value@ is Object,
    ensures
        match r {
            Ok(c) => credential_shape(lookup(value@->Object_0, "credential"@)) == Some(credential_view(c)),
            Err(m) => credential_shape(lookup(value@->Object_0, "credential"@)) is None
                && m@ == credential_error(lookup(value@->Object_0, "credential"@)),
        },
{
    proof {
        reveal_strlit("credential");
        reveal_strlit("username");
        reveal_strlit("token");
    }
    match value.get("credential") {
        None => Ok(None),
        Some(JsonValue::Null) => Ok(None),
        Some(c) => {
            let is_object = match c {
                JsonValue::Object(_) => true,
                _ => false,
            };
            if !is_object {
                proof {
                    reveal_strlit("invalid type for field `credential`: expected an object");
                    reveal_strlit("invalid type for field `");
                    reveal_strlit("`: expected ");
                    reveal_strlit("an object");
                    assert("invalid type for field `credential`: expected an object"@ =~= field_type_message("credential"@, "an object"@));
                }
                return Err(text("invalid type for field `credential`: expected an object"));
            }
            let allowed: [&str; 2] = ["username", "token"];
            proof {
                assert(allowed@.map_values(|a: &str| a@) =~= credential_keys());
            }
            match check_known_keys(c, allowed.as_slice()) {
                Err(m) => return Err(m),
                Ok(()) => {},
            }
            proof { lemma_first_unknown_key_none(c@->Object_0, credential_keys()); }
            let username = match string_field(c, "username") {
                Ok(u) => u,
                Err(m) => return Err(m),
            };
            let token = match string_field(c, "token") {
                Ok(t) => t,
                Err(m) => return Err(m),
            };
            Ok(Some(Credential { username, token }))
        },
    }
}

fn operation_by_name(name: &str) -> (r: Option<Operation>)
    ensures
        r == operation_named(name@),
{
    proof {
        reveal_strlit("pull");
        reveal_strlit("push");
        reveal_strlit("pull_push");
    }
    if crate::text::same_text(name, "pull") {
        Some(Operation::Pull)
    } else if crate::text::same_text(name, "push") {
        Some(Operation::Push)
    } else if crate::text::same_text(name, "pull_push") {
        Some(Operation::PullPush)
    } else {
        None
    }
}

fn unknown_operation(name: &str) -> (m: String)
    ensures
        m@ == unknown_operation_message(name@),
{
    proof {
        reveal_strlit("unknown variant `");
        reveal_strlit("`, expected one of `pull`, `push`, `pull_push`");
    }
    let a = joined("unknown variant `", name);
    joined(a.as_str(), "`, expected one of `pull`, `push`, `pull_push`")
}

fn operation_field(value: &JsonValue) -> (r: Result<Operation, String>)
    requires
        value@ is Object,
    ensures
        match r {
            Ok(op) => operation_of(lookup(value@->Object_0, "operation"@)) == Some(op),
            Err(m) => operation_of(lookup(value@->Object_0, "operation"@)) is None
                && m@ == operation_error(value@->Object_0),
        },
{
    proof {
        reveal_strlit("operation");
        reveal_strlit("missing field `");
        reveal_strlit("`");
        reveal_strlit("missing field `operation`");
        reveal_strlit("invalid value for field `operation`: expected a map with a single key");
        reveal_strlit("invalid type for field `operation`: expected unit");
        reveal_strlit("invalid type for field `");
        reveal_strlit("`: expected ");
        reveal_strlit("a string or map");
        reveal_strlit("invalid type for field `operation`: expected a string or map");
    }
    match value.get("operation") {
        None => {
            assert("missing field `operation`"@ =~= missing_field_message("operation"@));
            Err(text("missing field `operation`"))
        },
        Some(JsonValue::Text(name)) => match operation_by_name(name.as_str()) {
            Some(op) => Ok(op),
            None => Err(unknown_operation(name.as_str())),
        },
        Some(JsonValue::Object(fields)) => {
            proof {
                crate::json::lemma_fields_view_index(fields@);
            }
            if fields.len() != 1 {
                return Err(text("invalid value for field `operation`: expected a map with a single key"));
            }
            match operation_by_name(fields[0].0.as_str()) {
                None => Err(unknown_operation(fields[0].0.as_str())),
                Some(op) => match &fields[0].1 {
                    JsonValue::Null => Ok(op),
                    _ => Err(text("invalid type for field `operation`: expected unit")),
                },
            }
        },
        Some(_) => {
            assert("invalid type for field `operation`: expected a string or map"@
                =~= field_type_message("operation"@, "a string or map"@));
            Err(text("invalid type for field `operation`: expected a string or map"))
        },
    }
}

/// Reads a `repo.sync` instruction from JSON and checks that it is safe: kind `repo.sync`,
/// an `https://` repository, a non-empty reference without spaces or line breaks, a worktree
/// that stays inside the sync root, and no empty credential token.
pub fn parse(value: JsonValue) -> (r: Result<SyncInstruction, SyncError>)
    ensures
        match r {
            Ok(i) => sync_shape(value@) == Some(instruction_shape(i)) && sync_rejection(instruction_shape(i)) is None,
            Err(SyncError::Invalid(m)) => (sync_shape(value@) is None && m@ == sync_shape_error(value@))
                || (sync_shape(value@) matches Some(s) && sync_rejection(s) == Some(m@)),
            Err(_) => false,
        },
        r is Ok <==> (sync_shape(value@) matches Some(s) && sync_rejection(s) is None),
{
    proof {
        reveal_strlit("kind");
        reveal_strlit("repository_url");
        reveal_strlit("operation");
        reveal_strlit("reference");
        reveal_strlit("worktree");
        reveal_strlit("credential");
    }
    let is_object = match &value {
        JsonValue::Object(_) => true,
        _ => false,
    };
    if !is_object {
        proof { reveal_strlit("invalid type: expected an object"); }
        return Err(SyncError::Invalid(text("invalid type: expected an object")));
    }
    let allowed: [&str; 6] = ["kind", "repository_url", "operation", "reference", "worktree", "credential"];
    proof {
        assert(allowed@.map_values(|a: &str| a@) =~= sync_keys());
    }
    match check_known_keys(&value, allowed.as_slice()) {
        Err(m) => return Err(SyncError::Invalid(m)),
        Ok(()) => {},
    }
    proof { lemma_first_unknown_key_none(value@->Object_0, sync_keys()); }
    let kind = match string_field(&value, "kind") {
        Ok(k) => k,
        Err(m) => return Err(SyncError::Invalid(m)),
    };
    let repository_url = match string_field(&value, "repository_url") {
        Ok(u) => u,
        Err(m) => return Err(SyncError::Invalid(m)),
    };
    let operation = match operation_field(&value) {
        Ok(o) => o,
        Err(m) => return Err(SyncError::Invalid(m)),
    };
    let reference = match string_field(&value, "reference") {
        Ok(r) => r,
        Err(m) => return Err(SyncError::Invalid(m)),
    };
    let worktree = match string_field(&value, "worktree") {
        Ok(w) => w,
        Err(m) => return Err(SyncError::Invalid(m)),
    };
    let credential = match credential_field(&value) {
        Ok(c) => c,
        Err(m) => return Err(SyncError::Invalid(m)),
    };
    let instruction = SyncInstruction { kind, repository_url, operation, reference, worktree, credential };
    assert(sync_shape(value@) == Some(instruction_shape(instruction)));
    match check_instruction(&instruction) {
        Some(m) => Err(SyncError::Invalid(m)),
        None => Ok(instruction),
    }
}

/// The first safety check an instruction fails, as the message to report.
pub fn check_instruction(i: &SyncInstruction) -> (r: Option<String>)
    ensures
        match r {
            Some(m) => sync_rejection(instruction_shape(*i)) == Some(m@),
            None => sync_rejection(instruction_shape(*i)) is None,
        },
{
    proof {
        reveal_strlit("repo.sync");
        reveal_strlit("https://");
        reveal_strlit("unsupported kind");
        reveal_strlit("repository_url must use https");
        reveal_strlit("reference must be a non-empty safe ref");
        reveal_strlit("worktree must be relative to the configured sync root");
        reveal_strlit("credential token must not be empty");
    }
    if !crate::text::same_text(i.kind.as_str(), CAPABILITY) {
        return Some(text("unsupported kind"));
    }
    let url = chars_of(i.repository_url.as_str());
    let scheme = chars_of("https://");
    if !crate::text::starts_with(url.as_slice(), scheme.as_slice()) {
        return Some(text("repository_url must use https"));
    }
    if reference_unsafe(i.reference.as_str()) {
        return Some(text("reference must be a non-empty safe ref"));
    }
    if worktree_escapes(i.worktree.as_str()) {
        return Some(text("worktree must be relative to the configured sync root"));
    }
    match &i.credential {
        Some(c) => {
            let t = chars_of(c.token.as_str());
            if t.len() == 0 {
                return Some(text("credential token must not be empty"));
            }
        },
        None => {},
    }
    None
}

/// `t` with everything after the first occurrence of `marker` replaced by `[REDACTED]`.
pub open spec fn redact_marker(t: Seq<char>, marker: Seq<char>) -> Seq<char> {
    match find_spec(t, marker) {
        Some(i) => t.take(i + marker.len()) + "[REDACTED]"@,
        None => t,
    }
}

/// Git output with credentials cut off: after `GIT_TOKEN=`, then after `token=`.
pub open spec fn git_redacted(t: Seq<char>) -> Seq<char> {
    redact_marker(redact_marker(t, "GIT_TOKEN="@), "token="@)
}

fn redact_after(t: String, marker: &str) -> (out: String)
    ensures
        out@ == redact_marker(t@, marker@),
{
    let cs = chars_of(t.as_str());
    let ms = chars_of(marker);
    match crate::text::find(cs.as_slice(), ms.as_slice()) {
        Some(start) => {
            proof {
                reveal_strlit("[REDACTED]");
                crate::text::lemma_find_spec_occurs(cs@, ms@);
                assert(crate::text::occurs_at(cs@, ms@, start as int));
                assert(start + ms@.len() <= cs@.len());
            }
            let n = cs.len();
            let m = ms.len();
            assert(start + m <= n);
            let end: usize = start + m;
            let head = string_of(&cs.as_slice()[0..end]);
            joined(head.as_str(), "[REDACTED]")
        },
        None => t,
    }
}

/// Cuts credentials out of git output.
pub fn redact(t: String) -> (out: String)
    ensures
        out@ == git_redacted(t@),
{
    proof {
        reveal_strlit("GIT_TOKEN=");
        reveal_strlit("token=");
    }
    let once = redact_after(t, "GIT_TOKEN=");
    redact_after(once, "token=")
}

/// `relative` joined onto `root` as `Path::join` does on Unix.
pub open spec fn joined_path(root: Seq<char>, relative: Seq<char>) -> Seq<char> {
    if relative.len() > 0 && relative[0] == '/' {
        relative
    } else if root.len() > 0 && root.last() != '/' {
        root + seq!['/'] + relative
    } else {
        root + relative
    }
}

/// Joins `relative` onto `root`.
pub fn join_path(root: &str, relative: &str) -> (out: String)
    ensures
        out@ == joined_path(root@, relative@),
{
    let r = chars_of(root);
    let rel = chars_of(relative);
    if rel.len() > 0 && rel[0] == '/' {
        return string_of(rel.as_slice());
    }
    if r.len() > 0 && r[r.len() - 1] != '/' {
        proof { reveal_strlit("/"); }
        let with_sep = joined(root, "/");
        assert(with_sep@ =~= root@ + seq!['/']);
        return joined(with_sep.as_str(), relative);
    }
    joined(root, relative)
}

/// The worktree of an instruction under the sync root.
pub fn worktree_path(instruction: &SyncInstruction, root: &str) -> (out: String)
    ensures
        out@ == joined_path(root@, instruction.worktree@),
{
    join_path(root, instruction.worktree.as_str())
}

/// The git commands of a synchronisation, in order, and what it reports.
#[derive(Debug)]
pub struct SyncPlan {
    /// Whether the sync root must be created first (before a clone).
    pub prepare_root: bool,
    /// The argument lists of the git commands to run, in order.
    pub steps: Vec<Vec<String>>,
    /// Whether the output of the last command is the result (otherwise the result is empty).
    pub returns_output: bool,
}

/// The argument lists of a plan, as texts.
pub open spec fn steps_view(steps: Seq<Vec<String>>) -> Seq<Seq<Seq<char>>> {
    steps.map_values(|v: Vec<String>| v@.map_values(|a: String| a@))
}

pub open spec fn clone_args(i: SyncInstruction, path: Seq<char>) -> Seq<Seq<char>> {
    seq!["clone"@, "--branch"@, i.reference@, i.repository_url@, path]
}

pub open spec fn pull_args(i: SyncInstruction, path: Seq<char>) -> Seq<Seq<char>> {
    seq!["-C"@, path, "pull"@, "--ff-only"@, "origin"@, i.reference@]
}

pub open spec fn push_args(i: SyncInstruction, path: Seq<char>) -> Seq<Seq<char>> {
    seq!["-C"@, path, "push"@, "origin"@, "HEAD:"@ + i.reference@]
}

/// Whether an operation pushes.
pub open spec fn pushes(op: Operation) -> bool {
    op == Operation::Push || op == Operation::PullPush
}

/// Whether an operation pulls.
pub open spec fn pulls(op: Operation) -> bool {
    op == Operation::Pull || op == Operation::PullPush
}

fn texts(items: &[&str]) -> (out: Vec<String>)
    ensures
        out@.len() == items@.len(),
        forall|j: int| 0 <= j < items@.len() ==> #[trigger] out@[j]@ == items@[j]@,
{
    let mut out: Vec<String> = Vec::new();
    let mut i: usize = 0;
    while i < items.len()
        invariant
            i <= items@.len(),
            out@.len() == i,
            forall|j: int| 0 <= j < i ==> #[trigger] out@[j]@ == items@[j]@,
        decreases items.len() - i,
    {
        out.push(text(items[i]));
        i = i + 1;
    }
    out
}

/// Decides the git commands for an instruction, given whether the worktree already holds a
/// repository: a push needs one; a pull without one clones it; otherwise pull, then push.
pub fn plan(instruction: &SyncInstruction, root: &str, repository_present: bool) -> (r: Result<SyncPlan, SyncError>)
    ensures
        ({
            let path = joined_path(root@, instruction.worktree@);
            let op = instruction.operation;
            match r {
                Err(SyncError::Invalid(m)) => pushes(op) && !repository_present
                    && m@ == "push operations require an existing worktree"@,
                Err(_) => false,
                Ok(p) => {
                    &&& !(pushes(op) && !repository_present)
                    &&& if !repository_present {
                        &&& p.prepare_root
                        &&& steps_view(p.steps@) == seq![clone_args(*instruction, path)]
                        &&& p.returns_output
                    } else {
                        &&& !p.prepare_root
                        &&& steps_view(p.steps@) == (if pulls(op) { seq![pull_args(*instruction, path)] } else { Seq::empty() })
                            + (if pushes(op) { seq![push_args(*instruction, path)] } else { Seq::empty() })
                        &&& p.returns_output == pushes(op)
                    }
                },
            }
        }),
{
    proof {
        reveal_strlit("push operations require an existing worktree");
        reveal_strlit("clone");
        reveal_strlit("--branch");
        reveal_strlit("-C");
        reveal_strlit("pull");
        reveal_strlit("--ff-only");
        reveal_strlit("origin");
        reveal_strlit("push");
        reveal_strlit("HEAD:");
    }
    let op = instruction.operation;
    let is_push = op == Operation::Push || op == Operation::PullPush;
    let is_pull = op == Operation::Pull || op == Operation::PullPush;
    if is_push && !repository_present {
        return Err(SyncError::Invalid(text("push operations require an existing worktree")));
    }
    let path = worktree_path(instruction, root);
    let mut steps: Vec<Vec<String>> = Vec::new();
    if !repository_present {
        let mut args = texts(["clone", "--branch"].as_slice());
        args.push(instruction.reference.clone());
        args.push(instruction.repository_url.clone());
        args.push(path);
        proof {
            assert(args@.map_values(|a: String| a@) =~= clone_args(*instruction, joined_path(root@, instruction.worktree@)));
        }
        steps.push(args);
        proof {
            assert(steps_view(steps@) =~= seq![clone_args(*instruction, joined_path(root@, instruction.worktree@))]);
        }
        return Ok(SyncPlan { prepare_root: true, steps, returns_output: true });
    }
    if is_pull {
        let mut args = texts(["-C"].as_slice());
        args.push(path.clone());
        let mut rest = texts(["pull", "--ff-only", "origin"].as_slice());
        args.append(&mut rest);
        args.push(instruction.reference.clone());
        proof {
            assert(args@.map_values(|a: String| a@) =~= pull_args(*instruction, path@));
        }
        steps.push(args);
    }
    let ghost after_pull = steps@;
    proof {
        assert(steps_view(after_pull) =~= (if is_pull { seq![pull_args(*instruction, path@)] } else { Seq::empty() }));
    }
    if is_push {
        let mut args = texts(["-C"].as_slice());
        args.push(path.clone());
        let mut rest = texts(["push", "origin"].as_slice());
        args.append(&mut rest);
        args.push(joined("HEAD:", instruction.reference.as_str()));
        proof {
            assert(args@.map_values(|a: String| a@) =~= push_args(*instruction, path@));
        }
        steps.push(args);
    }
    proof {
        assert(steps_view(steps@) =~= steps_view(after_pull)
            + (if is_push { seq![push_args(*instruction, path@)] } else { Seq::empty() }));
    }
    Ok(SyncPlan { prepare_root: false, steps, returns_output: is_push })
}

/// Where a synchronisation stands: run the step with this index next, or finished.
#[derive(Debug)]
pub enum SyncProgress {
    Run(usize),
    Done(Result<String, SyncError>),
}

impl SyncPlan {
    /// How a plan begins: with its first step, or done with an empty result when it has none.
    pub fn first_step(&self) -> (p: SyncProgress)
        ensures
            self.steps@.len() > 0 ==> p == SyncProgress::Run(0),
            self.steps@.len() == 0 ==> (p matches SyncProgress::Done(Ok(out)) && out@ == Seq::<char>::empty()),
    {
        if self.steps.len() > 0 {
            SyncProgress::Run(0)
        } else {
            SyncProgress::Done(Ok(String::new()))
        }
    }

    /// What follows step `index` with `outcome`: a failure ends the plan with that failure;
    /// otherwise the next step runs, or the plan ends with the last output (when the plan
    /// reports it) or an empty result.
    pub fn after_step(&self, index: usize, outcome: Result<String, SyncError>) -> (p: SyncProgress)
        requires
            index < self.steps@.len(),
        ensures
            match outcome {
                Err(e) => p == SyncProgress::Done(Err::<String, SyncError>(e)),
                Ok(out) => if index + 1 < self.steps@.len() {
                    p == SyncProgress::Run((index + 1) as usize)
                } else if self.returns_output {
                    p == SyncProgress::Done(Ok::<String, SyncError>(out))
                } else {
                    (p matches SyncProgress::Done(Ok(t)) && t@ == Seq::<char>::empty())
                },
            },
    {
        match outcome {
            Err(e) => SyncProgress::Done(Err(e)),
            Ok(out) => {
                if index < self.steps.len() - 1 {
                    SyncProgress::Run(index + 1)
                } else if self.returns_output {
                    SyncProgress::Done(Ok(out))
                } else {
                    SyncProgress::Done(Ok(String::new()))
                }
            },
        }
    }
}

/// The character of a six-bit value in the standard Base64 alphabet (RFC 4648).
pub open spec fn base64_char(v: int) -> char {
    if v < 26 {
        (('A' as int) + v) as char
    } else if v < 52 {
        (('a' as int) + v - 26) as char
    } else if v < 62 {
        (('0' as int) + v - 52) as char
    } else if v == 62 {
        '+'
    } else {
        '/'
    }
}

/// Standard Base64 with padding (RFC 4648), as `base64`'s standard engine writes it: each
/// group of three bytes becomes four characters; a last group of one or two bytes is padded
/// with `=`.
pub open spec fn base64_standard_encoding(b: Seq<u8>) -> Seq<char>
    decreases b.len(),
{
    if b.len() == 0 {
        Seq::empty()
    } else if b.len() == 1 {
        seq![base64_char(b[0] as int / 4), base64_char((b[0] as int % 4) * 16), '=', '=']
    } else if b.len() == 2 {
        seq![
            base64_char(b[0] as int / 4),
            base64_char((b[0] as int % 4) * 16 + b[1] as int / 16),
            base64_char((b[1] as int % 16) * 4),
            '=',
        ]
    } else {
        seq![
            base64_char(b[0] as int / 4),
            base64_char((b[0] as int % 4) * 16 + b[1] as int / 16),
            base64_char((b[1] as int % 16) * 4 + b[2] as int / 64),
            base64_char(b[2] as int % 64),
        ] + base64_standard_encoding(b.subrange(3, b.len() as int))
    }
}

/// Encodes bytes in standard Base64; calls `base64::engine::general_purpose::STANDARD.encode`.
/// Claims that the text is the padded RFC 4648 encoding of the bytes.
#[verifier::external_body]
fn base64_standard(bytes: &[u8]) -> (out: String)
    ensures
        out@ == base64_standard_encoding(bytes@),
{
    <base64::engine::GeneralPurpose as base64::Engine>::encode(&base64::engine::general_purpose::STANDARD, bytes)
}

/// The environment git runs with: no terminal prompts, and, with a credential, an HTTP
/// `Authorization: Basic` header carrying `username:token` in Base64.
pub open spec fn git_environment_view(credential: Option<(Seq<char>, Seq<char>)>) -> Seq<(Seq<char>, Seq<char>)> {
    seq![("GIT_TERMINAL_PROMPT"@, "0"@)] + match credential {
        Some((user, token)) => seq![
            ("GIT_CONFIG_COUNT"@, "1"@),
            ("GIT_CONFIG_KEY_0"@, "http.extraHeader"@),
            ("GIT_CONFIG_VALUE_0"@, "Authorization: Basic "@
                + base64_standard_encoding(vstd::utf8::encode_utf8(user + ":"@ + token))),
        ],
        None => Seq::empty(),
    }
}

fn env_pair(key: &str, value: &str) -> (p: (String, String))
    ensures
        p.0@ == key@,
        p.1@ == value@,
{
    (text(key), text(value))
}

/// The environment variables git is run with.
pub fn git_environment(credential: &Option<Credential>) -> (env: Vec<(String, String)>)
    ensures
        env@.map_values(|p: (String, String)| (p.0@, p.1@)) == git_environment_view(credential_view(*credential)),
{
    proof {
        reveal_strlit("GIT_TERMINAL_PROMPT");
        reveal_strlit("0");
        reveal_strlit("GIT_CONFIG_COUNT");
        reveal_strlit("1");
        reveal_strlit("GIT_CONFIG_KEY_0");
        reveal_strlit("http.extraHeader");
        reveal_strlit("GIT_CONFIG_VALUE_0");
        reveal_strlit("Authorization: Basic ");
        reveal_strlit(":");
    }
    let mut env: Vec<(String, String)> = Vec::new();
    env.push(env_pair("GIT_TERMINAL_PROMPT", "0"));
    match credential {
        Some(c) => {
            let a = joined(c.username.as_str(), ":");
            let pair = joined(a.as_str(), c.token.as_str());
            let auth = base64_standard(pair.as_str().as_bytes());
            let header = joined("Authorization: Basic ", auth.as_str());
            env.push(env_pair("GIT_CONFIG_COUNT", "1"));
            env.push(env_pair("GIT_CONFIG_KEY_0", "http.extraHeader"));
            env.push(env_pair("GIT_CONFIG_VALUE_0", header.as_str()));
        },
        None => {},
    }
    proof {
        assert(env@.map_values(|p: (String, String)| (p.0@, p.1@)) =~= git_environment_view(credential_view(*credential)));
    }
    env
}

/// The outcome of one git command: its trimmed, redacted output, or on failure its redacted
/// error output.
pub fn git_outcome(success: bool, stdout: &[u8], stderr: &[u8]) -> (r: Result<String, SyncError>)
    ensures
        match r {
            Ok(out) => success && out@ == git_redacted(trim_spec(crate::text::utf8_lossy_decoding(stdout@))),
            Err(SyncError::Command(m)) => !success && m@ == git_redacted(crate::text::utf8_lossy_decoding(stderr@)),
            Err(_) => false,
        },
{
    if !success {
        return Err(SyncError::Command(redact(crate::text::utf8_lossy(stderr))));
    }
    let decoded = crate::text::utf8_lossy(stdout);
    Ok(redact(crate::text::trim(decoded.as_str())))
}

} // verus!
