use vstd::prelude::*;
use crate::json::{
    as_text, check_known_keys, field, fields_view, first_unknown_key, keys_within, lemma_fields_view_push,
    lemma_first_unknown_key_none, lookup, string_field, string_field_error, unknown_field_message, JsonValue, JsonView,
};
use crate::text::{is_blank, joined, text};
use std::path::PathBuf;
use std::time::Duration;

verus! {

/// The capability this runner provides, and the only instruction kind it accepts.
pub const CAPABILITY: &'static str = "hermes.run";

/// The largest prompt accepted, in bytes of UTF-8.
pub const MAX_PROMPT_BYTES: usize = 131072;

#[verifier::external_type_specification]
#[verifier::external_body]
pub struct ExPathBuf(PathBuf);

/// A validated `hermes.run` instruction.
#[derive(Debug)]
pub struct RunInstruction {
    pub kind: String,
    pub prompt: String,
}

/// Why a Hermes run did not produce a result.
#[derive(Debug)]
pub enum HermesError {
    InvalidInstruction(String),
    UnsupportedInstruction(String),
    Timeout(Duration),
    NonZero { status: String, stderr: String },
    Start(String),
    Io(String),
    Cancelled,
}

/// What `Debug` writes for a duration (such as `30ms` or `2s`).
pub uninterp spec fn duration_debug(d: Duration) -> Seq<char>;

/// Writes a duration as `Debug` does; calls `format!("{:?}", ..)` on it. Claims that the text
/// is a function of the duration.
#[verifier::external_body]
fn duration_text(d: &Duration) -> (t: String)
    ensures
        t@ == duration_debug(*d),
{
    format!("{:?}", d)
}

/// The text of error `e`: a fixed lead followed by the error's details (for a timeout, the
/// duration as `Debug` writes it).
pub open spec fn error_text(e: HermesError) -> Seq<char> {
    match e {
        HermesError::InvalidInstruction(s) => "invalid Hermes instruction: "@ + s@,
        HermesError::UnsupportedInstruction(s) => "unsupported instruction kind: "@ + s@,
        HermesError::Timeout(d) => "Hermes execution timed out after "@ + duration_debug(d),
        HermesError::NonZero { status, stderr } => "Hermes exited with status "@ + status@ + ": "@ + stderr@,
        HermesError::Start(s) => "failed to start Hermes: "@ + s@,
        HermesError::Io(s) => "failed to capture Hermes output: "@ + s@,
        HermesError::Cancelled => "Hermes execution was cancelled"@,
    }
}

/// Whether `m` is the text of error `e`.
pub open spec fn describes(e: HermesError, m: Seq<char>) -> bool {
    m == error_text(e)
}

impl HermesError {
    /// The error's text, as the runner reports it.
    pub fn message(&self) -> (m: String)
        ensures
            describes(*self, m@),
    {
        match self {
            HermesError::InvalidInstruction(s) => {
                proof { reveal_strlit("invalid Hermes instruction: "); }
                joined("invalid Hermes instruction: ", s.as_str())
            },
            HermesError::UnsupportedInstruction(s) => {
                proof { reveal_strlit("unsupported instruction kind: "); }
                joined("unsupported instruction kind: ", s.as_str())
            },
            HermesError::Timeout(d) => {
                let t = duration_text(d);
                proof { reveal_strlit("Hermes execution timed out after "); }
                joined("Hermes execution timed out after ", t.as_str())
            },
            HermesError::NonZero { status, stderr } => {
                proof {
                    reveal_strlit("Hermes exited with status ");
                    reveal_strlit(": ");
                }
                let a = joined("Hermes exited with status ", status.as_str());
                let b = joined(a.as_str(), ": ");
                joined(b.as_str(), stderr.as_str())
            },
            HermesError::Start(s) => {
                proof { reveal_strlit("failed to start Hermes: "); }
                joined("failed to start Hermes: ", s.as_str())
            },
            HermesError::Io(s) => {
                proof { reveal_strlit("failed to capture Hermes output: "); }
                joined("failed to capture Hermes output: ", s.as_str())
            },
            HermesError::Cancelled => {
                proof { reveal_strlit("Hermes execution was cancelled"); }
                text("Hermes execution was cancelled")
            },
        }
    }
}

/// The keys a `hermes.run` instruction may hold.
pub open spec fn run_instruction_keys() -> Seq<Seq<char>> {
    seq!["kind"@, "prompt"@]
}

/// The kind and prompt of an instruction of the right shape: an object holding only `kind` and
/// `prompt`, both strings.
pub open spec fn run_instruction_fields(v: JsonView) -> Option<(Seq<char>, Seq<char>)> {
    match v {
        JsonView::Object(fs) => {
            if keys_within(fs, run_instruction_keys())
                && as_text(lookup(fs, "kind"@)) is Some
                && as_text(lookup(fs, "prompt"@)) is Some {
                Some((as_text(lookup(fs, "kind"@))->0, as_text(lookup(fs, "prompt"@))->0))
            } else {
                None
            }
        },
        _ => None,
    }
}

/// The message reported for an instruction that does not have the right shape: the first
/// unknown key, else the first of `kind` and `prompt` that is not a string.
pub open spec fn run_instruction_shape_error(v: JsonView) -> Seq<char> {
    match v {
        JsonView::Object(fs) => match first_unknown_key(fs, run_instruction_keys()) {
            Some(k) => unknown_field_message(k, run_instruction_keys()),
            None => if as_text(lookup(fs, "kind"@)) is None {
                string_field_error(fs, "kind"@)
            } else {
                string_field_error(fs, "prompt"@)
            },
        },
        _ => "invalid type: expected an object"@,
    }
}

/// A prompt's size in bytes of UTF-8.
pub open spec fn prompt_bytes(prompt: Seq<char>) -> nat {
    vstd::utf8::encode_utf8(prompt).len()
}

/// Whether `e` is the error with which an instruction is refused: an unsupported kind, or
/// an invalid instruction (the wrong shape, a blank prompt, or a prompt that is too large),
/// with the message that says which.
pub open spec fn instruction_refusal(v: JsonView, e: HermesError) -> bool {
    match e {
        HermesError::UnsupportedInstruction(k) => {
            &&& run_instruction_fields(v) matches Some((kind, _))
            &&& kind != CAPABILITY@
            &&& k@ == kind
        },
        HermesError::InvalidInstruction(m) => {
            ||| run_instruction_fields(v) is None && m@ == run_instruction_shape_error(v)
            ||| run_instruction_fields(v) matches Some((kind, prompt)) && kind == CAPABILITY@
                && is_blank(prompt) && m@ == "prompt must not be empty"@
            ||| run_instruction_fields(v) matches Some((kind, prompt)) && kind == CAPABILITY@
                && !is_blank(prompt) && prompt_bytes(prompt) > MAX_PROMPT_BYTES
                && m@ == "prompt exceeds 131072 bytes"@
        },
        _ => false,
    }
}

impl RunInstruction {
    /// Reads a `hermes.run` instruction from JSON: it must be an object with exactly the string
    /// fields `kind` and `prompt`, the kind must be `hermes.run`, and the prompt must be neither
    /// blank nor larger than [`MAX_PROMPT_BYTES`].
    pub fn try_from(value: JsonValue) -> (r: Result<RunInstruction, HermesError>)
        ensures
            match r {
                Ok(i) => {
                    &&& run_instruction_fields(value@) == Some((i.kind@, i.prompt@))
                    &&& i.kind@ == CAPABILITY@
                    &&& !is_blank(i.prompt@)
                    &&& prompt_bytes(i.prompt@) <= MAX_PROMPT_BYTES
                },
                Err(e) => instruction_refusal(value@, e),
            },
    {
        proof {
            reveal_strlit("kind");
            reveal_strlit("prompt");
        }
        let is_object = match &value {
            JsonValue::Object(_) => true,
            _ => false,
        };
        if !is_object {
            proof { reveal_strlit("invalid type: expected an object"); }
            return Err(HermesError::InvalidInstruction(text("invalid type: expected an object")));
        }
        let allowed: [&str; 2] = ["kind", "prompt"];
        proof {
            assert(allowed@.map_values(|a: &str| a@) =~= run_instruction_keys());
        }
        match check_known_keys(&value, allowed.as_slice()) {
            Err(m) => return Err(HermesError::InvalidInstruction(m)),
            Ok(()) => {},
        }
        proof { lemma_first_unknown_key_none(value@->Object_0, run_instruction_keys()); }
        let kind = match string_field(&value, "kind") {
            Ok(k) => k,
            Err(m) => return Err(HermesError::InvalidInstruction(m)),
        };
        let prompt = match string_field(&value, "prompt") {
            Ok(p) => p,
            Err(m) => return Err(HermesError::InvalidInstruction(m)),
        };
        if !crate::text::same_text(kind.as_str(), CAPABILITY) {
            return Err(HermesError::UnsupportedInstruction(kind));
        }
        if crate::text::blank(prompt.as_str()) {
            proof { reveal_strlit("prompt must not be empty"); }
            return Err(HermesError::InvalidInstruction(text("prompt must not be empty")));
        }
        if crate::text::utf8_size_exceeds(prompt.as_str(), MAX_PROMPT_BYTES) {
            proof { reveal_strlit("prompt exceeds 131072 bytes"); }
            return Err(HermesError::InvalidInstruction(text("prompt exceeds 131072 bytes")));
        }
        Ok(RunInstruction { kind, prompt })
    }
}

/// Whether an instruction is one the runner executes: of the right shape, of kind
/// `hermes.run`, with a prompt that is neither blank nor too large.
pub open spec fn run_instruction_accepted(v: JsonView) -> bool {
    run_instruction_fields(v) matches Some((kind, prompt)) && kind == CAPABILITY@ && !is_blank(prompt)
        && prompt_bytes(prompt) <= MAX_PROMPT_BYTES
}

/// Runs the configured Hermes binary within a time limit, keeping at most `output_limit` bytes
/// of each output stream.
pub struct HermesRunner {
    binary: PathBuf,
    timeout: Duration,
    output_limit: usize,
}

impl HermesRunner {
    pub closed spec fn binary_spec(&self) -> PathBuf {
        self.binary
    }

    pub closed spec fn timeout_spec(&self) -> Duration {
        self.timeout
    }

    pub closed spec fn output_limit_spec(&self) -> usize {
        self.output_limit
    }

    /// A runner of `binary` with the given time limit and per-stream output limit.
    pub fn new(binary: PathBuf, timeout: Duration, output_limit: usize) -> (r: Self)
        ensures
            r.binary_spec() == binary,
            r.timeout_spec() == timeout,
            r.output_limit_spec() == output_limit,
    {
        HermesRunner { binary, timeout, output_limit }
    }

    /// The capability the runner provides.
    pub fn capability(&self) -> (c: &'static str)
        ensures
            c@ == CAPABILITY@,
    {
        CAPABILITY
    }

    /// The binary the runner executes; no instruction can choose another.
    pub fn binary(&self) -> (b: &PathBuf)
        ensures
            *b == self.binary_spec(),
    {
        &self.binary
    }

    /// The time limit of a run.
    pub fn timeout(&self) -> (t: &Duration)
        ensures
            *t == self.timeout_spec(),
    {
        &self.timeout
    }

    /// The most bytes kept of each output stream.
    pub fn output_limit(&self) -> (n: usize)
        ensures
            n == self.output_limit_spec(),
    {
        self.output_limit
    }

    /// The arguments the binary is run with for an instruction: `run --prompt <prompt>`.
    /// An instruction that is refused yields the error that `RunInstruction::try_from` gives.
    pub fn invocation(&self, instruction: JsonValue) -> (r: Result<Vec<String>, HermesError>)
        ensures
            r is Ok <==> run_instruction_accepted(instruction@),
            match r {
                Ok(args) => {
                    &&& args@.len() == 3
                    &&& args@[0]@ == "run"@
                    &&& args@[1]@ == "--prompt"@
                    &&& run_instruction_fields(instruction@) matches Some((_, prompt)) && args@[2]@ == prompt
                },
                Err(e) => instruction_refusal(instruction@, e),
            },
    {
        let ghost v = instruction@;
        match RunInstruction::try_from(instruction) {
            Ok(i) => {
                proof {
                    reveal_strlit("run");
                    reveal_strlit("--prompt");
                }
                Ok(vec![text("run"), text("--prompt"), i.prompt])
            },
            Err(e) => Err(e),
        }
    }
}

/// What a successful run produced.
#[derive(Debug)]
pub struct RunResult {
    pub stdout: String,
    pub stderr: String,
    pub stdout_truncated: bool,
    pub stderr_truncated: bool,
    pub exit_code: i32,
}

impl RunResult {
    /// The JSON fields of a run result.
    pub open spec fn view_fields(&self) -> Seq<(Seq<char>, JsonView)> {
        seq![
            ("stdout"@, JsonView::Text(self.stdout@)),
            ("stderr"@, JsonView::Text(self.stderr@)),
            ("stdout_truncated"@, JsonView::Bool(self.stdout_truncated)),
            ("stderr_truncated"@, JsonView::Bool(self.stderr_truncated)),
            ("exit_code"@, JsonView::Number(crate::text::int_text(self.exit_code as int))),
        ]
    }

    /// The result as a JSON object.
    pub fn to_json(&self) -> (v: JsonValue)
        ensures
            v@ == JsonView::Object(self.view_fields()),
    {
        proof {
            reveal_strlit("stdout");
            reveal_strlit("stderr");
            reveal_strlit("stdout_truncated");
            reveal_strlit("stderr_truncated");
            reveal_strlit("exit_code");
        }
        let f0 = field("stdout", JsonValue::Text(self.stdout.clone()));
        let f1 = field("stderr", JsonValue::Text(self.stderr.clone()));
        let f2 = field("stdout_truncated", JsonValue::Bool(self.stdout_truncated));
        let f3 = field("stderr_truncated", JsonValue::Bool(self.stderr_truncated));
        let f4 = field("exit_code", JsonValue::integer(self.exit_code as i64));
        let mut fields: Vec<(String, JsonValue)> = Vec::new();
        proof {
            assert(fields_view(Seq::<(String, JsonValue)>::empty()) =~= Seq::<(Seq<char>, JsonView)>::empty());
            lemma_fields_view_push(fields@, f0);
        }
        fields.push(f0);
        proof { lemma_fields_view_push(fields@, f1); }
        fields.push(f1);
        proof { lemma_fields_view_push(fields@, f2); }
        fields.push(f2);
        proof { lemma_fields_view_push(fields@, f3); }
        fields.push(f3);
        proof { lemma_fields_view_push(fields@, f4); }
        fields.push(f4);
        proof {
            assert(fields_view(fields@) =~= self.view_fields());
        }
        JsonValue::Object(fields)
    }
}

/// Output collected from one stream, cut off at a byte limit.
#[derive(Debug)]
pub struct BoundedOutput {
    pub bytes: Vec<u8>,
    pub truncated: bool,
}

/// The bytes of a stream that still fit when `kept` bytes are kept under `limit`.
pub open spec fn room(kept: nat, limit: nat) -> nat {
    if limit >= kept { (limit - kept) as nat } else { 0 }
}

/// Collected output after one more chunk was read.
pub open spec fn absorb_spec(bytes: Seq<u8>, truncated: bool, chunk: Seq<u8>, limit: nat) -> (Seq<u8>, bool) {
    let r = room(bytes.len(), limit);
    (bytes + chunk.take(if chunk.len() < r { chunk.len() as int } else { r as int }), truncated || chunk.len() > r)
}

/// Collected output after reading all `chunks` in order, starting from nothing.
pub open spec fn absorb_all(chunks: Seq<Seq<u8>>, limit: nat) -> (Seq<u8>, bool)
    decreases chunks.len(),
{
    if chunks.len() == 0 {
        (Seq::empty(), false)
    } else {
        let (b, t) = absorb_all(chunks.drop_last(), limit);
        absorb_spec(b, t, chunks.last(), limit)
    }
}

/// All chunks one after another.
pub open spec fn concat_all(chunks: Seq<Seq<u8>>) -> Seq<u8>
    decreases chunks.len(),
{
    if chunks.len() == 0 {
        Seq::empty()
    } else {
        concat_all(chunks.drop_last()) + chunks.last()
    }
}

/// Output is bounded: whatever chunks a stream delivers, what is kept is the stream's first
/// `limit` bytes (all of it when shorter), and it is marked truncated exactly when the stream
/// was longer than `limit`.
pub proof fn law_bounded_output(chunks: Seq<Seq<u8>>, limit: nat)
    ensures
        absorb_all(chunks, limit).0 == concat_all(chunks).take(
            if concat_all(chunks).len() < limit { concat_all(chunks).len() as int } else { limit as int }),
        absorb_all(chunks, limit).1 == (concat_all(chunks).len() > limit),
    decreases chunks.len(),
{
    if chunks.len() > 0 {
        let p = chunks.drop_last();
        let c = chunks.last();
        law_bounded_output(p, limit);
        let all = concat_all(chunks);
        let before = concat_all(p);
        assert(all == before + c);
        let kept = absorb_all(p, limit).0;
        let r = room(kept.len(), limit);
        let n = if c.len() < r { c.len() as int } else { r as int };
        let m = if all.len() < limit { all.len() as int } else { limit as int };
        assert(absorb_all(chunks, limit).0 =~= all.take(m)) by {
            assert forall|i: int| 0 <= i < m implies #[trigger] all.take(m)[i] == (kept + c.take(n))[i] by {
                if i < kept.len() {
                    assert(all[i] == before[i]);
                } else {
                    assert(all[i] == c[i - before.len()]);
                }
            }
        }
    }
}

impl BoundedOutput {
    /// Nothing collected yet.
    pub fn new() -> (o: Self)
        ensures
            o.bytes@ == Seq::<u8>::empty(),
            !o.truncated,
    {
        BoundedOutput { bytes: Vec::new(), truncated: false }
    }

    /// Takes in one chunk read from the stream: keeps what still fits under `limit` and notes
    /// when something had to be dropped.
    pub fn absorb(&mut self, chunk: &[u8], limit: usize)
        ensures
            (final(self).bytes@, final(self).truncated) == absorb_spec(old(self).bytes@, old(self).truncated, chunk@, limit as nat),
    {
        let kept = self.bytes.len();
        let remaining: usize = if limit >= kept { limit - kept } else { 0 };
        let take: usize = if chunk.len() < remaining { chunk.len() } else { remaining };
        let mut i: usize = 0;
        while i < take
            invariant
                take <= chunk@.len(),
                i <= take,
                self.bytes@ == old(self).bytes@ + chunk@.take(i as int),
                self.truncated == old(self).truncated,
            decreases take - i,
        {
            self.bytes.push(chunk[i]);
            i = i + 1;
            assert(self.bytes@ =~= old(self).bytes@ + chunk@.take(i as int));
        }
        self.truncated = self.truncated || chunk.len() > remaining;
    }
}

/// How the process ended: whether it succeeded, its exit code if it had one, and the status
/// as text (such as `exit status: 7`).
#[derive(Debug)]
pub struct ExitReport {
    pub success: bool,
    pub code: Option<i32>,
    pub description: String,
}

/// The bearer-token format that is redacted from output.
pub const BEARER_PATTERN: &'static str = r"(?i)\b(bearer)\s+[A-Za-z0-9._~+/=-]+\b";

/// The `secret`/`token`/`password`/`api key` assignment format that is redacted from output.
pub const SECRET_PATTERN: &'static str = r#"(?i)\b(secret|token|password|api[_-]?key)\s*[:=]\s*["']?[^\s,"']+["']?"#;

/// What `Regex::replace_all` makes of `haystack` for `pattern` and `replacement`; `None` when
/// `Regex::new` refuses the pattern.
pub uninterp spec fn regex_replacement(pattern: Seq<char>, haystack: Seq<char>, replacement: Seq<char>) -> Option<Seq<char>>;

/// Replaces every match of `pattern` in `haystack`; calls `regex::Regex::new` and
/// `Regex::replace_all`. Claims that the outcome is a function of the three texts.
#[verifier::external_body]
fn regex_replace_all(pattern: &str, haystack: &str, replacement: &str) -> (out: Option<String>)
    ensures
        match out {
            Some(t) => regex_replacement(pattern@, haystack@, replacement@) == Some(t@),
            None => regex_replacement(pattern@, haystack@, replacement@) is None,
        },
{
    match regex::Regex::new(pattern) {
        Ok(re) => Some(re.replace_all(haystack, replacement).into_owned()),
        Err(_) => None,
    }
}

/// `haystack` with every match of `pattern` replaced, or as it is when the pattern does not
/// compile.
pub open spec fn replaced(pattern: Seq<char>, haystack: Seq<char>, replacement: Seq<char>) -> Seq<char> {
    match regex_replacement(pattern, haystack, replacement) {
        Some(t) => t,
        None => haystack,
    }
}

fn replace_all(pattern: &str, haystack: String, replacement: &str) -> (out: String)
    ensures
        out@ == replaced(pattern@, haystack@, replacement@),
{
    match regex_replace_all(pattern, haystack.as_str(), replacement) {
        Some(t) => t,
        None => haystack,
    }
}

/// Text with bearer tokens and secret assignments replaced: first bearer tokens, then
/// assignments of secrets, tokens, passwords and API keys.
pub open spec fn redacted(input: Seq<char>) -> Seq<char> {
    replaced(SECRET_PATTERN@, replaced(BEARER_PATTERN@, input, "$1 [REDACTED]"@), "$1=[REDACTED]"@)
}

/// Redacts common secret formats from process output.
pub fn redact(input: String) -> (out: String)
    ensures
        out@ == redacted(input@),
{
    let once = replace_all(BEARER_PATTERN, input, "$1 [REDACTED]");
    replace_all(SECRET_PATTERN, once, "$1=[REDACTED]")
}

/// The text reported of a stream's collected bytes: decoded, then redacted.
pub open spec fn reported_text(bytes: Seq<u8>) -> Seq<char> {
    redacted(crate::text::utf8_lossy_decoding(bytes))
}

/// Turns a finished process into the run's outcome: a result when it succeeded, otherwise the
/// non-zero error carrying the redacted error output.
pub fn finish_run(exit: ExitReport, stdout: BoundedOutput, stderr: BoundedOutput) -> (r: Result<RunResult, HermesError>)
    ensures
        match r {
            Ok(res) => {
                &&& exit.success
                &&& res.stdout@ == reported_text(stdout.bytes@)
                &&& res.stderr@ == reported_text(stderr.bytes@)
                &&& res.stdout_truncated == stdout.truncated
                &&& res.stderr_truncated == stderr.truncated
                &&& res.exit_code == match exit.code { Some(c) => c, None => -1i32 }
            },
            Err(HermesError::NonZero { status, stderr: text }) => {
                &&& !exit.success
                &&& status@ == exit.description@
                &&& text@ == reported_text(stderr.bytes@)
            },
            Err(_) => false,
        },
{
    let stdout_text = redact(crate::text::utf8_lossy(stdout.bytes.as_slice()));
    let stderr_text = redact(crate::text::utf8_lossy(stderr.bytes.as_slice()));
    if !exit.success {
        return Err(HermesError::NonZero { status: exit.description, stderr: stderr_text });
    }
    let code = match exit.code {
        Some(c) => c,
        None => -1,
    };
    Ok(RunResult {
        stdout: stdout_text,
        stderr: stderr_text,
        stdout_truncated: stdout.truncated,
        stderr_truncated: stderr.truncated,
        exit_code: code,
    })
}

} // verus!
