use vstd::prelude::*;
use crate::hermes::{HermesError, RunResult};
use crate::json::{field, fields_view, json_text, lemma_fields_view_push, JsonValue, JsonView};
use crate::protocol::{
    command_id_field, envelope_view, uuid_hyphenated, Command, CommandRef, Envelope, ErrorBody, ErrorEvent, JsonBody,
    Progress, ResultEvent, VERSION,
};
use crate::state::{
    batch_ids, batch_len, failure_recorded, knows_command, next_history_id, next_queued_id, payload_digest_text, queued_index,
    same_state, Identity, QueuedEvent, State, StateError, StoreWrite,
};
use crate::clock::{clock_text, now};
use crate::protocol::{uuid_parsed, Registration, RegistrationResponse};
use crate::client::{check_registration, ClientError};
use crate::repo_sync::{sync_error_text, SyncError};
use crate::text::text;

verus! {

/// The capabilities this runtime advertises: running Hermes and synchronising repositories.
pub open spec fn advertised(c: Seq<String>) -> bool {
    &&& c.len() == 2
    &&& c[0]@ == crate::hermes::CAPABILITY@
    &&& c[1]@ == crate::repo_sync::CAPABILITY@
}

/// The capabilities this runtime advertises.
pub fn capabilities() -> (c: Vec<String>)
    ensures
        advertised(c@),
{
    vec![text(crate::hermes::CAPABILITY), text(crate::repo_sync::CAPABILITY)]
}

/// The protocol error code reported for a failed run.
pub open spec fn error_code_spec(e: HermesError) -> Seq<char> {
    match e {
        HermesError::InvalidInstruction(_) => "invalid_instruction"@,
        HermesError::UnsupportedInstruction(_) => "unsupported_instruction"@,
        HermesError::Timeout(_) => "execution_timeout"@,
        HermesError::NonZero { .. } => "execution_failed"@,
        HermesError::Start(_) => "executor_unavailable"@,
        HermesError::Io(_) => "execution_io_error"@,
        HermesError::Cancelled => "execution_cancelled"@,
    }
}

/// The protocol error code reported for a failed run.
pub fn error_code(error: &HermesError) -> (code: String)
    ensures
        code@ == error_code_spec(*error),
{
    match error {
        HermesError::InvalidInstruction(_) => {
            proof { reveal_strlit("invalid_instruction"); }
            text("invalid_instruction")
        },
        HermesError::UnsupportedInstruction(_) => {
            proof { reveal_strlit("unsupported_instruction"); }
            text("unsupported_instruction")
        },
        HermesError::Timeout(_) => {
            proof { reveal_strlit("execution_timeout"); }
            text("execution_timeout")
        },
        HermesError::NonZero { .. } => {
            proof { reveal_strlit("execution_failed"); }
            text("execution_failed")
        },
        HermesError::Start(_) => {
            proof { reveal_strlit("executor_unavailable"); }
            text("executor_unavailable")
        },
        HermesError::Io(_) => {
            proof { reveal_strlit("execution_io_error"); }
            text("execution_io_error")
        },
        HermesError::Cancelled => {
            proof { reveal_strlit("execution_cancelled"); }
            text("execution_cancelled")
        },
    }
}

/// The progress reported when a command starts: `{"percent": 0, "status": "running"}`.
pub open spec fn running_progress_view() -> JsonView {
    JsonView::Object(seq![("percent"@, JsonView::Number("0"@)), ("status"@, JsonView::Text("running"@))])
}

/// The progress reported when a command starts.
pub fn running_progress() -> (v: JsonValue)
    ensures
        v@ == running_progress_view(),
{
    proof {
        reveal_strlit("percent");
        reveal_strlit("status");
        reveal_strlit("running");
        reveal_strlit("0");
    }
    let a = field("percent", JsonValue::integer(0));
    let b = field("status", JsonValue::string("running"));
    let mut fields: Vec<(String, JsonValue)> = Vec::new();
    proof {
        assert(fields_view(Seq::<(String, JsonValue)>::empty()) =~= Seq::<(Seq<char>, JsonView)>::empty());
        lemma_fields_view_push(fields@, a);
    }
    fields.push(a);
    proof {
        lemma_fields_view_push(fields@, b);
    }
    fields.push(b);
    proof {
        assert(crate::text::nat_text(0) =~= "0"@);
        assert(fields_view(fields@) =~= seq![("percent"@, JsonView::Number("0"@)), ("status"@, JsonView::Text("running"@))]);
    }
    JsonValue::Object(fields)
}

/// Whether a queued event is an envelope of this protocol version about command `id`, sent at
/// a time the clock gave (see [`clock_text`]), with `body` as the fields beside its header.
pub open spec fn lifecycle_event(e: QueuedEvent, kind: Seq<char>, id: u128, body: Seq<(Seq<char>, JsonView)>) -> bool {
    &&& e.kind@ == kind
    &&& exists|message_id: u128, sent_at: Seq<char>|
        clock_text(sent_at) && e.payload@ == envelope_view(VERSION@, message_id, sent_at, body)
}

/// The body of an acknowledgement of `id`.
pub open spec fn ack_body(id: u128) -> Seq<(Seq<char>, JsonView)> {
    seq![command_id_field(id)]
}

/// The body of the progress event that starts the run of `id`.
pub open spec fn progress_body(id: u128) -> Seq<(Seq<char>, JsonView)> {
    seq![command_id_field(id), ("progress"@, running_progress_view())]
}

/// Where a command's instruction is run.
#[derive(Debug, PartialEq, Eq, Structural, Clone, Copy)]
pub enum Capability {
    /// The Hermes runner, which refuses every kind but its own.
    Hermes,
    /// Repository synchronisation.
    RepoSync,
}

/// The `kind` of an instruction, when it is an object with a string `kind`.
pub open spec fn instruction_kind(v: JsonView) -> Option<Seq<char>> {
    match v {
        JsonView::Object(fs) => crate::json::as_text(crate::json::lookup(fs, "kind"@)),
        _ => None,
    }
}

/// Routes an instruction: one of kind `repo.sync` is a repository synchronisation; every
/// other goes to the Hermes runner.
pub fn capability_of(instruction: &JsonValue) -> (c: Capability)
    ensures
        (c == Capability::RepoSync) <==> instruction_kind(instruction@) == Some(crate::repo_sync::CAPABILITY@),
{
    proof {
        reveal_strlit("kind");
    }
    match instruction.get("kind") {
        Some(JsonValue::Text(kind)) => {
            if crate::text::same_text(kind.as_str(), crate::repo_sync::CAPABILITY) {
                Capability::RepoSync
            } else {
                Capability::Hermes
            }
        },
        _ => Capability::Hermes,
    }
}

/// How the run of a command ended: a Hermes run, or a repository synchronisation.
#[derive(Debug)]
pub enum Outcome {
    Run(Result<RunResult, HermesError>),
    Sync(Result<String, SyncError>),
}

/// The protocol error code reported for a failed synchronisation.
pub open spec fn sync_error_code_spec(e: SyncError) -> Seq<char> {
    match e {
        SyncError::Invalid(_) => "invalid_instruction"@,
        SyncError::Command(_) => "execution_failed"@,
        SyncError::Start(_) => "executor_unavailable"@,
        SyncError::Io(_) => "execution_io_error"@,
    }
}

/// The protocol error code reported for a failed synchronisation.
pub fn sync_error_code(error: &SyncError) -> (code: String)
    ensures
        code@ == sync_error_code_spec(*error),
{
    match error {
        SyncError::Invalid(_) => text("invalid_instruction"),
        SyncError::Command(_) => text("execution_failed"),
        SyncError::Start(_) => text("executor_unavailable"),
        SyncError::Io(_) => text("execution_io_error"),
    }
}

/// The result object of a successful synchronisation: its output.
pub open spec fn sync_result_view(output: Seq<char>) -> JsonView {
    JsonView::Object(seq![("output"@, JsonView::Text(output))])
}

/// What the terminal event of an outcome carries: the result object, or the error's code and
/// text.
pub open spec fn terminal_view(o: Outcome) -> Result<JsonView, (Seq<char>, Seq<char>)> {
    match o {
        Outcome::Run(Ok(res)) => Ok(JsonView::Object(res.view_fields())),
        Outcome::Run(Err(e)) => Err((error_code_spec(e), crate::hermes::error_text(e))),
        Outcome::Sync(Ok(out)) => Ok(sync_result_view(out@)),
        Outcome::Sync(Err(e)) => Err((sync_error_code_spec(e), sync_error_text(e))),
    }
}

/// The kind of the terminal event for an outcome.
pub open spec fn terminal_kind(o: Outcome) -> Seq<char> {
    match terminal_view(o) {
        Ok(_) => "result"@,
        Err(_) => "error"@,
    }
}

/// The error object of a failed run: its code and its message.
pub open spec fn error_object(code: Seq<char>, message: Seq<char>) -> JsonView {
    JsonView::Object(seq![("code"@, JsonView::Text(code)), ("message"@, JsonView::Text(message))])
}

/// Whether a queued event is the terminal event of `id` for outcome `o`: a `result` carrying
/// the result object, or an `error` carrying the error's code and text.
pub open spec fn terminal_event(e: QueuedEvent, id: u128, o: Outcome) -> bool {
    match terminal_view(o) {
        Ok(v) => lifecycle_event(e, "result"@, id, seq![command_id_field(id), ("result"@, v)]),
        Err((code, message)) => lifecycle_event(e, "error"@, id,
            seq![command_id_field(id), ("error"@, error_object(code, message))]),
    }
}

/// The JSON of a terminal event's payload, before its envelope: a result object, or an error
/// body of a code and a message.
fn terminal_payload(outcome: Outcome) -> (r: Result<JsonValue, ErrorBody>)
    ensures
        match (r, terminal_view(outcome)) {
            (Ok(v), Ok(w)) => v@ == w,
            (Err(b), Err((code, message))) => b.view_fields() == seq![("code"@, JsonView::Text(code)), ("message"@, JsonView::Text(message))],
            _ => false,
        },
{
    proof {
        reveal_strlit("output");
        reveal_strlit("message");
    }
    match outcome {
        Outcome::Run(Ok(result)) => Ok(result.to_json()),
        Outcome::Sync(Ok(output)) => {
            let f = field("output", JsonValue::Text(output));
            let mut fields: Vec<(String, JsonValue)> = Vec::new();
            proof {
                assert(fields_view(Seq::<(String, JsonValue)>::empty()) =~= Seq::<(Seq<char>, JsonView)>::empty());
                lemma_fields_view_push(fields@, f);
            }
            fields.push(f);
            proof {
                assert(fields_view(fields@) =~= seq![("output"@, JsonView::Text(f.1@->Text_0))]);
            }
            Ok(JsonValue::Object(fields))
        },
        Outcome::Run(Err(error)) => Err(error_body(error_code(&error), error.message())),
        Outcome::Sync(Err(error)) => Err(error_body(sync_error_code(&error), error.message())),
    }
}

/// An error body of a code and a message.
fn error_body(code: String, message: String) -> (b: ErrorBody)
    ensures
        b.view_fields() == seq![("code"@, JsonView::Text(code@)), ("message"@, JsonView::Text(message@))],
{
    proof {
        reveal_strlit("message");
    }
    let mut details: Vec<(String, JsonValue)> = Vec::new();
    let d = field("message", JsonValue::Text(message));
    proof {
        assert(fields_view(Seq::<(String, JsonValue)>::empty()) =~= Seq::<(Seq<char>, JsonView)>::empty());
        lemma_fields_view_push(details@, d);
    }
    details.push(d);
    let b = ErrorBody { code, details };
    proof {
        assert(b.view_fields() =~= seq![("code"@, JsonView::Text(b.code@)), ("message"@, JsonView::Text(d.1@->Text_0))]);
    }
    b
}

/// What accepting command `id` with `instruction` does. A new command is recorded with the
/// digest of the instruction's compact JSON text, and its acknowledgement and its `running`
/// progress are queued, in that order, behind what was queued; the journal of changes to write
/// gains the command, then both events, in that order. A known one changes nothing and
/// is reported as not new. A new command is refused, changing nothing, when the queue has no
/// ids left for both events, or (an outside failure) when no time or message id can be taken.
pub open spec fn command_accepted(before: State, after: State, id: u128, instruction: JsonView, r: Result<bool, StateError>) -> bool {
    &&& after.inv()
    &&& (r is Ok ==> knows_command(after.commands(), id))
    &&& match r {
        Ok(true) => {
            let q = after.queued();
            let n = before.queued().len();
            &&& !knows_command(before.commands(), id)
            &&& after.commands().len() == before.commands().len() + 1
            &&& after.commands().drop_last() == before.commands()
            &&& after.commands().last().command_id == id
            &&& after.commands().last().payload_digest@ == payload_digest_text(json_text(instruction))
            &&& q.len() == n + 2
            &&& q.take(n as int) == before.queued()
            &&& lifecycle_event(q[n as int], "ack"@, id, ack_body(id))
            &&& lifecycle_event(q[n as int + 1], "progress"@, id, progress_body(id))
            &&& after.writes() == before.writes().push(StoreWrite::Command(id))
                .push(StoreWrite::Queued(q[n as int].id)).push(StoreWrite::Queued(q[n as int + 1].id))
            &&& after.history() == before.history()
            &&& after.identity_row() == before.identity_row()
            &&& after.meta() == before.meta()
        },
        Ok(false) => knows_command(before.commands(), id) && same_state(after, before),
        Err(StateError::IdSpaceExhausted) => {
            &&& !knows_command(before.commands(), id)
            &&& next_queued_id(before.queued()) + 1 > i64::MAX
            &&& same_state(after, before)
        },
        Err(StateError::Stamp(_)) => {
            &&& !knows_command(before.commands(), id)
            &&& next_queued_id(before.queued()) + 1 <= i64::MAX
            &&& same_state(after, before)
        },
        Err(_) => false,
    }
}

/// Records a received command and, when it is new, queues its acknowledgement and its
/// `running` progress, in that order. A command whose id is already known queues nothing.
pub fn accept_command(state: &mut State, command: &Envelope<Command>) -> (r: Result<bool, StateError>)
    requires
        old(state).inv(),
    ensures
        command_accepted(*old(state), *final(state), command.body.command_id, command.body.instruction@, r),
{
    let id = command.body.command_id;
    if state.knows(id) {
        return Ok(false);
    }
    if !state.has_queue_room(2) {
        return Err(StateError::IdSpaceExhausted);
    }
    let ack = match Envelope::new(CommandRef { command_id: id }) {
        Ok(e) => e,
        Err(e) => return Err(StateError::Stamp(e)),
    };
    let progress = match Envelope::new(Progress { command_id: id, progress: running_progress() }) {
        Ok(e) => e,
        Err(e) => return Err(StateError::Stamp(e)),
    };
    let moment = match now() {
        Ok(m) => m,
        Err(e) => return Err(StateError::Stamp(e)),
    };
    let ack_json = ack.to_json();
    let progress_json = progress.to_json();
    let ghost n = state.queued().len();
    let ghost before = state.queued();
    let fresh = state.record_command_at(id, &command.body.instruction, moment.micros);
    proof {
        reveal_strlit("ack");
        reveal_strlit("progress");
    }
    match state.queue_event_at("ack", ack_json, moment.micros) {
        Err(e) => return Err(e),
        Ok(()) => {},
    }
    match state.queue_event_at("progress", progress_json, moment.micros) {
        Err(e) => return Err(e),
        Ok(()) => {},
    }
    proof {
        let q = state.queued();
        assert(q.take(n as int) =~= before);
        assert(q[n as int] == q.drop_last().last());
        assert(ack.body.body_view() == ack_body(id));
        assert(progress.body.body_view() == progress_body(id));
        assert(lifecycle_event(q[n as int], "ack"@, id, ack_body(id)));
        assert(lifecycle_event(q[n as int + 1], "progress"@, id, progress_body(id)));
        assert(state.commands().last().command_id == id);
        assert(knows_command(state.commands(), id));
    }
    Ok(true)
}

/// What concluding command `command_id` with `outcome` does: its terminal event is queued
/// behind all others, and the journal gains it. It is refused, changing nothing, when no queue id is left, or (an
/// outside failure) when no time or message id can be taken.
pub open spec fn command_concluded(before: State, after: State, command_id: u128, outcome: Outcome, r: Result<(), StateError>) -> bool {
    &&& after.inv()
    &&& match r {
        Ok(()) => {
            let q = after.queued();
            &&& q.len() == before.queued().len() + 1
            &&& q.drop_last() == before.queued()
            &&& terminal_event(q.last(), command_id, outcome)
            &&& after.writes() == before.writes().push(StoreWrite::Queued(q.last().id))
            &&& after.commands() == before.commands()
            &&& after.history() == before.history()
            &&& after.identity_row() == before.identity_row()
            &&& after.meta() == before.meta()
        },
        Err(StateError::IdSpaceExhausted) => next_queued_id(before.queued()) > i64::MAX && same_state(after, before),
        Err(StateError::Stamp(_)) => next_queued_id(before.queued()) <= i64::MAX && same_state(after, before),
        Err(_) => false,
    }
}

/// Queues the terminal event of command `command_id`: the result object, or the error's code
/// and message.
pub fn conclude_command(state: &mut State, command_id: u128, outcome: Outcome) -> (r: Result<(), StateError>)
    requires
        old(state).inv(),
    ensures
        command_concluded(*old(state), *final(state), command_id, outcome, r),
{
    proof {
        reveal_strlit("result");
        reveal_strlit("error");
        reveal_strlit("code");
        reveal_strlit("message");
    }
    if !state.has_queue_room(1) {
        return Err(StateError::IdSpaceExhausted);
    }
    let ghost view = terminal_view(outcome);
    match terminal_payload(outcome) {
        Ok(result) => {
            let event = match Envelope::new(ResultEvent { command_id, result }) {
                Ok(e) => e,
                Err(e) => return Err(StateError::Stamp(e)),
            };
            let moment = match now() {
                Ok(m) => m,
                Err(e) => return Err(StateError::Stamp(e)),
            };
            let payload = event.to_json();
            let r = state.queue_event_at("result", payload, moment.micros);
            proof {
                if r is Ok {
                    assert(lifecycle_event(state.queued().last(), "result"@, command_id,
                        seq![command_id_field(command_id), ("result"@, event.body.result@)]));
                }
            }
            r
        },
        Err(body) => {
            let event = match Envelope::new(ErrorEvent { command_id, error: body }) {
                Ok(e) => e,
                Err(e) => return Err(StateError::Stamp(e)),
            };
            let moment = match now() {
                Ok(m) => m,
                Err(e) => return Err(StateError::Stamp(e)),
            };
            let payload = event.to_json();
            let r = state.queue_event_at("error", payload, moment.micros);
            proof {
                if r is Ok {
                    let (code, message) = view->Err_0;
                    assert(JsonView::Object(event.body.error.view_fields()) == error_object(code, message));
                    assert(lifecycle_event(state.queued().last(), "error"@, command_id,
                        seq![command_id_field(command_id), ("error"@, error_object(code, message))]));
                }
            }
            r
        },
    }
}

/// The kinds of a run of queued events.
pub open spec fn kinds(q: Seq<QueuedEvent>) -> Seq<Seq<char>> {
    q.map_values(|e: QueuedEvent| e.kind@)
}

/// Every accepted command gets, in order, an acknowledgement, a `running` progress and exactly
/// one terminal event (`result` or `error`), behind whatever was queued before, which stays
/// as it was.
pub proof fn law_command_lifecycle(
    before: State,
    accepted: State,
    concluded: State,
    id: u128,
    instruction: JsonView,
    outcome: Outcome,
)
    requires
        command_accepted(before, accepted, id, instruction, Ok(true)),
        command_concluded(accepted, concluded, id, outcome, Ok(())),
    ensures
        kinds(concluded.queued()) == kinds(before.queued()) + seq!["ack"@, "progress"@, terminal_kind(outcome)],
        concluded.queued().take(before.queued().len() as int) == before.queued(),
        lifecycle_event(concluded.queued()[before.queued().len() as int], "ack"@, id, ack_body(id)),
        lifecycle_event(concluded.queued()[before.queued().len() as int + 1], "progress"@, id, progress_body(id)),
        terminal_event(concluded.queued().last(), id, outcome),
{
    let b = before.queued();
    let a = accepted.queued();
    let c = concluded.queued();
    let n = b.len() as int;
    assert(c.take(n) =~= b) by {
        assert forall|i: int| 0 <= i < n implies c[i] == b[i] by {
            assert(c[i] == c.drop_last()[i]);
            assert(a.take(n)[i] == a[i]);
        }
    }
    assert(c[n] == a[n]) by {
        assert(c[n] == c.drop_last()[n]);
    }
    assert(c[n + 1] == a[n + 1]) by {
        assert(c[n + 1] == c.drop_last()[n + 1]);
    }
    assert(kinds(c) =~= kinds(b) + seq!["ack"@, "progress"@, terminal_kind(outcome)]) by {
        assert forall|i: int| 0 <= i < c.len() implies #[trigger] kinds(c)[i]
            == (kinds(b) + seq!["ack"@, "progress"@, terminal_kind(outcome)])[i] by {
            if i < n {
                assert(c[i] == b[i]) by {
                    assert(c.take(n)[i] == c[i]);
                }
            }
        }
    }
}

/// A replayed command is ignored: once a command has been accepted (new or not), accepting it
/// again reports it as not new and changes nothing.
pub proof fn law_replay_is_ignored(
    first_before: State,
    first_after: State,
    second_after: State,
    id: u128,
    first_instruction: JsonView,
    second_instruction: JsonView,
    first: Result<bool, StateError>,
    second: Result<bool, StateError>,
)
    requires
        command_accepted(first_before, first_after, id, first_instruction, first),
        first is Ok,
        command_accepted(first_after, second_after, id, second_instruction, second),
    ensures
        second == Ok::<bool, StateError>(false),
        same_state(second_after, first_after),
{
}

/// Commands are stored before their lifecycle events: when a new command is accepted, what is
/// written to durable storage is its record first, then its acknowledgement, then its progress.
pub proof fn law_command_stored_before_events(before: State, after: State, id: u128, instruction: JsonView)
    requires
        command_accepted(before, after, id, instruction, Ok(true)),
    ensures
        after.writes().len() == before.writes().len() + 3,
        after.writes().take(before.writes().len() as int) == before.writes(),
        after.writes()[before.writes().len() as int] == StoreWrite::Command(id),
        after.writes()[before.writes().len() as int + 1]
            == StoreWrite::Queued(after.queued()[before.queued().len() as int].id),
        after.writes()[before.writes().len() as int + 2]
            == StoreWrite::Queued(after.queued()[before.queued().len() as int + 1].id),
        after.queued()[before.queued().len() as int].kind@ == "ack"@,
        after.queued()[before.queued().len() as int + 1].kind@ == "progress"@,
{
    assert(after.writes().take(before.writes().len() as int) =~= before.writes());
}

/// Undelivered events are retried in order: a failed delivery attempt keeps every queued
/// event in its place, so the next batch handed out holds the same events, oldest first.
pub proof fn law_retry_in_order(before: State, after: State, event_id: i64, message: String, r: Result<bool, StateError>)
    requires
        delivery_settled(before, after, event_id, Delivery::Failed(message), r),
    ensures
        r == Ok::<bool, StateError>(false),
        batch_ids(after.queued()) == batch_ids(before.queued()),
        forall|i: int, j: int| 0 <= i < j < batch_ids(after.queued()).len()
            ==> batch_ids(after.queued())[i] < batch_ids(after.queued())[j],
{
    after.lemma_inv();
    let n = batch_len(before.queued());
    assert forall|j: int| 0 <= j < before.queued().len() implies #[trigger] after.queued()[j].id == before.queued()[j].id by {
        if let Some(i) = queued_index(before.queued(), event_id) {
            if j != i {
                assert(after.queued()[j] == before.queued()[j]);
            }
        }
    }
    assert(after.queued().len() == before.queued().len());
    assert(batch_ids(after.queued()) =~= batch_ids(before.queued())) by {
        assert forall|j: int| 0 <= j < n implies #[trigger] batch_ids(after.queued())[j] == batch_ids(before.queued())[j] by {
            assert(after.queued()[j].id == before.queued()[j].id);
        }
    }
    assert forall|i: int, j: int| 0 <= i < j < batch_ids(after.queued()).len()
        implies batch_ids(after.queued())[i] < batch_ids(after.queued())[j] by {
        assert(after.queued()[i].id < after.queued()[j].id);
    }
}

/// How one delivery attempt of a queued event ended.
#[derive(Debug)]
pub enum Delivery {
    /// The control plane recorded the event.
    Recorded,
    /// The control plane had already seen the event (`409`); it counts as delivered.
    AlreadySeen,
    /// The attempt failed with this error.
    Failed(String),
}

/// What settling one delivery attempt of the queued event `event_id` does, and whether the
/// delivery run goes on. A recorded or already-seen event leaves the queue for the delivered
/// history, the journal gains the move (an event not queued changes nothing), and the run goes
/// on; this fails, changing
/// nothing, only when no history id is left or (an outside failure) no time can be taken. A
/// failed attempt counts the attempt, keeps every event in its place, remembers the error as
/// the runtime's last error, and stops the run.
pub open spec fn delivery_settled(before: State, after: State, event_id: i64, delivery: Delivery, r: Result<bool, StateError>) -> bool {
    &&& after.inv()
    &&& match delivery {
        Delivery::Failed(m) => r == Ok::<bool, StateError>(false) && failure_recorded(before, after, event_id, m@),
        _ => match queued_index(before.queued(), event_id) {
            None => r == Ok::<bool, StateError>(true) && same_state(after, before),
            Some(i) => match r {
                Ok(go_on) => {
                    &&& go_on
                    &&& after.queued() == before.queued().remove(i)
                    &&& after.history().len() == before.history().len() + 1
                    &&& after.history().drop_last() == before.history()
                    &&& after.history().last().kind == before.queued()[i].kind
                    &&& after.history().last().payload == before.queued()[i].payload
                    &&& after.history().last().created_at == before.queued()[i].created_at
                    &&& after.writes() == before.writes().push(
                        StoreWrite::Delivered { queued_id: event_id, history_id: after.history().last().id })
                    &&& after.commands() == before.commands()
                    &&& after.identity_row() == before.identity_row()
                    &&& after.meta() == before.meta()
                },
                Err(StateError::IdSpaceExhausted) => next_history_id(before.history()) > i64::MAX && same_state(after, before),
                Err(StateError::Stamp(_)) => next_history_id(before.history()) <= i64::MAX && same_state(after, before),
                Err(_) => false,
            },
        },
    }
}

/// Settles one delivery attempt of the queued event `event_id` and says whether delivery goes
/// on with the next event: a recorded or already-seen event leaves the queue for the
/// delivered history; a failed attempt keeps it queued, counts the attempt, remembers the
/// error as the runtime's last error, and ends the run.
pub fn settle_delivery(state: &mut State, event_id: i64, delivery: Delivery) -> (r: Result<bool, StateError>)
    requires
        old(state).inv(),
    ensures
        delivery_settled(*old(state), *final(state), event_id, delivery, r),
{
    match delivery {
        Delivery::Failed(m) => {
            state.failed_delivery(event_id, m.as_str());
            Ok(false)
        },
        _ => {
            let r = state.delivered(event_id);
            proof {
                if r is Ok {
                    if let Some(i) = queued_index(old(state).queued(), event_id) {
                        assert(state.history().drop_last() =~= old(state).history());
                    }
                }
            }
            match r {
                Ok(()) => Ok(true),
                Err(e) => Err(e),
            }
        },
    }
}

/// How the daemon starts: with the stored identity, or by enrolling with a token.
#[derive(Debug)]
pub enum Startup {
    Resume { runtime_id: u128, runtime_secret: String },
    Enroll { enrollment_token: String, registration: Registration },
}

/// Why the daemon cannot start.
#[derive(Debug, PartialEq, Eq, Structural)]
pub enum StartupError {
    /// The stored runtime id is no UUID.
    InvalidStoredIdentity,
    /// There is no stored identity and no enrollment token.
    NotEnrolled,
}

impl StartupError {
    /// The error's text.
    pub fn message(&self) -> (m: String)
        ensures
            *self == StartupError::InvalidStoredIdentity ==> m@ == "invalid locally stored runtime identity"@,
            *self == StartupError::NotEnrolled ==> m@ == "runtime is not enrolled; AGENT_LOOM_ENROLLMENT_TOKEN is required"@,
    {
        match self {
            StartupError::InvalidStoredIdentity => {
                proof { reveal_strlit("invalid locally stored runtime identity"); }
                text("invalid locally stored runtime identity")
            },
            StartupError::NotEnrolled => {
                proof { reveal_strlit("runtime is not enrolled; AGENT_LOOM_ENROLLMENT_TOKEN is required"); }
                text("runtime is not enrolled; AGENT_LOOM_ENROLLMENT_TOKEN is required")
            },
        }
    }
}

/// The registration this runtime sends: its name and its capabilities.
pub fn registration(runtime_name: &str) -> (r: Registration)
    ensures
        r.runtime_name@ == runtime_name@,
        advertised(r.capabilities@),
{
    Registration { runtime_name: text(runtime_name), capabilities: capabilities() }
}

/// The heartbeat this runtime sends: its capabilities.
pub fn heartbeat() -> (h: crate::protocol::Heartbeat)
    ensures
        advertised(h.capabilities@),
{
    crate::protocol::Heartbeat { capabilities: capabilities() }
}

/// Whether a startup decision follows from the stored identity and the enrollment token: a
/// stored identity is resumed when its id is a UUID and refused otherwise; without one, the
/// runtime enrolls with its token, or cannot start.
pub open spec fn startup_follows(identity: Option<Identity>, token: Option<String>, runtime_name: Seq<char>, r: Result<Startup, StartupError>) -> bool {
    match identity {
        Some(i) => match uuid_parsed(i.runtime_id@) {
            Some(id) => r matches Ok(Startup::Resume { runtime_id, runtime_secret }) && runtime_id == id && runtime_secret@ == i.runtime_secret@,
            None => r == Err::<Startup, StartupError>(StartupError::InvalidStoredIdentity),
        },
        None => match token {
            Some(t) => r matches Ok(Startup::Enroll { enrollment_token, registration }) && enrollment_token == t
                && registration.runtime_name@ == runtime_name && advertised(registration.capabilities@),
            None => r == Err::<Startup, StartupError>(StartupError::NotEnrolled),
        },
    }
}

/// Decides how the daemon starts.
pub fn startup(identity: Option<Identity>, enrollment_token: Option<String>, runtime_name: &str) -> (r: Result<Startup, StartupError>)
    ensures
        startup_follows(identity, enrollment_token, runtime_name@, r),
{
    match identity {
        Some(i) => match crate::protocol::parse_uuid(i.runtime_id.as_str()) {
            Some(id) => Ok(Startup::Resume { runtime_id: id, runtime_secret: i.runtime_secret }),
            None => Err(StartupError::InvalidStoredIdentity),
        },
        None => match enrollment_token {
            Some(t) => Ok(Startup::Enroll { enrollment_token: t, registration: registration(runtime_name) }),
            None => Err(StartupError::NotEnrolled),
        },
    }
}

/// What completing an enrollment with `response` does: an answer in this protocol version is
/// stored as the identity (its id kept as UUID text that reads back as the same id) and
/// returned, and the journal gains the identity; another version is refused and nothing
/// changes.
pub open spec fn enrollment_completed(before: State, after: State, response: RegistrationResponse, r: Result<(u128, String), ClientError>) -> bool {
    &&& after.inv()
    &&& (r is Ok <==> response.protocol_version@ == VERSION@)
    &&& match r {
        Ok((id, secret)) => {
            &&& id == response.runtime_id
            &&& secret@ == response.runtime_secret@
            &&& after.identity_row() matches Some(i) && i.runtime_id@ == uuid_hyphenated(id)
                && uuid_parsed(i.runtime_id@) == Some(id) && i.runtime_secret@ == response.runtime_secret@
            &&& after.writes() == before.writes().push(StoreWrite::Identity)
        },
        Err(e) => e is IncompatibleRegistration && same_state(after, before),
    }
    &&& after.meta() == before.meta()
    &&& after.queued() == before.queued()
    &&& after.commands() == before.commands()
    &&& after.history() == before.history()
}

/// Completes an enrollment: an answer in this protocol version is stored as the identity and
/// returned; another version is refused and nothing is stored.
pub fn complete_enrollment(state: &mut State, response: &RegistrationResponse) -> (r: Result<(u128, String), ClientError>)
    requires
        old(state).inv(),
    ensures
        enrollment_completed(*old(state), *final(state), *response, r),
{
    match check_registration(response) {
        Err(e) => Err(e),
        Ok(()) => {
            state.save_identity(response.runtime_id, response.runtime_secret.as_str());
            Ok((response.runtime_id, response.runtime_secret.clone()))
        },
    }
}

/// A runtime that enrolled resumes, at its next start, under the identity it was given,
/// whatever enrollment token is configured.
pub proof fn law_enrolled_runtime_resumes(
    before: State,
    after: State,
    response: RegistrationResponse,
    id: u128,
    secret: String,
    token: Option<String>,
    name: Seq<char>,
    r: Result<Startup, StartupError>,
)
    requires
        enrollment_completed(before, after, response, Ok((id, secret))),
        startup_follows(after.identity_row(), token, name, r),
    ensures
        r matches Ok(Startup::Resume { runtime_id, runtime_secret }) && runtime_id == id
            && runtime_secret@ == secret@,
{
}

} // verus!
