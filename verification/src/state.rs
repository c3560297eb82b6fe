use vstd::prelude::*;
use crate::json::{json_text, to_json_text, JsonValue};
use crate::protocol::{uuid_hyphenated, uuid_text};
use crate::text::{hex_lower, hex_text, joined};
use crate::clock::{now, stamp_error_text, StampError};

verus! {

/// Delivered-event evidence is kept at most this many days.
pub const MAX_DETAILED_EVIDENCE_RETENTION_DAYS: i64 = 4;

/// Microseconds in one day; timestamps in the state are microseconds since the Unix epoch.
pub const MICROS_PER_DAY: i64 = 86_400_000_000;

/// The retention window in microseconds.
pub const RETENTION_MICROS: i64 = 345_600_000_000;

/// At most this many pending events are handed out at once, oldest first.
pub const PENDING_BATCH_LIMIT: usize = 100;

/// The runtime's enrolled identity: its UUID in hyphenated text and the secret it was issued.
#[derive(Debug, Clone)]
pub struct Identity {
    pub runtime_id: String,
    pub runtime_secret: String,
}

/// An event waiting for delivery, as handed to the sender.
#[derive(Debug)]
pub struct PendingEvent {
    pub id: i64,
    pub kind: String,
    pub payload: JsonValue,
}

/// What the operator sees of the local state.
#[derive(Debug, Clone)]
pub struct Status {
    pub identity_present: bool,
    pub queued_events: i64,
    pub known_commands: i64,
    pub last_error: Option<String>,
}

/// A command that was received once: its id, the digest of its instruction, when it arrived.
#[derive(Debug)]
pub struct CommandRecord {
    pub command_id: u128,
    pub payload_digest: String,
    pub received_at: i64,
}

/// An outgoing lifecycle event not yet delivered.
#[derive(Debug)]
pub struct QueuedEvent {
    pub id: i64,
    pub kind: String,
    pub payload: JsonValue,
    pub created_at: i64,
    pub attempts: i64,
    pub last_error: Option<String>,
}

/// Evidence of an event that was delivered.
#[derive(Debug)]
pub struct DeliveredEvent {
    pub id: i64,
    pub kind: String,
    pub payload: JsonValue,
    pub created_at: i64,
    pub delivered_at: i64,
}

/// One entry of runtime metadata (such as `last_error`).
#[derive(Debug)]
pub struct MetaEntry {
    pub key: String,
    pub value: String,
}

/// A change to the durable copy of the state, named by the row it touches.
#[derive(Debug)]
pub enum StoreWrite {
    /// The identity row was replaced.
    Identity,
    /// A command record was inserted.
    Command(u128),
    /// An outgoing event was inserted.
    Queued(i64),
    /// An outgoing event was moved into the delivered history under a new id.
    Delivered { queued_id: i64, history_id: i64 },
    /// Delivered history rows were removed.
    Pruned(Vec<i64>),
    /// A delivery attempt of an outgoing event failed.
    Failed(i64),
    /// A metadata entry was set.
    Meta(String),
}

/// Why the state refused a change.
#[derive(Debug, PartialEq, Eq, Structural)]
pub enum StateError {
    /// No row id is left above the largest one in use.
    IdSpaceExhausted,
    /// Rows handed to `restore` break the state's invariant.
    Inconsistent,
    /// No time could be taken for the change.
    Stamp(StampError),
}

impl StateError {
    /// The error's text.
    pub fn message(&self) -> (m: String)
        ensures
            m@ == state_error_text(*self),
    {
        match self {
            StateError::IdSpaceExhausted => crate::text::text("no row id is left"),
            StateError::Inconsistent => crate::text::text("stored state is inconsistent"),
            StateError::Stamp(e) => e.message(),
        }
    }
}

pub open spec fn state_error_text(e: StateError) -> Seq<char> {
    match e {
        StateError::IdSpaceExhausted => "no row id is left"@,
        StateError::Inconsistent => "stored state is inconsistent"@,
        StateError::Stamp(e) => stamp_error_text(e),
    }
}

/// Outgoing event ids strictly increase along the queue.
pub open spec fn queued_ids_increasing(s: Seq<QueuedEvent>) -> bool {
    forall|i: int, j: int| 0 <= i < j < s.len() ==> s[i].id < s[j].id
}

/// History ids strictly increase along the history.
pub open spec fn history_ids_increasing(s: Seq<DeliveredEvent>) -> bool {
    forall|i: int, j: int| 0 <= i < j < s.len() ==> s[i].id < s[j].id
}

/// No command id is recorded twice.
pub open spec fn command_ids_unique(s: Seq<CommandRecord>) -> bool {
    forall|i: int, j: int| 0 <= i < j < s.len() ==> s[i].command_id != s[j].command_id
}

/// Whether a command id is recorded.
pub open spec fn knows_command(s: Seq<CommandRecord>, id: u128) -> bool {
    exists|i: int| 0 <= i < s.len() && s[i].command_id == id
}

/// The id the next outgoing event gets: one above the largest, or 1 on an empty queue.
pub open spec fn next_queued_id(s: Seq<QueuedEvent>) -> int {
    if s.len() == 0 { 1 } else { s.last().id + 1 }
}

/// The id the next history entry gets: one above the largest, or 1 on an empty history.
pub open spec fn next_history_id(s: Seq<DeliveredEvent>) -> int {
    if s.len() == 0 { 1 } else { s.last().id + 1 }
}

/// The value last set for `key`.
pub open spec fn meta_get(entries: Seq<MetaEntry>, key: Seq<char>) -> Option<Seq<char>>
    decreases entries.len(),
{
    if entries.len() == 0 {
        None
    } else if entries.last().key@ == key {
        Some(entries.last().value@)
    } else {
        meta_get(entries.drop_last(), key)
    }
}

/// The index of the event with `id` in the queue, if it is there.
pub open spec fn queued_index(s: Seq<QueuedEvent>, id: i64) -> Option<int> {
    if exists|i: int| 0 <= i < s.len() && s[i].id == id {
        Some(choose|i: int| 0 <= i < s.len() && s[i].id == id)
    } else {
        None
    }
}

/// Whether a handed-out event copies a queued one: same id, kind and payload.
pub open spec fn pending_copy(p: PendingEvent, q: QueuedEvent) -> bool {
    &&& p.id == q.id
    &&& p.kind == q.kind
    &&& p.payload@ == q.payload@
}

/// How many events one batch hands out: all queued ones, at most [`PENDING_BATCH_LIMIT`].
pub open spec fn batch_len(q: Seq<QueuedEvent>) -> int {
    if q.len() < PENDING_BATCH_LIMIT { q.len() as int } else { PENDING_BATCH_LIMIT as int }
}

/// The ids of the events one batch hands out: the oldest queued ones, in queue order.
pub open spec fn batch_ids(q: Seq<QueuedEvent>) -> Seq<i64> {
    q.take(batch_len(q)).map_values(|e: QueuedEvent| e.id)
}

/// What the retention keeps: evidence delivered at or after the cutoff.
pub open spec fn kept_after(s: Seq<DeliveredEvent>, cutoff: int) -> Seq<DeliveredEvent> {
    s.filter(|e: DeliveredEvent| e.delivered_at >= cutoff)
}

/// The digest recorded for a command's instruction: `sha256:` and the lower-case hex SHA-256
/// of the instruction's JSON text in UTF-8.
pub open spec fn payload_digest_text(payload_json: Seq<char>) -> Seq<char> {
    "sha256:"@ + hex_text(sha256_digest(vstd::utf8::encode_utf8(payload_json)))
}

/// What `Sha256::digest` computes of a byte sequence.
pub uninterp spec fn sha256_digest(bytes: Seq<u8>) -> Seq<u8>;

/// Hashes bytes with SHA-256; calls `sha2::Sha256::digest`.
/// Claims that the result is a function of the bytes and is 32 bytes long, as the crate's
/// output type fixes it.
#[verifier::external_body]
fn sha256(bytes: &[u8]) -> (out: Vec<u8>)
    ensures
        out@ == sha256_digest(bytes@),
        out@.len() == 32,
{
    <sha2::Sha256 as sha2::Digest>::digest(bytes).to_vec()
}

/// The digest under which a command's instruction is recorded.
pub fn payload_digest(payload_json: &str) -> (out: String)
    ensures
        out@ == payload_digest_text(payload_json@),
{
    let digest = sha256(payload_json.as_bytes());
    let hex = hex_lower(digest.as_slice());
    proof {
        reveal_strlit("sha256:");
    }
    joined("sha256:", hex.as_str())
}



/// Whether two states hold the same rows and the same changes waiting to be written.
pub open spec fn same_state(a: State, b: State) -> bool {
    &&& a.identity_row() == b.identity_row()
    &&& a.commands() == b.commands()
    &&& a.queued() == b.queued()
    &&& a.history() == b.history()
    &&& a.meta() == b.meta()
    &&& a.writes() == b.writes()
}

/// What counting a failed delivery of the outgoing event `id` with `error` does: the event
/// stays in its place with one more attempt (saturating) and `error` as its last error, every
/// other event stays as it was, and `error` becomes the runtime's last error. The journal gains
/// the failed attempt (when the event is queued), then the `last_error` entry.
pub open spec fn failure_recorded(before: State, after: State, id: i64, error: Seq<char>) -> bool {
    &&& after.inv()
    &&& match queued_index(before.queued(), id) {
        None => after.queued() == before.queued(),
        Some(i) => {
            let e = before.queued()[i];
            let f = after.queued()[i];
            &&& after.queued().len() == before.queued().len()
            &&& forall|j: int| 0 <= j < before.queued().len() && j != i ==> after.queued()[j] == before.queued()[j]
            &&& f.id == e.id && f.kind == e.kind && f.payload == e.payload && f.created_at == e.created_at
            &&& f.attempts == if e.attempts == i64::MAX { i64::MAX } else { (e.attempts + 1) as i64 }
            &&& f.last_error matches Some(t) && t@ == error
        },
    }
    &&& meta_get(after.meta(), "last_error"@) == Some(error)
    &&& forall|k: Seq<char>| k != "last_error"@ ==> meta_get(after.meta(), k) == meta_get(before.meta(), k)
    &&& after.identity_row() == before.identity_row()
    &&& after.commands() == before.commands()
    &&& after.history() == before.history()
    &&& after.writes().len() >= 1
    &&& after.writes().drop_last() == if queued_index(before.queued(), id) is Some {
        before.writes().push(StoreWrite::Failed(id))
    } else {
        before.writes()
    }
    &&& after.writes().last() matches StoreWrite::Meta(k) && k@ == "last_error"@
}

/// What recording command `command_id` with instruction text `payload_json` at time `now`
/// does: a new id gets a record holding the digest of the text, a known id changes nothing;
/// `fresh` says which.
pub open spec fn command_recorded(before: State, after: State, command_id: u128, payload_json: Seq<char>, now: i64, fresh: bool) -> bool {
    &&& after.inv()
    &&& fresh == !knows_command(before.commands(), command_id)
    &&& knows_command(after.commands(), command_id)
    &&& fresh ==> after.commands().len() == before.commands().len() + 1
        && after.commands().drop_last() == before.commands()
        && after.commands().last().command_id == command_id
        && after.commands().last().payload_digest@ == payload_digest_text(payload_json)
        && after.commands().last().received_at == now
        && after.writes() == before.writes().push(StoreWrite::Command(command_id))
    &&& !fresh ==> after.commands() == before.commands() && after.writes() == before.writes()
    &&& after.identity_row() == before.identity_row()
    &&& after.queued() == before.queued()
    &&& after.history() == before.history()
    &&& after.meta() == before.meta()
}

/// What queueing an event of `kind` with `payload` at time `now` does: it is appended behind
/// all others under the next id, or, when no id is left, nothing changes.
pub open spec fn event_queued(before: State, after: State, kind: Seq<char>, payload: JsonValue, now: i64, r: Result<(), StateError>) -> bool {
    &&& after.inv()
    &&& after.identity_row() == before.identity_row()
    &&& after.commands() == before.commands()
    &&& after.history() == before.history()
    &&& after.meta() == before.meta()
    &&& match r {
        Ok(()) => {
            let q = after.queued();
            &&& q.len() == before.queued().len() + 1
            &&& q.drop_last() == before.queued()
            &&& q.last().id == next_queued_id(before.queued())
            &&& q.last().kind@ == kind
            &&& q.last().payload == payload
            &&& q.last().created_at == now
            &&& q.last().attempts == 0
            &&& q.last().last_error is None
            &&& after.writes() == before.writes().push(StoreWrite::Queued(q.last().id))
        },
        Err(e) => {
            &&& e == StateError::IdSpaceExhausted
            &&& next_queued_id(before.queued()) > i64::MAX
            &&& after.queued() == before.queued()
            &&& after.writes() == before.writes()
        },
    }
    &&& (r is Ok <==> next_queued_id(before.queued()) <= i64::MAX)
}

/// What marking the outgoing event `id` as delivered at time `now` does: it leaves the queue
/// and joins the history under the next history id; an id that is not queued, or a history
/// with no id left, changes nothing.
pub open spec fn event_delivered(before: State, after: State, id: i64, now: i64, r: Result<(), StateError>) -> bool {
    &&& after.inv()
    &&& after.identity_row() == before.identity_row()
    &&& after.commands() == before.commands()
    &&& after.meta() == before.meta()
    &&& match queued_index(before.queued(), id) {
        None => {
            &&& r is Ok
            &&& after.queued() == before.queued()
            &&& after.history() == before.history()
            &&& after.writes() == before.writes()
        },
        Some(i) => {
            let e = before.queued()[i];
            let h = next_history_id(before.history());
            if h > i64::MAX {
                &&& r == Err::<(), StateError>(StateError::IdSpaceExhausted)
                &&& after.queued() == before.queued()
                &&& after.history() == before.history()
                &&& after.writes() == before.writes()
            } else {
                &&& r is Ok
                &&& after.queued() == before.queued().remove(i)
                &&& after.history() == before.history().push(DeliveredEvent {
                    id: h as i64,
                    kind: e.kind,
                    payload: e.payload,
                    created_at: e.created_at,
                    delivered_at: now,
                })
                &&& after.writes() == before.writes().push(
                    StoreWrite::Delivered { queued_id: id, history_id: h as i64 })
            }
        },
    }
}

/// What pruning at time `now` does: the history keeps exactly the evidence delivered within
/// the retention window, in order; `removed` counts what went; nothing else changes.
pub open spec fn evidence_pruned(before: State, after: State, now: i64, removed: usize) -> bool {
    &&& after.inv()
    &&& after.history() == kept_after(before.history(), now - RETENTION_MICROS)
    &&& removed == before.history().len() - after.history().len()
    &&& after.identity_row() == before.identity_row()
    &&& after.commands() == before.commands()
    &&& after.queued() == before.queued()
    &&& after.meta() == before.meta()
    &&& removed == 0 ==> after.writes() == before.writes()
    &&& removed > 0 ==> after.writes().len() == before.writes().len() + 1
        && after.writes().drop_last() == before.writes()
        && after.writes().last() is Pruned
}

/// The local runtime state: identity, command records, the outgoing event queue, delivered
/// evidence and metadata, together with the changes not yet written to durable storage.
pub struct State {
    identity: Option<Identity>,
    commands: Vec<CommandRecord>,
    outgoing: Vec<QueuedEvent>,
    history: Vec<DeliveredEvent>,
    meta: Vec<MetaEntry>,
    writes: Vec<StoreWrite>,
}

impl State {
    /// The state's invariant: queue and history ordered by id, no command recorded twice.
    pub closed spec fn inv(self) -> bool {
        &&& queued_ids_increasing(self.outgoing@)
        &&& history_ids_increasing(self.history@)
        &&& command_ids_unique(self.commands@)
    }

    pub closed spec fn identity_row(self) -> Option<Identity> {
        self.identity
    }

    pub closed spec fn commands(self) -> Seq<CommandRecord> {
        self.commands@
    }

    pub closed spec fn queued(self) -> Seq<QueuedEvent> {
        self.outgoing@
    }

    pub closed spec fn history(self) -> Seq<DeliveredEvent> {
        self.history@
    }

    pub closed spec fn meta(self) -> Seq<MetaEntry> {
        self.meta@
    }

    pub closed spec fn writes(self) -> Seq<StoreWrite> {
        self.writes@
    }

    /// The rows of a valid state are ordered and unique as its invariant demands.
    pub proof fn lemma_inv(&self)
        requires
            self.inv(),
        ensures
            queued_ids_increasing(self.queued()),
            history_ids_increasing(self.history()),
            command_ids_unique(self.commands()),
    {
    }

    /// An empty state: not enrolled, nothing recorded, nothing queued.
    pub fn new() -> (s: State)
        ensures
            s.inv(),
            s.identity_row() is None,
            s.commands() == Seq::<CommandRecord>::empty(),
            s.queued() == Seq::<QueuedEvent>::empty(),
            s.history() == Seq::<DeliveredEvent>::empty(),
            s.meta() == Seq::<MetaEntry>::empty(),
            s.writes() == Seq::<StoreWrite>::empty(),
    {
        State {
            identity: None,
            commands: Vec::new(),
            outgoing: Vec::new(),
            history: Vec::new(),
            meta: Vec::new(),
            writes: Vec::new(),
        }
    }

    /// Rebuilds the state from stored rows (queue and history in id order); refuses rows that
    /// break the invariant.
    pub fn restore(
        identity: Option<Identity>,
        commands: Vec<CommandRecord>,
        outgoing: Vec<QueuedEvent>,
        history: Vec<DeliveredEvent>,
        meta: Vec<MetaEntry>,
    ) -> (r: Result<State, StateError>)
        ensures
            match r {
                Ok(s) => {
                    &&& s.inv()
                    &&& s.identity_row() == identity
                    &&& s.commands() == commands@
                    &&& s.queued() == outgoing@
                    &&& s.history() == history@
                    &&& s.meta() == meta@
                    &&& s.writes() == Seq::<StoreWrite>::empty()
                },
                Err(e) => e == StateError::Inconsistent,
            },
            r is Ok <==> (queued_ids_increasing(outgoing@) && history_ids_increasing(history@)
                && command_ids_unique(commands@)),
    {
        let mut i: usize = 1;
        while i < outgoing.len()
            invariant
                1 <= i,
                forall|a: int, b: int| 0 <= a < b < i && b < outgoing@.len() ==> outgoing@[a].id < outgoing@[b].id,
            decreases outgoing.len() - i,
        {
            if outgoing[i - 1].id >= outgoing[i].id {
                return Err(StateError::Inconsistent);
            }
            proof {
                assert forall|a: int, b: int| 0 <= a < b < i + 1 && b < outgoing@.len() implies outgoing@[a].id < outgoing@[b].id by {
                    if b == i && a < i - 1 {
                        assert(outgoing@[a].id < outgoing@[i - 1].id);
                    }
                }
            }
            i = i + 1;
        }
        let mut i: usize = 1;
        while i < history.len()
            invariant
                1 <= i,
                queued_ids_increasing(outgoing@),
                forall|a: int, b: int| 0 <= a < b < i && b < history@.len() ==> history@[a].id < history@[b].id,
            decreases history.len() - i,
        {
            if history[i - 1].id >= history[i].id {
                return Err(StateError::Inconsistent);
            }
            proof {
                assert forall|a: int, b: int| 0 <= a < b < i + 1 && b < history@.len() implies history@[a].id < history@[b].id by {
                    if b == i && a < i - 1 {
                        assert(history@[a].id < history@[i - 1].id);
                    }
                }
            }
            i = i + 1;
        }
        let mut i: usize = 0;
        while i < commands.len()
            invariant
                i <= commands.len(),
                queued_ids_increasing(outgoing@),
                history_ids_increasing(history@),
                forall|a: int, b: int| 0 <= a < b < commands@.len() && a < i ==> commands@[a].command_id != commands@[b].command_id,
            decreases commands.len() - i,
        {
            let mut j: usize = i + 1;
            while j < commands.len()
                invariant
                    i < commands.len(),
                    i + 1 <= j <= commands.len(),
                    forall|b: int| i < b < j ==> commands@[i as int].command_id != commands@[b].command_id,
                decreases commands.len() - j,
            {
                if commands[i].command_id == commands[j].command_id {
                    return Err(StateError::Inconsistent);
                }
                j = j + 1;
            }
            i = i + 1;
        }
        Ok(State { identity, commands, outgoing, history, meta, writes: Vec::new() })
    }

    /// Hands out the changes made since the last call, oldest first, and forgets them.
    pub fn take_writes(&mut self) -> (w: Vec<StoreWrite>)
        requires
            old(self).inv(),
        ensures
            final(self).inv(),
            w@ == old(self).writes(),
            final(self).writes() == Seq::<StoreWrite>::empty(),
            final(self).identity_row() == old(self).identity_row(),
            final(self).commands() == old(self).commands(),
            final(self).queued() == old(self).queued(),
            final(self).history() == old(self).history(),
            final(self).meta() == old(self).meta(),
    {
        let mut w: Vec<StoreWrite> = Vec::new();
        std::mem::swap(&mut w, &mut self.writes);
        w
    }

    fn queued_position(&self, id: i64) -> (r: Option<usize>)
        requires
            self.inv(),
        ensures
            match r {
                Some(i) => i < self.queued().len() && queued_index(self.queued(), id) == Some(i as int),
                None => queued_index(self.queued(), id) is None,
            },
    {
        let mut i: usize = 0;
        while i < self.outgoing.len()
            invariant
                i <= self.outgoing@.len(),
                queued_ids_increasing(self.outgoing@),
                forall|j: int| 0 <= j < i ==> self.outgoing@[j].id != id,
            decreases self.outgoing.len() - i,
        {
            if self.outgoing[i].id == id {
                proof {
                    let c = choose|k: int| 0 <= k < self.outgoing@.len() && self.outgoing@[k].id == id;
                    if c < i {
                    } else if c > i {
                        assert(self.outgoing@[i as int].id < self.outgoing@[c].id);
                    }
                }
                return Some(i);
            }
            i = i + 1;
        }
        None
    }

    /// The identity the runtime was enrolled with, if any.
    pub fn identity(&self) -> (r: Option<Identity>)
        ensures
            r == self.identity_row(),
    {
        match &self.identity {
            Some(i) => Some(Identity { runtime_id: i.runtime_id.clone(), runtime_secret: i.runtime_secret.clone() }),
            None => None,
        }
    }

    /// Replaces the stored identity with `runtime_id` (kept as hyphenated text) and `secret`.
    pub fn save_identity(&mut self, runtime_id: u128, secret: &str)
        requires
            old(self).inv(),
        ensures
            final(self).inv(),
            final(self).identity_row() matches Some(i) && i.runtime_id@ == uuid_hyphenated(runtime_id)
                && crate::protocol::uuid_parsed(i.runtime_id@) == Some(runtime_id) && i.runtime_secret@ == secret@,
            final(self).commands() == old(self).commands(),
            final(self).queued() == old(self).queued(),
            final(self).history() == old(self).history(),
            final(self).meta() == old(self).meta(),
            final(self).writes() == old(self).writes().push(StoreWrite::Identity),
    {
        self.identity = Some(Identity { runtime_id: uuid_text(runtime_id), runtime_secret: crate::text::text(secret) });
        self.writes.push(StoreWrite::Identity);
    }

    /// Whether a command with this id was recorded.
    pub fn knows(&self, command_id: u128) -> (r: bool)
        ensures
            r == knows_command(self.commands(), command_id),
    {
        let mut i: usize = 0;
        while i < self.commands.len()
            invariant
                i <= self.commands@.len(),
                forall|j: int| 0 <= j < i ==> self.commands@[j].command_id != command_id,
            decreases self.commands.len() - i,
        {
            if self.commands[i].command_id == command_id {
                return true;
            }
            i = i + 1;
        }
        false
    }

    /// Whether `n` more events fit in the queue: the ids they would get are all left.
    pub fn has_queue_room(&self, n: u64) -> (b: bool)
        requires
            1 <= n <= 2,
        ensures
            b == (next_queued_id(self.queued()) + n - 1 <= i64::MAX),
    {
        let k = self.outgoing.len();
        if k == 0 {
            true
        } else {
            let last = self.outgoing[k - 1].id;
            last <= i64::MAX - n as i64
        }
    }

    /// Whether one more entry fits in the delivered history.
    pub fn has_history_room(&self) -> (b: bool)
        ensures
            b == (next_history_id(self.history()) <= i64::MAX),
    {
        let k = self.history.len();
        if k == 0 {
            true
        } else {
            self.history[k - 1].id < i64::MAX
        }
    }

    /// Records a received command, stamped with the current time, unless its id is already
    /// known; says whether it was new. Fails, changing nothing, only when the clock is
    /// unavailable.
    pub fn record_command(&mut self, command_id: u128, payload: &JsonValue) -> (r: Result<bool, StateError>)
        requires
            old(self).inv(),
        ensures
            match r {
                Ok(fresh) => command_recorded(*old(self), *final(self), command_id, json_text(payload@),
                    final(self).commands().last().received_at, fresh),
                Err(e) => e == StateError::Stamp(StampError::ClockUnavailable) && same_state(*final(self), *old(self)) && final(self).inv(),
            },
    {
        let moment = match now() {
            Ok(m) => m,
            Err(e) => return Err(StateError::Stamp(e)),
        };
        Ok(self.record_command_at(command_id, payload, moment.micros))
    }

    /// Appends an outgoing event of `kind` with `payload`, stamped with the current time,
    /// behind all others. Fails, changing nothing, when no id is left or the clock is
    /// unavailable.
    pub fn queue_event(&mut self, kind: &str, payload: JsonValue) -> (r: Result<(), StateError>)
        requires
            old(self).inv(),
        ensures
            match r {
                Err(StateError::Stamp(e)) => e == StampError::ClockUnavailable
                    && next_queued_id(old(self).queued()) <= i64::MAX && same_state(*final(self), *old(self)) && final(self).inv(),
                _ => event_queued(*old(self), *final(self), kind@, payload, final(self).queued().last().created_at, r),
            },
    {
        if !self.has_queue_room(1) {
            return Err(StateError::IdSpaceExhausted);
        }
        let moment = match now() {
            Ok(m) => m,
            Err(e) => return Err(StateError::Stamp(e)),
        };
        self.queue_event_at(kind, payload, moment.micros)
    }

    /// Marks the outgoing event `id` as delivered now. An id that is not queued changes
    /// nothing; a queued one fails, changing nothing, when no history id is left or the clock
    /// is unavailable.
    pub fn delivered(&mut self, id: i64) -> (r: Result<(), StateError>)
        requires
            old(self).inv(),
        ensures
            match r {
                Err(StateError::Stamp(e)) => e == StampError::ClockUnavailable
                    && queued_index(old(self).queued(), id) is Some
                    && next_history_id(old(self).history()) <= i64::MAX && same_state(*final(self), *old(self)) && final(self).inv(),
                _ => event_delivered(*old(self), *final(self), id, final(self).history().last().delivered_at, r),
            },
    {
        if self.queued_position(id).is_none() || !self.has_history_room() {
            let r = self.delivered_at(id, 0);
            return r;
        }
        let moment = match now() {
            Ok(m) => m,
            Err(e) => return Err(StateError::Stamp(e)),
        };
        self.delivered_at(id, moment.micros)
    }

    /// Records a received command at time `now` unless its id is already known; says whether
    /// it was new. Only the digest of the instruction's compact JSON text is kept, not the
    /// instruction.
    pub fn record_command_at(&mut self, command_id: u128, payload: &JsonValue, now: i64) -> (fresh: bool)
        requires
            old(self).inv(),
        ensures
            command_recorded(*old(self), *final(self), command_id, json_text(payload@), now, fresh),
    {
        if self.knows(command_id) {
            return false;
        }
        let payload_json = to_json_text(payload);
        let record = CommandRecord { command_id, payload_digest: payload_digest(payload_json.as_str()), received_at: now };
        self.commands.push(record);
        self.writes.push(StoreWrite::Command(command_id));
        proof {
            let c = self.commands@;
            assert(c.drop_last() =~= old(self).commands@);
            assert(c[c.len() - 1].command_id == command_id);
        }
        true
    }

    /// Appends an outgoing event of `kind` with `payload`, created at `now`, behind all others.
    pub fn queue_event_at(&mut self, kind: &str, payload: JsonValue, now: i64) -> (r: Result<(), StateError>)
        requires
            old(self).inv(),
        ensures
            event_queued(*old(self), *final(self), kind@, payload, now, r),
    {
        let n = self.outgoing.len();
        let id: i64 = if n == 0 {
            1
        } else {
            let last = self.outgoing[n - 1].id;
            if last == i64::MAX {
                return Err(StateError::IdSpaceExhausted);
            }
            last + 1
        };
        let event = QueuedEvent {
            id,
            kind: crate::text::text(kind),
            payload,
            created_at: now,
            attempts: 0,
            last_error: None,
        };
        self.outgoing.push(event);
        self.writes.push(StoreWrite::Queued(id));
        proof {
            let q = self.outgoing@;
            assert(q.drop_last() =~= old(self).outgoing@);
            assert(q[q.len() - 1].id == id);
        }
        Ok(())
    }

    /// The oldest pending events, at most [`PENDING_BATCH_LIMIT`] of them, in queue order.
    pub fn pending_events(&self) -> (r: Vec<PendingEvent>)
        ensures
            r@.len() == batch_len(self.queued()),
            r@.map_values(|e: PendingEvent| e.id) == batch_ids(self.queued()),
            forall|i: int| 0 <= i < r@.len() ==> #[trigger] pending_copy(r@[i], self.queued()[i]),
    {
        let mut out: Vec<PendingEvent> = Vec::new();
        let mut i: usize = 0;
        while i < self.outgoing.len() && i < PENDING_BATCH_LIMIT
            invariant
                i <= self.outgoing@.len(),
                i <= PENDING_BATCH_LIMIT,
                out@.len() == i,
                forall|j: int| 0 <= j < i ==> #[trigger] pending_copy(out@[j], self.outgoing@[j]),
            decreases self.outgoing.len() - i,
        {
            let e = &self.outgoing[i];
            let ghost before = out@;
            let p = PendingEvent { id: e.id, kind: e.kind.clone(), payload: e.payload.clone() };
            assert(pending_copy(p, self.outgoing@[i as int]));
            out.push(p);
            proof {
                assert(out@ =~= before.push(p));
                assert forall|j: int| 0 <= j < i + 1 implies #[trigger] pending_copy(out@[j], self.outgoing@[j]) by {
                    if j < i {
                        assert(pending_copy(before[j], self.outgoing@[j]));
                        assert(out@[j] == before[j]);
                    } else {
                        assert(out@[j] == p);
                    }
                }
            }
            i = i + 1;
        }
        proof {
            let ids = out@.map_values(|e: PendingEvent| e.id);
            assert(ids =~= batch_ids(self.queued())) by {
                assert forall|k: int| 0 <= k < out@.len() implies #[trigger] ids[k] == batch_ids(self.queued())[k] by {
                    assert(pending_copy(out@[k], self.outgoing@[k]));
                }
            }
        }
        out
    }

    /// Marks the outgoing event `id` as delivered at `now`: it leaves the queue and joins the
    /// delivered history under the next history id. An id that is not queued changes nothing.
    pub fn delivered_at(&mut self, id: i64, now: i64) -> (r: Result<(), StateError>)
        requires
            old(self).inv(),
        ensures
            event_delivered(*old(self), *final(self), id, now, r),
    {
        let position = self.queued_position(id);
        match position {
            None => Ok(()),
            Some(i) => {
                let n = self.history.len();
                let history_id: i64 = if n == 0 {
                    1
                } else {
                    let last = self.history[n - 1].id;
                    if last == i64::MAX {
                        return Err(StateError::IdSpaceExhausted);
                    }
                    last + 1
                };
                let e = self.outgoing.remove(i);
                let entry = DeliveredEvent {
                    id: history_id,
                    kind: e.kind,
                    payload: e.payload,
                    created_at: e.created_at,
                    delivered_at: now,
                };
                self.history.push(entry);
                self.writes.push(StoreWrite::Delivered { queued_id: id, history_id });
                proof {
                    let q = self.outgoing@;
                    let o = old(self).outgoing@;
                    assert forall|a: int, b: int| 0 <= a < b < q.len() implies q[a].id < q[b].id by {
                        let a2 = if a < i { a } else { a + 1 };
                        let b2 = if b < i { b } else { b + 1 };
                        assert(q[a] == o[a2]);
                        assert(q[b] == o[b2]);
                    }
                    let hs = self.history@;
                    let ho = old(self).history@;
                    assert forall|a: int, b: int| 0 <= a < b < hs.len() implies hs[a].id < hs[b].id by {
                        if b == hs.len() - 1 && a < b {
                            assert(hs[a] == ho[a]);
                            if a < ho.len() - 1 {
                                assert(ho[a].id < ho[ho.len() - 1].id);
                            }
                        }
                    }
                }
                Ok(())
            },
        }
    }

    /// Removes delivered evidence older than the retention window ending at `now`; says how
    /// many entries went. Pending events, command records, identity and metadata stay.
    pub fn prune_detailed_evidence(&mut self, now: i64) -> (removed: usize)
        requires
            old(self).inv(),
            now >= i64::MIN + RETENTION_MICROS,
        ensures
            evidence_pruned(*old(self), *final(self), now, removed),
    {
        let cutoff: i64 = now - RETENTION_MICROS;
        let ghost pred = |e: DeliveredEvent| e.delivered_at >= cutoff;
        let mut old_history: Vec<DeliveredEvent> = Vec::new();
        std::mem::swap(&mut old_history, &mut self.history);
        let ghost initial = old_history@;
        let mut kept: Vec<DeliveredEvent> = Vec::new();
        let mut gone: Vec<i64> = Vec::new();
        let mut rest = old_history;
        proof {
            assert(initial.take(0).filter(pred) =~= Seq::<DeliveredEvent>::empty()) by {
                reveal(Seq::filter);
            }
        }
        while rest.len() > 0
            invariant
                rest@.len() <= initial.len(),
                rest@ == initial.skip(initial.len() - rest@.len()),
                kept@ == initial.take(initial.len() - rest@.len()).filter(pred),
                gone@.len() + kept@.len() == initial.len() - rest@.len(),
                pred == (|e: DeliveredEvent| e.delivered_at >= cutoff),
            decreases rest.len(),
        {
            let ghost done = initial.len() - rest@.len();
            let e = rest.remove(0);
            proof {
                assert(e == initial[done]);
                assert(rest@ =~= initial.skip(done + 1));
                assert(initial.take(done + 1) =~= initial.take(done).push(e));
                lemma_filter_push(initial.take(done), pred, e);
            }
            if e.delivered_at >= cutoff {
                kept.push(e);
            } else {
                gone.push(e.id);
            }
        }
        proof {
            assert(initial.take(initial.len() as int) =~= initial);
            lemma_filter_subsequence_increasing(initial, pred);
        }
        self.history = kept;
        let removed = gone.len();
        if removed > 0 {
            self.writes.push(StoreWrite::Pruned(gone));
            assert(self.writes@.drop_last() =~= old(self).writes@);
        }
        removed
    }

    fn meta_position(&self, key: &str) -> (r: Option<usize>)
        ensures
            match r {
                Some(i) => i < self.meta().len() && self.meta()[i as int].key@ == key@,
                None => forall|j: int| 0 <= j < self.meta().len() ==> self.meta()[j].key@ != key@,
            },
    {
        let mut i: usize = 0;
        while i < self.meta.len()
            invariant
                i <= self.meta@.len(),
                forall|j: int| 0 <= j < i ==> self.meta@[j].key@ != key@,
            decreases self.meta.len() - i,
        {
            if crate::text::same_text(self.meta[i].key.as_str(), key) {
                return Some(i);
            }
            i = i + 1;
        }
        None
    }

    /// The value last set for `key`, if any.
    pub fn meta_value(&self, key: &str) -> (r: Option<String>)
        ensures
            match r {
                Some(v) => meta_get(self.meta(), key@) == Some(v@),
                None => meta_get(self.meta(), key@) is None,
            },
    {
        let mut i: usize = self.meta.len();
        assert(self.meta@.take(i as int) =~= self.meta@);
        while i > 0
            invariant
                i <= self.meta@.len(),
                meta_get(self.meta@, key@) == meta_get(self.meta@.take(i as int), key@),
            decreases i,
        {
            let e = &self.meta[i - 1];
            proof {
                assert(self.meta@.take(i as int).drop_last() =~= self.meta@.take(i - 1));
            }
            if crate::text::same_text(e.key.as_str(), key) {
                return Some(e.value.clone());
            }
            i = i - 1;
        }
        None
    }

    /// Sets the metadata entry `key` to `value`, replacing any earlier value.
    pub fn set_meta(&mut self, key: &str, value: &str)
        requires
            old(self).inv(),
        ensures
            final(self).inv(),
            meta_get(final(self).meta(), key@) == Some(value@),
            forall|k: Seq<char>| k != key@ ==> meta_get(final(self).meta(), k) == meta_get(old(self).meta(), k),
            final(self).identity_row() == old(self).identity_row(),
            final(self).commands() == old(self).commands(),
            final(self).queued() == old(self).queued(),
            final(self).history() == old(self).history(),
            final(self).writes().len() == old(self).writes().len() + 1,
            final(self).writes().drop_last() == old(self).writes(),
            final(self).writes().last() matches StoreWrite::Meta(k) && k@ == key@,
    {
        let position = self.meta_position(key);
        let ghost before = self.meta@;
        match position {
            Some(i) => {
                self.meta.remove(i);
                proof {
                    assert forall|k: Seq<char>| k != key@ implies meta_get(self.meta@, k) == meta_get(before, k) by {
                        lemma_meta_get_remove(before, i as int, k);
                    }
                }
            },
            None => {},
        }
        let ghost middle = self.meta@;
        self.meta.push(MetaEntry { key: crate::text::text(key), value: crate::text::text(value) });
        proof {
            assert(self.meta@.drop_last() =~= middle);
        }
        self.writes.push(StoreWrite::Meta(crate::text::text(key)));
        proof {
            assert(self.writes@.drop_last() =~= old(self).writes@);
        }
    }

    /// Counts a failed delivery attempt of the outgoing event `id` (keeping it queued) and
    /// remembers `error` as the runtime's last error.
    pub fn failed_delivery(&mut self, id: i64, error: &str)
        requires
            old(self).inv(),
        ensures
            failure_recorded(*old(self), *final(self), id, error@),
    {
        let position = self.queued_position(id);
        match position {
            Some(i) => {
                let mut e = self.outgoing.remove(i);
                e.attempts = if e.attempts == i64::MAX { i64::MAX } else { e.attempts + 1 };
                e.last_error = Some(crate::text::text(error));
                self.outgoing.insert(i, e);
                self.writes.push(StoreWrite::Failed(id));
                proof {
                    let q = self.outgoing@;
                    let o = old(self).outgoing@;
                    assert(q.len() == o.len());
                    assert forall|j: int| 0 <= j < o.len() && j != i implies q[j] == o[j] by {}
                    assert forall|a: int, b: int| 0 <= a < b < q.len() implies q[a].id < q[b].id by {
                        assert(q[a].id == o[a].id);
                        assert(q[b].id == o[b].id);
                    }
                }
            },
            None => {},
        }
        proof {
            reveal_strlit("last_error");
        }
        self.set_meta("last_error", error);
    }

    /// What the operator sees: enrolment, queue length, number of known commands, last error.
    pub fn status(&self) -> (s: Status)
        ensures
            s.identity_present == (self.identity_row() is Some),
            s.queued_events == self.queued().len() as i64,
            s.known_commands == self.commands().len() as i64,
            match s.last_error {
                Some(e) => meta_get(self.meta(), "last_error"@) == Some(e@),
                None => meta_get(self.meta(), "last_error"@) is None,
            },
    {
        proof {
            reveal_strlit("last_error");
        }
        Status {
            identity_present: self.identity.is_some(),
            queued_events: self.outgoing.len() as i64,
            known_commands: self.commands.len() as i64,
            last_error: self.meta_value("last_error"),
        }
    }

    /// The record of command `command_id`, if it was received.
    pub fn command_record(&self, command_id: u128) -> (r: Option<&CommandRecord>)
        ensures
            match r {
                Some(c) => self.commands().contains(*c) && c.command_id == command_id,
                None => !knows_command(self.commands(), command_id),
            },
    {
        let mut i: usize = 0;
        while i < self.commands.len()
            invariant
                i <= self.commands@.len(),
                forall|j: int| 0 <= j < i ==> self.commands@[j].command_id != command_id,
            decreases self.commands.len() - i,
        {
            if self.commands[i].command_id == command_id {
                return Some(&self.commands[i]);
            }
            i = i + 1;
        }
        None
    }

    /// The queued event `id`, if it is still pending.
    pub fn queued_event(&self, id: i64) -> (r: Option<&QueuedEvent>)
        requires
            self.inv(),
        ensures
            match r {
                Some(e) => queued_index(self.queued(), id) matches Some(i) && self.queued()[i] == *e,
                None => queued_index(self.queued(), id) is None,
            },
    {
        match self.queued_position(id) {
            Some(i) => Some(&self.outgoing[i]),
            None => None,
        }
    }

    /// The delivered-history entry `id`, if it is still kept.
    pub fn delivered_event(&self, id: i64) -> (r: Option<&DeliveredEvent>)
        ensures
            match r {
                Some(e) => self.history().contains(*e) && e.id == id,
                None => forall|j: int| 0 <= j < self.history().len() ==> self.history()[j].id != id,
            },
    {
        let mut i: usize = 0;
        while i < self.history.len()
            invariant
                i <= self.history@.len(),
                forall|j: int| 0 <= j < i ==> self.history@[j].id != id,
            decreases self.history.len() - i,
        {
            if self.history[i].id == id {
                return Some(&self.history[i]);
            }
            i = i + 1;
        }
        None
    }
}

/// Removing an entry under another key does not change what a key reads.
pub proof fn lemma_meta_get_remove(s: Seq<MetaEntry>, i: int, k: Seq<char>)
    requires
        0 <= i < s.len(),
        s[i].key@ != k,
    ensures
        meta_get(s.remove(i), k) == meta_get(s, k),
    decreases s.len(),
{
    if i == s.len() - 1 {
        assert(s.remove(i) =~= s.drop_last());
    } else {
        let r = s.remove(i);
        assert(r.last() == s.last());
        if s.last().key@ != k {
            lemma_meta_get_remove(s.drop_last(), i, k);
            assert(r.drop_last() =~= s.drop_last().remove(i));
        }
    }
}

/// Filtering after appending one element appends it exactly when it passes.
pub proof fn lemma_filter_push<A>(s: Seq<A>, pred: spec_fn(A) -> bool, e: A)
    ensures
        s.push(e).filter(pred) == if pred(e) { s.filter(pred).push(e) } else { s.filter(pred) },
{
    reveal(Seq::filter);
    assert(s.push(e).drop_last() =~= s);
}

/// Filtering a history keeps its ids increasing.
pub proof fn lemma_filter_subsequence_increasing(s: Seq<DeliveredEvent>, pred: spec_fn(DeliveredEvent) -> bool)
    requires
        history_ids_increasing(s),
    ensures
        history_ids_increasing(s.filter(pred)),
        forall|x: DeliveredEvent| #[trigger] s.filter(pred).contains(x) ==> s.contains(x),
    decreases s.len(),
{
    reveal(Seq::filter);
    if s.len() > 0 {
        let p = s.drop_last();
        assert(history_ids_increasing(p));
        lemma_filter_subsequence_increasing(p, pred);
        assert(s.filter(pred) == if pred(s.last()) { p.filter(pred).push(s.last()) } else { p.filter(pred) });
        if pred(s.last()) {
            let f = p.filter(pred);
            let g = f.push(s.last());
            assert forall|a: int, b: int| 0 <= a < b < g.len() implies g[a].id < g[b].id by {
                if b == g.len() - 1 {
                    assert(g[a] == f[a]);
                    assert(f.contains(g[a]));
                    assert(p.contains(g[a]));
                    let k = choose|k: int| 0 <= k < p.len() && p[k] == g[a];
                    assert(s[k] == p[k]);
                    assert(s[k].id < s[s.len() - 1].id);
                }
            }
            assert forall|x: DeliveredEvent| g.contains(x) implies s.contains(x) by {
                if x != s.last() {
                    let k = choose|k: int| 0 <= k < g.len() && g[k] == x;
                    assert(k < f.len());
                    assert(f[k] == x);
                    assert(f.contains(x));
                    assert(p.contains(x));
                    let m = choose|m: int| 0 <= m < p.len() && p[m] == x;
                    assert(s[m] == x);
                } else {
                    assert(s[s.len() - 1] == x);
                }
            }
        } else {
            assert forall|x: DeliveredEvent| #[trigger] p.filter(pred).contains(x) implies s.contains(x) by {
                assert(p.contains(x));
                let m = choose|m: int| 0 <= m < p.len() && p[m] == x;
                assert(s[m] == x);
            }
        }
    }
}

/// Retention keeps delivered evidence for at most the retention window, loses nothing newer,
/// and never touches anything else: after pruning at `now`, every kept entry was delivered at
/// or after `now - RETENTION_MICROS` and came from the history, every entry delivered at or
/// after that cutoff is still there, and pending events (however old), the identity, the
/// command records and the metadata are as they were.
pub proof fn law_retention_window(before: State, after: State, now: i64, removed: usize)
    requires
        evidence_pruned(before, after, now, removed),
    ensures
        forall|i: int| 0 <= i < after.history().len()
            ==> #[trigger] after.history()[i].delivered_at >= now - RETENTION_MICROS,
        forall|e: DeliveredEvent| #[trigger] after.history().contains(e) ==> before.history().contains(e),
        forall|i: int| 0 <= i < before.history().len() && before.history()[i].delivered_at >= now - RETENTION_MICROS
            ==> #[trigger] after.history().contains(before.history()[i]),
        after.queued() == before.queued(),
        after.identity_row() == before.identity_row(),
        after.commands() == before.commands(),
        after.meta() == before.meta(),
{
    let history = before.history();
    let cutoff = now - RETENTION_MICROS;
    let pred = |e: DeliveredEvent| e.delivered_at >= cutoff;
    broadcast use vstd::seq_lib::group_filter_ensures;
    assert forall|e: DeliveredEvent| #[trigger] kept_after(history, cutoff).contains(e) implies history.contains(e) by {
        history.lemma_filter_contains_rev(pred, e);
    }
    assert forall|i: int| 0 <= i < kept_after(history, cutoff).len()
        implies #[trigger] kept_after(history, cutoff)[i].delivered_at >= cutoff by {
        history.lemma_filter_pred(pred, i);
    }
    assert forall|i: int| 0 <= i < history.len() && history[i].delivered_at >= cutoff
        implies #[trigger] kept_after(history, cutoff).contains(history[i]) by {
        history.lemma_filter_contains(pred, i);
    }
}

/// Queueing appends: while fewer than [`PENDING_BATCH_LIMIT`] events are pending and an id is
/// left, a queued event succeeds and the next batch holds the same events followed by the new
/// one, whose id is larger than every pending id; when no id is left the event is refused and
/// the queue stays as it was.
pub proof fn law_queue_appends_to_batch(
    before: State,
    after: State,
    kind: Seq<char>,
    payload: JsonValue,
    now: i64,
    r: Result<(), StateError>,
)
    requires
        before.inv(),
        event_queued(before, after, kind, payload, now, r),
        before.queued().len() < PENDING_BATCH_LIMIT,
    ensures
        if next_queued_id(before.queued()) <= i64::MAX {
            &&& r is Ok
            &&& after.queued().len() == before.queued().len() + 1
            &&& batch_ids(after.queued()) == batch_ids(before.queued()).push(after.queued().last().id)
            &&& forall|i: int| 0 <= i < batch_ids(before.queued()).len()
                ==> #[trigger] batch_ids(before.queued())[i] < after.queued().last().id
            &&& after.queued().last().kind@ == kind
            &&& after.queued().last().payload == payload
        } else {
            r == Err::<(), StateError>(StateError::IdSpaceExhausted) && after.queued() == before.queued()
        },
{
    if next_queued_id(before.queued()) <= i64::MAX {
        let b = before.queued();
        let q = after.queued();
        assert(batch_len(b) == b.len());
        assert(batch_len(q) == q.len());
        assert(batch_ids(q) =~= batch_ids(b).push(q.last().id)) by {
            assert forall|i: int| 0 <= i < q.len() implies #[trigger] batch_ids(q)[i] == batch_ids(b).push(q.last().id)[i] by {
                if i < b.len() {
                    assert(q[i] == q.drop_last()[i]);
                }
            }
        }
        assert forall|i: int| 0 <= i < batch_ids(b).len() implies #[trigger] batch_ids(b)[i] < q.last().id by {
            assert(batch_ids(b)[i] == b[i].id);
            if i < b.len() - 1 {
                assert(b[i].id < b[b.len() - 1].id);
            }
        }
    }
}

/// Delivering settles exactly one event: a pending event, when a history id is left, leaves
/// the queue (no pending event keeps its id, the others stay in order) and joins the delivered
/// history with its kind, payload and creation time, delivered at `now`; when no history id is
/// left the delivery is refused and nothing changes; an id that is not pending changes nothing.
pub proof fn law_delivery_settles_one_event(before: State, after: State, id: i64, now: i64, r: Result<(), StateError>)
    requires
        before.inv(),
        event_delivered(before, after, id, now, r),
    ensures
        match queued_index(before.queued(), id) {
            None => r is Ok && same_state(after, before),
            Some(i) => if next_history_id(before.history()) <= i64::MAX {
                &&& r is Ok
                &&& after.queued() == before.queued().remove(i)
                &&& forall|j: int| 0 <= j < after.queued().len() ==> #[trigger] after.queued()[j].id != id
                &&& after.history().last().kind == before.queued()[i].kind
                &&& after.history().last().payload == before.queued()[i].payload
                &&& after.history().last().created_at == before.queued()[i].created_at
                &&& after.history().last().delivered_at == now
                &&& after.history().drop_last() == before.history()
            } else {
                r == Err::<(), StateError>(StateError::IdSpaceExhausted) && same_state(after, before)
            },
        },
{
    if let Some(i) = queued_index(before.queued(), id) {
        if next_history_id(before.history()) <= i64::MAX {
            let b = before.queued();
            assert(b[i].id == id);
            assert(after.history().drop_last() =~= before.history());
            assert forall|j: int| 0 <= j < after.queued().len() implies #[trigger] after.queued()[j].id != id by {
                if j < i {
                    assert(after.queued()[j] == b[j]);
                    assert(b[j].id < b[i].id);
                } else {
                    assert(after.queued()[j] == b[j + 1]);
                    assert(b[i].id < b[j + 1].id);
                }
            }
        }
    }
}

/// A failed delivery keeps the event pending: it stays in its place with its id, kind,
/// payload and creation time, one more attempt is counted (saturating), the number of pending
/// events is unchanged, and the error becomes the runtime's last error.
pub proof fn law_failed_delivery_keeps_event(before: State, after: State, id: i64, error: Seq<char>, i: int)
    requires
        failure_recorded(before, after, id, error),
        queued_index(before.queued(), id) == Some(i),
    ensures
        after.queued().len() == before.queued().len(),
        after.queued()[i].id == id,
        after.queued()[i].kind == before.queued()[i].kind,
        after.queued()[i].payload == before.queued()[i].payload,
        after.queued()[i].created_at == before.queued()[i].created_at,
        after.queued()[i].attempts == if before.queued()[i].attempts == i64::MAX { i64::MAX } else {
            (before.queued()[i].attempts + 1) as i64
        },
        meta_get(after.meta(), "last_error"@) == Some(error),
{
    assert(before.queued()[i].id == id);
}

} // verus!
