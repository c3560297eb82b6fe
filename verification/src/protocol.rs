use vstd::prelude::*;
use crate::json::{
    as_text, check_known_keys, field, field_type_message, fields_view, first_unknown_key, items_view, keys_within,
    lemma_fields_view_append, lemma_fields_view_push, lemma_first_unknown_key_none, lemma_items_view_index, lookup,
    missing_field_message, string_field, string_field_error, unknown_field_message, JsonValue, JsonView,
};
use crate::text::text;

verus! {

/// The protocol version this runtime speaks.
pub const VERSION: &'static str = "v1";

/// The 32 lower-case hexadecimal digits of a 128-bit value, most significant first.
pub open spec fn hex32(id: u128) -> Seq<char> {
    Seq::new(32, |i: int| crate::text::hex_digit_char(
        ((id as int / vstd::arithmetic::power::pow(16, (31 - i) as nat)) % 16) as nat))
}

/// The hyphenated lower-case text of a UUID, as `uuid::Uuid`'s `Display` writes it: its 32
/// hexadecimal digits (the value's bytes in big-endian order) in groups of 8, 4, 4, 4 and 12.
pub open spec fn uuid_hyphenated(id: u128) -> Seq<char> {
    let h = hex32(id);
    h.subrange(0, 8) + seq!['-'] + h.subrange(8, 12) + seq!['-'] + h.subrange(12, 16) + seq!['-']
        + h.subrange(16, 20) + seq!['-'] + h.subrange(20, 32)
}

/// What `uuid::Uuid::parse_str` makes of a text: the UUID's value, or nothing when the text
/// is no UUID.
pub uninterp spec fn uuid_parsed(text: Seq<char>) -> Option<u128>;

/// Writes a UUID given by its 128-bit value; calls `Uuid::from_u128` and its hyphenated
/// `Display`. Claims that the text is the hyphenated lower-case hexadecimal form of the value
/// and that `Uuid::parse_str` reads it back as the same value, as the crate documents.
#[verifier::external_body]
pub(crate) fn uuid_text(id: u128) -> (out: String)
    ensures
        out@ == uuid_hyphenated(id),
        uuid_parsed(out@) == Some(id),
{
    uuid::Uuid::from_u128(id).hyphenated().to_string()
}

/// Reads a UUID from text; calls `Uuid::parse_str`. Claims that the outcome is a function of
/// the text.
#[verifier::external_body]
pub(crate) fn parse_uuid(s: &str) -> (r: Option<u128>)
    ensures
        r == uuid_parsed(s@),
{
    match uuid::Uuid::parse_str(s) {
        Ok(id) => Some(id.as_u128()),
        Err(_) => None,
    }
}

/// Why a message was refused.
#[derive(Debug)]
pub enum ProtocolError {
    /// The message carried another protocol version.
    UnsupportedVersion(String),
}

impl ProtocolError {
    /// The error's text.
    pub fn message(&self) -> (m: String)
        ensures
            match self {
                ProtocolError::UnsupportedVersion(v) => m@ == "unsupported protocol version: "@ + v@,
            },
    {
        match self {
            ProtocolError::UnsupportedVersion(v) => {
                proof {
                    reveal_strlit("unsupported protocol version: ");
                }
                crate::text::joined("unsupported protocol version: ", v.as_str())
            },
        }
    }
}

/// A message of the protocol: its version, a unique message id, when it was sent (RFC 3339),
/// and the body whose fields sit beside these.
#[derive(Debug)]
pub struct Envelope<T> {
    pub protocol_version: String,
    pub message_id: u128,
    pub sent_at: String,
    pub body: T,
}

impl<T> Envelope<T> {
    /// A new message of this protocol version, with a fresh random id and the current time;
    /// fails only when the clock or the system's randomness is unavailable.
    pub fn new(body: T) -> (r: Result<Self, crate::clock::StampError>)
        ensures
            match r {
                Ok(e) => {
                    &&& e.protocol_version@ == VERSION@
                    &&& e.body == body
                    &&& crate::clock::clock_text(e.sent_at@)
                    &&& exists|bits: u128| e.message_id == crate::clock::uuid_v4_from(bits)
                },
                Err(e) => e == crate::clock::StampError::ClockUnavailable
                    || e == crate::clock::StampError::RandomnessUnavailable,
            },
    {
        let message_id = match crate::clock::new_message_id() {
            Ok(id) => id,
            Err(e) => return Err(e),
        };
        let moment = match crate::clock::now() {
            Ok(m) => m,
            Err(e) => return Err(e),
        };
        Ok(Envelope { protocol_version: text(VERSION), message_id, sent_at: moment.rfc3339, body })
    }

    /// Accepts only messages of this protocol version.
    pub fn validate_version(&self) -> (r: Result<(), ProtocolError>)
        ensures
            r is Ok <==> self.protocol_version@ == VERSION@,
            r matches Err(ProtocolError::UnsupportedVersion(v)) ==> v@ == self.protocol_version@,
    {
        if crate::text::same_text(self.protocol_version.as_str(), VERSION) {
            Ok(())
        } else {
            Err(ProtocolError::UnsupportedVersion(self.protocol_version.clone()))
        }
    }
}

/// A body whose fields can be written into a JSON object.
pub trait JsonBody {
    /// The body's fields as JSON.
    spec fn body_view(&self) -> Seq<(Seq<char>, JsonView)>;

    /// Writes the body's fields.
    fn body_fields(&self) -> (r: Vec<(String, JsonValue)>)
        ensures
            fields_view(r@) == self.body_view();
}

/// The JSON object of an envelope: its header fields followed by the body's fields.
pub open spec fn envelope_view(version: Seq<char>, message_id: u128, sent_at: Seq<char>, body: Seq<(Seq<char>, JsonView)>) -> JsonView {
    JsonView::Object(seq![
        ("protocol_version"@, JsonView::Text(version)),
        ("message_id"@, JsonView::Text(uuid_hyphenated(message_id))),
        ("sent_at"@, JsonView::Text(sent_at)),
    ] + body)
}

impl<T: JsonBody> Envelope<T> {
    /// The envelope as a JSON object.
    pub fn to_json(&self) -> (v: JsonValue)
        ensures
            v@ == envelope_view(self.protocol_version@, self.message_id, self.sent_at@, self.body.body_view()),
    {
        let mut fields: Vec<(String, JsonValue)> = Vec::new();
        let f0 = field("protocol_version", JsonValue::Text(self.protocol_version.clone()));
        let f1 = field("message_id", JsonValue::Text(uuid_text(self.message_id)));
        let f2 = field("sent_at", JsonValue::Text(self.sent_at.clone()));
        proof {
            lemma_fields_view_push(fields@, f0);
        }
        fields.push(f0);
        proof {
            lemma_fields_view_push(fields@, f1);
        }
        fields.push(f1);
        proof {
            lemma_fields_view_push(fields@, f2);
        }
        fields.push(f2);
        let ghost head = fields@;
        let mut body = self.body.body_fields();
        let ghost tail = body@;
        fields.append(&mut body);
        proof {
            lemma_fields_view_append(head, tail);
            assert(fields_view(Seq::<(String, JsonValue)>::empty()) =~= Seq::<(Seq<char>, JsonView)>::empty());
            reveal_strlit("protocol_version");
            reveal_strlit("message_id");
            reveal_strlit("sent_at");
            assert(fields_view(head) =~= seq![
                ("protocol_version"@, JsonView::Text(self.protocol_version@)),
                ("message_id"@, JsonView::Text(uuid_hyphenated(self.message_id))),
                ("sent_at"@, JsonView::Text(self.sent_at@)),
            ]);
        }
        JsonValue::Object(fields)
    }
}

/// A list of texts as a JSON array of strings.
pub open spec fn text_list_view(items: Seq<String>) -> JsonView {
    JsonView::Array(items.map_values(|t: String| JsonView::Text(t@)))
}

fn text_list(items: &Vec<String>) -> (v: JsonValue)
    ensures
        v@ == text_list_view(items@),
{
    let mut out: Vec<JsonValue> = Vec::new();
    let mut i: usize = 0;
    while i < items.len()
        invariant
            i <= items@.len(),
            out@.len() == i,
            forall|j: int| 0 <= j < i ==> #[trigger] out@[j]@ == JsonView::Text(items@[j]@),
        decreases items.len() - i,
    {
        out.push(JsonValue::Text(items[i].clone()));
        i = i + 1;
    }
    proof {
        crate::json::lemma_items_view_index(out@);
        assert forall|j: int| 0 <= j < out@.len() implies #[trigger] items_view(out@)[j] == items@.map_values(|t: String| JsonView::Text(t@))[j] by {
            assert(items_view(out@)[j] == crate::json::json_view(out@[j]));
            assert(out@[j]@ == crate::json::json_view(out@[j]));
        }
        assert(items_view(out@) =~= items@.map_values(|t: String| JsonView::Text(t@)));
    }
    JsonValue::Array(out)
}

/// Enrollment request body: the runtime's name and the capabilities it offers.
#[derive(Debug)]
pub struct Registration {
    pub runtime_name: String,
    pub capabilities: Vec<String>,
}

/// Heartbeat body: the capabilities the runtime offers.
#[derive(Debug)]
pub struct Heartbeat {
    pub capabilities: Vec<String>,
}

/// A command leased to this runtime.
#[derive(Debug)]
pub struct Command {
    pub command_id: u128,
    pub instruction: JsonValue,
    pub lease_token: Option<u128>,
    pub lease_expires_at: Option<String>,
}

/// Acknowledgement body: the command it refers to.
#[derive(Debug)]
pub struct CommandRef {
    pub command_id: u128,
}

/// Progress body.
#[derive(Debug)]
pub struct Progress {
    pub command_id: u128,
    pub progress: JsonValue,
}

/// Terminal success body.
#[derive(Debug)]
pub struct ResultEvent {
    pub command_id: u128,
    pub result: JsonValue,
}

/// Terminal failure body.
#[derive(Debug)]
pub struct ErrorEvent {
    pub command_id: u128,
    pub error: ErrorBody,
}

/// What went wrong: a machine-readable code and further details beside it.
#[derive(Debug)]
pub struct ErrorBody {
    pub code: String,
    pub details: Vec<(String, JsonValue)>,
}

/// The commands handed out by one poll.
#[derive(Debug)]
pub struct CommandCollection {
    pub protocol_version: String,
    pub commands: Vec<Envelope<Command>>,
}

/// The control plane's answer to an enrollment.
#[derive(Debug)]
pub struct RegistrationResponse {
    pub runtime_id: u128,
    pub runtime_secret: String,
    pub protocol_version: String,
}

/// The JSON field holding a command id.
pub open spec fn command_id_field(id: u128) -> (Seq<char>, JsonView) {
    ("command_id"@, JsonView::Text(uuid_hyphenated(id)))
}

fn command_id_entry(id: u128) -> (f: (String, JsonValue))
    ensures
        f.0@ == command_id_field(id).0,
        f.1@ == command_id_field(id).1,
{
    proof {
        reveal_strlit("command_id");
    }
    field("command_id", JsonValue::Text(uuid_text(id)))
}

proof fn lemma_two_fields(a: (String, JsonValue), b: (String, JsonValue))
    ensures
        fields_view(seq![a, b]) == seq![(a.0@, a.1@), (b.0@, b.1@)],
{
    lemma_fields_view_push(Seq::<(String, JsonValue)>::empty(), a);
    lemma_fields_view_push(seq![a], b);
    assert(Seq::<(String, JsonValue)>::empty().push(a) =~= seq![a]);
    assert(seq![a].push(b) =~= seq![a, b]);
    assert(fields_view(Seq::<(String, JsonValue)>::empty()) =~= Seq::<(Seq<char>, JsonView)>::empty());
}

impl JsonBody for CommandRef {
    open spec fn body_view(&self) -> Seq<(Seq<char>, JsonView)> {
        seq![command_id_field(self.command_id)]
    }

    fn body_fields(&self) -> (r: Vec<(String, JsonValue)>) {
        let f = command_id_entry(self.command_id);
        let mut r: Vec<(String, JsonValue)> = Vec::new();
        proof {
            lemma_fields_view_push(r@, f);
            assert(fields_view(Seq::<(String, JsonValue)>::empty()) =~= Seq::<(Seq<char>, JsonView)>::empty());
        }
        r.push(f);
        proof {
            assert(fields_view(r@) =~= seq![command_id_field(self.command_id)]);
        }
        r
    }
}

impl JsonBody for Progress {
    open spec fn body_view(&self) -> Seq<(Seq<char>, JsonView)> {
        seq![command_id_field(self.command_id), ("progress"@, self.progress@)]
    }

    fn body_fields(&self) -> (r: Vec<(String, JsonValue)>) {
        let a = command_id_entry(self.command_id);
        let b = field("progress", self.progress.clone());
        proof {
            reveal_strlit("progress");
            lemma_two_fields(a, b);
        }
        let r = vec![a, b];
        proof {
            assert(r@ =~= seq![a, b]);
            assert(fields_view(r@) =~= self.body_view());
        }
        r
    }
}

impl JsonBody for ResultEvent {
    open spec fn body_view(&self) -> Seq<(Seq<char>, JsonView)> {
        seq![command_id_field(self.command_id), ("result"@, self.result@)]
    }

    fn body_fields(&self) -> (r: Vec<(String, JsonValue)>) {
        let a = command_id_entry(self.command_id);
        let b = field("result", self.result.clone());
        proof {
            reveal_strlit("result");
            lemma_two_fields(a, b);
        }
        let r = vec![a, b];
        proof {
            assert(r@ =~= seq![a, b]);
            assert(fields_view(r@) =~= self.body_view());
        }
        r
    }
}

impl ErrorBody {
    /// The error body as JSON: `code` beside the details.
    pub open spec fn view_fields(&self) -> Seq<(Seq<char>, JsonView)> {
        seq![("code"@, JsonView::Text(self.code@))] + fields_view(self.details@)
    }

    /// The error body as a JSON object.
    pub fn to_json(&self) -> (v: JsonValue)
        ensures
            v@ == JsonView::Object(self.view_fields()),
    {
        let mut fields: Vec<(String, JsonValue)> = Vec::new();
        let c = field("code", JsonValue::Text(self.code.clone()));
        proof {
            lemma_fields_view_push(fields@, c);
            assert(fields_view(Seq::<(String, JsonValue)>::empty()) =~= Seq::<(Seq<char>, JsonView)>::empty());
            reveal_strlit("code");
        }
        fields.push(c);
        let ghost head = fields@;
        let mut i: usize = 0;
        while i < self.details.len()
            invariant
                i <= self.details@.len(),
                head.len() == 1,
                fields_view(head) == seq![("code"@, JsonView::Text(self.code@))],
                fields_view(fields@) == fields_view(head) + fields_view(self.details@.take(i as int)),
            decreases self.details.len() - i,
        {
            let d = (self.details[i].0.clone(), self.details[i].1.clone());
            proof {
                lemma_fields_view_push(fields@, d);
                lemma_fields_view_push(self.details@.take(i as int), self.details@[i as int]);
                assert(self.details@.take(i as int).push(self.details@[i as int]) =~= self.details@.take(i + 1));
            }
            fields.push(d);
            i = i + 1;
        }
        proof {
            assert(self.details@.take(self.details@.len() as int) =~= self.details@);
        }
        JsonValue::Object(fields)
    }
}

impl JsonBody for ErrorEvent {
    open spec fn body_view(&self) -> Seq<(Seq<char>, JsonView)> {
        seq![command_id_field(self.command_id), ("error"@, JsonView::Object(self.error.view_fields()))]
    }

    fn body_fields(&self) -> (r: Vec<(String, JsonValue)>) {
        let a = command_id_entry(self.command_id);
        let b = field("error", self.error.to_json());
        proof {
            reveal_strlit("error");
            lemma_two_fields(a, b);
        }
        let r = vec![a, b];
        proof {
            assert(r@ =~= seq![a, b]);
            assert(fields_view(r@) =~= self.body_view());
        }
        r
    }
}

/// Whether `chrono` reads a text as a UTC timestamp (`DateTime<Utc>`'s `FromStr`).
pub uninterp spec fn timestamp_accepted(text: Seq<char>) -> bool;

/// Checks a timestamp's text; calls `str::parse::<chrono::DateTime<chrono::Utc>>`.
/// Claims that the outcome is a function of the text.
#[verifier::external_body]
fn accepts_timestamp(t: &str) -> (ok: bool)
    ensures
        ok == timestamp_accepted(t@),
{
    t.parse::<chrono::DateTime<chrono::Utc>>().is_ok()
}

/// A required UUID field: present, a string, and a UUID.
pub open spec fn uuid_of(v: Option<JsonView>) -> Option<u128> {
    match as_text(v) {
        Some(t) => uuid_parsed(t),
        None => None,
    }
}

/// An optional UUID field: absent or null gives none; otherwise it must be a UUID string.
/// `None` when malformed.
pub open spec fn optional_uuid_of(v: Option<JsonView>) -> Option<Option<u128>> {
    match v {
        None => Some(None),
        Some(JsonView::Null) => Some(None),
        Some(JsonView::Text(t)) => match uuid_parsed(t) {
            Some(u) => Some(Some(u)),
            None => None,
        },
        _ => None,
    }
}

/// A required timestamp field: present, a string, and a timestamp.
pub open spec fn timestamp_of(v: Option<JsonView>) -> Option<Seq<char>> {
    match as_text(v) {
        Some(t) => if timestamp_accepted(t) { Some(t) } else { None },
        None => None,
    }
}

/// An optional timestamp field: absent or null gives none. `None` when malformed.
pub open spec fn optional_timestamp_of(v: Option<JsonView>) -> Option<Option<Seq<char>>> {
    match v {
        None => Some(None),
        Some(JsonView::Null) => Some(None),
        Some(JsonView::Text(t)) => if timestamp_accepted(t) { Some(Some(t)) } else { None },
        _ => None,
    }
}

/// The message for a string field whose text is no UUID.
pub open spec fn invalid_uuid_message(key: Seq<char>) -> Seq<char> {
    "invalid UUID in field `"@ + key + "`"@
}

/// The message for a string field whose text is no timestamp.
pub open spec fn invalid_timestamp_message(key: Seq<char>) -> Seq<char> {
    "invalid timestamp in field `"@ + key + "`"@
}

/// The message reported when a required UUID field is malformed.
pub open spec fn uuid_error(fs: Seq<(Seq<char>, JsonView)>, key: Seq<char>) -> Seq<char> {
    if as_text(lookup(fs, key)) is Some { invalid_uuid_message(key) } else { string_field_error(fs, key) }
}

/// The message reported when an optional UUID field is malformed.
pub open spec fn optional_uuid_error(fs: Seq<(Seq<char>, JsonView)>, key: Seq<char>) -> Seq<char> {
    if as_text(lookup(fs, key)) is Some { invalid_uuid_message(key) } else { field_type_message(key, "a UUID string"@) }
}

/// The message reported when a required timestamp field is malformed.
pub open spec fn timestamp_error(fs: Seq<(Seq<char>, JsonView)>, key: Seq<char>) -> Seq<char> {
    if as_text(lookup(fs, key)) is Some { invalid_timestamp_message(key) } else { string_field_error(fs, key) }
}

/// The message reported when an optional timestamp field is malformed.
pub open spec fn optional_timestamp_error(fs: Seq<(Seq<char>, JsonView)>, key: Seq<char>) -> Seq<char> {
    if as_text(lookup(fs, key)) is Some {
        invalid_timestamp_message(key)
    } else {
        field_type_message(key, "a timestamp string"@)
    }
}

/// The plain content of a command envelope.
pub struct CommandShape {
    pub protocol_version: Seq<char>,
    pub message_id: u128,
    pub sent_at: Seq<char>,
    pub command_id: u128,
    pub instruction: JsonView,
    pub lease_token: Option<u128>,
    pub lease_expires_at: Option<Seq<char>>,
}

/// The keys a command envelope may hold.
pub open spec fn command_envelope_keys() -> Seq<Seq<char>> {
    seq!["protocol_version"@, "message_id"@, "sent_at"@, "command_id"@, "instruction"@, "lease_token"@, "lease_expires_at"@]
}

/// The content of a command envelope in JSON; `None` when it has an unknown field, misses a
/// required one, or holds a value of the wrong type.
pub open spec fn command_envelope_shape(v: JsonView) -> Option<CommandShape> {
    match v {
        JsonView::Object(fs) => {
            if keys_within(fs, command_envelope_keys())
                && as_text(lookup(fs, "protocol_version"@)) is Some
                && uuid_of(lookup(fs, "message_id"@)) is Some
                && timestamp_of(lookup(fs, "sent_at"@)) is Some
                && uuid_of(lookup(fs, "command_id"@)) is Some
                && lookup(fs, "instruction"@) is Some
                && optional_uuid_of(lookup(fs, "lease_token"@)) is Some
                && optional_timestamp_of(lookup(fs, "lease_expires_at"@)) is Some {
                Some(CommandShape {
                    protocol_version: as_text(lookup(fs, "protocol_version"@))->0,
                    message_id: uuid_of(lookup(fs, "message_id"@))->0,
                    sent_at: timestamp_of(lookup(fs, "sent_at"@))->0,
                    command_id: uuid_of(lookup(fs, "command_id"@))->0,
                    instruction: lookup(fs, "instruction"@)->0,
                    lease_token: optional_uuid_of(lookup(fs, "lease_token"@))->0,
                    lease_expires_at: optional_timestamp_of(lookup(fs, "lease_expires_at"@))->0,
                })
            } else {
                None
            }
        },
        _ => None,
    }
}

/// The message reported for a command envelope that does not have the right shape: the first
/// unknown key, else the first field, in the order of the schema, that is malformed.
pub open spec fn command_envelope_error(v: JsonView) -> Seq<char> {
    match v {
        JsonView::Object(fs) => match first_unknown_key(fs, command_envelope_keys()) {
            Some(k) => unknown_field_message(k, command_envelope_keys()),
            None => if as_text(lookup(fs, "protocol_version"@)) is None {
                string_field_error(fs, "protocol_version"@)
            } else if uuid_of(lookup(fs, "message_id"@)) is None {
                uuid_error(fs, "message_id"@)
            } else if timestamp_of(lookup(fs, "sent_at"@)) is None {
                timestamp_error(fs, "sent_at"@)
            } else if uuid_of(lookup(fs, "command_id"@)) is None {
                uuid_error(fs, "command_id"@)
            } else if lookup(fs, "instruction"@) is None {
                missing_field_message("instruction"@)
            } else if optional_uuid_of(lookup(fs, "lease_token"@)) is None {
                optional_uuid_error(fs, "lease_token"@)
            } else {
                optional_timestamp_error(fs, "lease_expires_at"@)
            },
        },
        _ => "invalid type: expected an object"@,
    }
}

/// The plain content of a command envelope value.
pub open spec fn command_envelope_view(e: Envelope<Command>) -> CommandShape {
    CommandShape {
        protocol_version: e.protocol_version@,
        message_id: e.message_id,
        sent_at: e.sent_at@,
        command_id: e.body.command_id,
        instruction: e.body.instruction@,
        lease_token: e.body.lease_token,
        lease_expires_at: match e.body.lease_expires_at {
            Some(t) => Some(t@),
            None => None,
        },
    }
}

/// A message that does not have the shape the protocol prescribes.
#[derive(Debug)]
pub struct DecodeError {
    pub message: String,
}

fn decode_error(m: &str) -> (e: DecodeError)
    ensures
        e.message@ == m@,
{
    DecodeError { message: text(m) }
}

fn uuid_field(value: &JsonValue, key: &str) -> (r: Result<u128, DecodeError>)
    requires
        value@ is Object,
    ensures
        match r {
            Ok(u) => uuid_of(lookup(value@->Object_0, key@)) == Some(u),
            Err(e) => uuid_of(lookup(value@->Object_0, key@)) is None
                && e.message@ == uuid_error(value@->Object_0, key@),
        },
{
    proof {
        reveal_strlit("invalid UUID in field `");
        reveal_strlit("`");
    }
    let t = match string_field(value, key) {
        Ok(t) => t,
        Err(m) => return Err(DecodeError { message: m }),
    };
    match parse_uuid(t.as_str()) {
        Some(u) => Ok(u),
        None => {
            let a = crate::text::joined("invalid UUID in field `", key);
            Err(DecodeError { message: crate::text::joined(a.as_str(), "`") })
        },
    }
}

fn optional_uuid_field(value: &JsonValue, key: &str) -> (r: Result<Option<u128>, DecodeError>)
    requires
        value@ is Object,
    ensures
        match r {
            Ok(u) => optional_uuid_of(lookup(value@->Object_0, key@)) == Some(u),
            Err(e) => optional_uuid_of(lookup(value@->Object_0, key@)) is None
                && e.message@ == optional_uuid_error(value@->Object_0, key@),
        },
{
    proof {
        reveal_strlit("invalid UUID in field `");
        reveal_strlit("`");
        reveal_strlit("invalid type for field `");
        reveal_strlit("`: expected ");
        reveal_strlit("a UUID string");
        reveal_strlit("`: expected a UUID string");
    }
    match value.get(key) {
        None => Ok(None),
        Some(JsonValue::Null) => Ok(None),
        Some(JsonValue::Text(t)) => match parse_uuid(t.as_str()) {
            Some(u) => Ok(Some(u)),
            None => {
                let a = crate::text::joined("invalid UUID in field `", key);
                Err(DecodeError { message: crate::text::joined(a.as_str(), "`") })
            },
        },
        Some(_) => {
            let a = crate::text::joined("invalid type for field `", key);
            let m = crate::text::joined(a.as_str(), "`: expected a UUID string");
            assert(m@ =~= field_type_message(key@, "a UUID string"@));
            Err(DecodeError { message: m })
        },
    }
}

fn timestamp_field(value: &JsonValue, key: &str) -> (r: Result<String, DecodeError>)
    requires
        value@ is Object,
    ensures
        match r {
            Ok(t) => timestamp_of(lookup(value@->Object_0, key@)) == Some(t@),
            Err(e) => timestamp_of(lookup(value@->Object_0, key@)) is None
                && e.message@ == timestamp_error(value@->Object_0, key@),
        },
{
    proof {
        reveal_strlit("invalid timestamp in field `");
        reveal_strlit("`");
    }
    let t = match string_field(value, key) {
        Ok(t) => t,
        Err(m) => return Err(DecodeError { message: m }),
    };
    if accepts_timestamp(t.as_str()) {
        Ok(t)
    } else {
        let a = crate::text::joined("invalid timestamp in field `", key);
        Err(DecodeError { message: crate::text::joined(a.as_str(), "`") })
    }
}

fn optional_timestamp_field(value: &JsonValue, key: &str) -> (r: Result<Option<String>, DecodeError>)
    requires
        value@ is Object,
    ensures
        match r {
            Ok(t) => optional_timestamp_of(lookup(value@->Object_0, key@)) == Some(match t { Some(x) => Some(x@), None => None }),
            Err(e) => optional_timestamp_of(lookup(value@->Object_0, key@)) is None
                && e.message@ == optional_timestamp_error(value@->Object_0, key@),
        },
{
    proof {
        reveal_strlit("invalid timestamp in field `");
        reveal_strlit("`");
        reveal_strlit("invalid type for field `");
        reveal_strlit("`: expected ");
        reveal_strlit("a timestamp string");
        reveal_strlit("`: expected a timestamp string");
    }
    match value.get(key) {
        None => Ok(None),
        Some(JsonValue::Null) => Ok(None),
        Some(JsonValue::Text(t)) => {
            if accepts_timestamp(t.as_str()) {
                Ok(Some(t.clone()))
            } else {
                let a = crate::text::joined("invalid timestamp in field `", key);
                Err(DecodeError { message: crate::text::joined(a.as_str(), "`") })
            }
        },
        Some(_) => {
            let a = crate::text::joined("invalid type for field `", key);
            let m = crate::text::joined(a.as_str(), "`: expected a timestamp string");
            assert(m@ =~= field_type_message(key@, "a timestamp string"@));
            Err(DecodeError { message: m })
        },
    }
}

fn is_object(value: &JsonValue) -> (b: bool)
    ensures
        b == value@ is Object,
{
    match value {
        JsonValue::Object(_) => true,
        _ => false,
    }
}

/// Reads a command envelope from JSON, refusing unknown fields, missing required fields and
/// values of the wrong type. The protocol version is read, not checked.
pub fn decode_command_envelope(value: &JsonValue) -> (r: Result<Envelope<Command>, DecodeError>)
    ensures
        r is Ok <==> command_envelope_shape(value@) is Some,
        r matches Ok(e) ==> command_envelope_shape(value@) == Some(command_envelope_view(e)),
        r matches Err(e) ==> e.message@ == command_envelope_error(value@),
{
    proof {
        reveal_strlit("invalid type: expected an object");
        reveal_strlit("missing field `");
        reveal_strlit("`");
        reveal_strlit("missing field `instruction`");
        reveal_strlit("protocol_version");
        reveal_strlit("message_id");
        reveal_strlit("sent_at");
        reveal_strlit("command_id");
        reveal_strlit("instruction");
        reveal_strlit("lease_token");
        reveal_strlit("lease_expires_at");
    }
    if !is_object(value) {
        return Err(decode_error("invalid type: expected an object"));
    }
    let allowed: [&str; 7] = ["protocol_version", "message_id", "sent_at", "command_id", "instruction", "lease_token", "lease_expires_at"];
    proof {
        assert(allowed@.map_values(|a: &str| a@) =~= command_envelope_keys());
    }
    match check_known_keys(value, allowed.as_slice()) {
        Err(m) => return Err(DecodeError { message: m }),
        Ok(()) => {},
    }
    proof { lemma_first_unknown_key_none(value@->Object_0, command_envelope_keys()); }
    let protocol_version = match string_field(value, "protocol_version") {
        Ok(v) => v,
        Err(m) => return Err(DecodeError { message: m }),
    };
    let message_id = match uuid_field(value, "message_id") {
        Ok(u) => u,
        Err(e) => return Err(e),
    };
    let sent_at = match timestamp_field(value, "sent_at") {
        Ok(t) => t,
        Err(e) => return Err(e),
    };
    let command_id = match uuid_field(value, "command_id") {
        Ok(u) => u,
        Err(e) => return Err(e),
    };
    let instruction = match value.get("instruction") {
        Some(i) => i.clone(),
        None => {
            assert("missing field `instruction`"@ =~= missing_field_message("instruction"@));
            return Err(decode_error("missing field `instruction`"));
        },
    };
    let lease_token = match optional_uuid_field(value, "lease_token") {
        Ok(u) => u,
        Err(e) => return Err(e),
    };
    let lease_expires_at = match optional_timestamp_field(value, "lease_expires_at") {
        Ok(t) => t,
        Err(e) => return Err(e),
    };
    let e = Envelope {
        protocol_version,
        message_id,
        sent_at,
        body: Command { command_id, instruction, lease_token, lease_expires_at },
    };
    proof {
        assert(command_envelope_shape(value@) == Some(command_envelope_view(e)));
    }
    Ok(e)
}

/// The keys a command collection may hold.
pub open spec fn collection_keys() -> Seq<Seq<char>> {
    seq!["protocol_version"@, "commands"@]
}

/// The content of a command collection in JSON: its version and the shapes of its command
/// envelopes, in order; `None` when it or any command in it is malformed.
pub open spec fn collection_shape(v: JsonView) -> Option<(Seq<char>, Seq<CommandShape>)> {
    match v {
        JsonView::Object(fs) => match lookup(fs, "commands"@) {
            Some(JsonView::Array(items)) => {
                if keys_within(fs, collection_keys())
                    && as_text(lookup(fs, "protocol_version"@)) is Some
                    && forall|i: int| 0 <= i < items.len() ==> #[trigger] command_envelope_shape(items[i]) is Some {
                    Some((
                        as_text(lookup(fs, "protocol_version"@))->0,
                        items.map_values(|c: JsonView| command_envelope_shape(c)->0),
                    ))
                } else {
                    None
                }
            },
            _ => None,
        },
        _ => None,
    }
}

/// The message of the first malformed command envelope among `items`.
pub open spec fn first_command_error(items: Seq<JsonView>) -> Option<Seq<char>>
    decreases items.len(),
{
    if items.len() == 0 {
        None
    } else if command_envelope_shape(items[0]) is None {
        Some(command_envelope_error(items[0]))
    } else {
        first_command_error(items.drop_first())
    }
}

/// The first malformed envelope is the one at the first index whose shape is wrong.
pub proof fn lemma_first_command_error_at(items: Seq<JsonView>, i: int)
    requires
        0 <= i < items.len(),
        command_envelope_shape(items[i]) is None,
        forall|j: int| 0 <= j < i ==> command_envelope_shape(#[trigger] items[j]) is Some,
    ensures
        first_command_error(items) == Some(command_envelope_error(items[i])),
    decreases i,
{
    if i > 0 {
        assert(command_envelope_shape(items[0]) is Some);
        assert forall|j: int| 0 <= j < i - 1 implies command_envelope_shape(#[trigger] items.drop_first()[j]) is Some by {
            assert(items.drop_first()[j] == items[j + 1]);
        }
        lemma_first_command_error_at(items.drop_first(), i - 1);
    }
}

/// The message reported for a command collection that does not have the right shape: the
/// first unknown key, else a malformed version or command list, else the first malformed
/// command envelope.
pub open spec fn collection_error(v: JsonView) -> Seq<char> {
    match v {
        JsonView::Object(fs) => match first_unknown_key(fs, collection_keys()) {
            Some(k) => unknown_field_message(k, collection_keys()),
            None => if as_text(lookup(fs, "protocol_version"@)) is None {
                string_field_error(fs, "protocol_version"@)
            } else {
                match lookup(fs, "commands"@) {
                    Some(JsonView::Array(items)) => match first_command_error(items) {
                        Some(m) => m,
                        None => Seq::empty(),
                    },
                    Some(_) => field_type_message("commands"@, "an array"@),
                    None => missing_field_message("commands"@),
                }
            },
        },
        _ => "invalid type: expected an object"@,
    }
}

/// Reads a command collection from JSON, refusing unknown fields anywhere in it.
pub fn decode_command_collection(value: &JsonValue) -> (r: Result<CommandCollection, DecodeError>)
    ensures
        r is Ok <==> collection_shape(value@) is Some,
        r matches Ok(c) ==> collection_shape(value@) == Some((c.protocol_version@,
            c.commands@.map_values(|e: Envelope<Command>| command_envelope_view(e)))),
        r matches Err(e) ==> e.message@ == collection_error(value@),
{
    proof {
        reveal_strlit("invalid type: expected an object");
        reveal_strlit("missing field `");
        reveal_strlit("`");
        reveal_strlit("missing field `commands`");
        reveal_strlit("invalid type for field `");
        reveal_strlit("`: expected ");
        reveal_strlit("an array");
        reveal_strlit("invalid type for field `commands`: expected an array");
        reveal_strlit("protocol_version");
        reveal_strlit("commands");
    }
    if !is_object(value) {
        return Err(decode_error("invalid type: expected an object"));
    }
    let allowed: [&str; 2] = ["protocol_version", "commands"];
    proof {
        assert(allowed@.map_values(|a: &str| a@) =~= collection_keys());
    }
    match check_known_keys(value, allowed.as_slice()) {
        Err(m) => return Err(DecodeError { message: m }),
        Ok(()) => {},
    }
    proof { lemma_first_unknown_key_none(value@->Object_0, collection_keys()); }
    let protocol_version = match string_field(value, "protocol_version") {
        Ok(v) => v,
        Err(m) => return Err(DecodeError { message: m }),
    };
    let items = match value.get("commands") {
        Some(JsonValue::Array(items)) => items,
        Some(_) => {
            assert("invalid type for field `commands`: expected an array"@ =~= field_type_message("commands"@, "an array"@));
            return Err(decode_error("invalid type for field `commands`: expected an array"));
        },
        None => {
            assert("missing field `commands`"@ =~= missing_field_message("commands"@));
            return Err(decode_error("missing field `commands`"));
        },
    };
    proof {
        lemma_items_view_index(items@);
    }
    let ghost views = items_view(items@);
    assert(lookup(value@->Object_0, "commands"@) == Some(JsonView::Array(views)));
    let mut commands: Vec<Envelope<Command>> = Vec::new();
    let mut i: usize = 0;
    while i < items.len()
        invariant
            i <= items@.len(),
            views == items_view(items@),
            value@ is Object,
            first_unknown_key(value@->Object_0, collection_keys()) is None,
            as_text(lookup(value@->Object_0, "protocol_version"@)) is Some,
            lookup(value@->Object_0, "commands"@) == Some(JsonView::Array(views)),
            views.len() == items@.len(),
            forall|j: int| 0 <= j < items@.len() ==> #[trigger] views[j] == items@[j]@,
            commands@.len() == i,
            forall|j: int| 0 <= j < i ==> command_envelope_shape(#[trigger] views[j]) == Some(command_envelope_view(commands@[j])),
        decreases items.len() - i,
    {
        match decode_command_envelope(&items[i]) {
            Ok(e) => commands.push(e),
            Err(e) => {
                assert(command_envelope_shape(views[i as int]) is None);
                proof {
                    assert forall|j: int| 0 <= j < i implies command_envelope_shape(#[trigger] views[j]) is Some by {
                        assert(command_envelope_shape(views[j]) == Some(command_envelope_view(commands@[j])));
                    }
                    lemma_first_command_error_at(views, i as int);
                }
                return Err(e);
            },
        }
        i = i + 1;
    }
    let c = CommandCollection { protocol_version, commands };
    proof {
        assert(views.map_values(|v: JsonView| command_envelope_shape(v)->0)
            =~= c.commands@.map_values(|e: Envelope<Command>| command_envelope_view(e)));
    }
    Ok(c)
}

/// The keys an enrollment answer may hold.
pub open spec fn registration_response_keys() -> Seq<Seq<char>> {
    seq!["runtime_id"@, "runtime_secret"@, "protocol_version"@]
}

/// The content of an enrollment answer in JSON: runtime id, secret and version.
pub open spec fn registration_response_shape(v: JsonView) -> Option<(u128, Seq<char>, Seq<char>)> {
    match v {
        JsonView::Object(fs) => {
            if keys_within(fs, registration_response_keys())
                && uuid_of(lookup(fs, "runtime_id"@)) is Some
                && as_text(lookup(fs, "runtime_secret"@)) is Some
                && as_text(lookup(fs, "protocol_version"@)) is Some {
                Some((uuid_of(lookup(fs, "runtime_id"@))->0, as_text(lookup(fs, "runtime_secret"@))->0,
                    as_text(lookup(fs, "protocol_version"@))->0))
            } else {
                None
            }
        },
        _ => None,
    }
}

/// The message reported for an enrollment answer that does not have the right shape.
pub open spec fn registration_response_error(v: JsonView) -> Seq<char> {
    match v {
        JsonView::Object(fs) => match first_unknown_key(fs, registration_response_keys()) {
            Some(k) => unknown_field_message(k, registration_response_keys()),
            None => if uuid_of(lookup(fs, "runtime_id"@)) is None {
                uuid_error(fs, "runtime_id"@)
            } else if as_text(lookup(fs, "runtime_secret"@)) is None {
                string_field_error(fs, "runtime_secret"@)
            } else {
                string_field_error(fs, "protocol_version"@)
            },
        },
        _ => "invalid type: expected an object"@,
    }
}

/// Reads an enrollment answer from JSON, refusing unknown fields.
pub fn decode_registration_response(value: &JsonValue) -> (r: Result<RegistrationResponse, DecodeError>)
    ensures
        r is Ok <==> registration_response_shape(value@) is Some,
        r matches Ok(a) ==> registration_response_shape(value@) == Some((a.runtime_id, a.runtime_secret@, a.protocol_version@)),
        r matches Err(e) ==> e.message@ == registration_response_error(value@),
{
    proof {
        reveal_strlit("invalid type: expected an object");
        reveal_strlit("runtime_id");
        reveal_strlit("runtime_secret");
        reveal_strlit("protocol_version");
    }
    if !is_object(value) {
        return Err(decode_error("invalid type: expected an object"));
    }
    let allowed: [&str; 3] = ["runtime_id", "runtime_secret", "protocol_version"];
    proof {
        assert(allowed@.map_values(|a: &str| a@) =~= registration_response_keys());
    }
    match check_known_keys(value, allowed.as_slice()) {
        Err(m) => return Err(DecodeError { message: m }),
        Ok(()) => {},
    }
    proof { lemma_first_unknown_key_none(value@->Object_0, registration_response_keys()); }
    let runtime_id = match uuid_field(value, "runtime_id") {
        Ok(u) => u,
        Err(e) => return Err(e),
    };
    let runtime_secret = match string_field(value, "runtime_secret") {
        Ok(s) => s,
        Err(m) => return Err(DecodeError { message: m }),
    };
    let protocol_version = match string_field(value, "protocol_version") {
        Ok(v) => v,
        Err(m) => return Err(DecodeError { message: m }),
    };
    Ok(RegistrationResponse { runtime_id, runtime_secret, protocol_version })
}

impl JsonBody for Registration {
    open spec fn body_view(&self) -> Seq<(Seq<char>, JsonView)> {
        seq![("runtime_name"@, JsonView::Text(self.runtime_name@)), ("capabilities"@, text_list_view(self.capabilities@))]
    }

    fn body_fields(&self) -> (r: Vec<(String, JsonValue)>) {
        let a = field("runtime_name", JsonValue::Text(self.runtime_name.clone()));
        let b = field("capabilities", text_list(&self.capabilities));
        proof {
            reveal_strlit("runtime_name");
            reveal_strlit("capabilities");
            lemma_two_fields(a, b);
        }
        let r = vec![a, b];
        proof {
            assert(r@ =~= seq![a, b]);
            assert(fields_view(r@) =~= self.body_view());
        }
        r
    }
}

impl JsonBody for Heartbeat {
    open spec fn body_view(&self) -> Seq<(Seq<char>, JsonView)> {
        seq![("capabilities"@, text_list_view(self.capabilities@))]
    }

    fn body_fields(&self) -> (r: Vec<(String, JsonValue)>) {
        let a = field("capabilities", text_list(&self.capabilities));
        proof {
            reveal_strlit("capabilities");
        }
        let mut r: Vec<(String, JsonValue)> = Vec::new();
        proof {
            lemma_fields_view_push(r@, a);
            assert(fields_view(Seq::<(String, JsonValue)>::empty()) =~= Seq::<(Seq<char>, JsonView)>::empty());
        }
        r.push(a);
        proof {
            assert(fields_view(r@) =~= self.body_view());
        }
        r
    }
}

} // verus!
