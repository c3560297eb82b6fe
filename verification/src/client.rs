use vstd::prelude::*;
use crate::json::JsonValue;
use crate::protocol::{
    collection_error, collection_shape, command_envelope_view, decode_command_collection, decode_registration_response,
    registration_response_error, registration_response_shape, uuid_hyphenated, uuid_text, Command, CommandCollection,
    CommandShape, Envelope, ProtocolError, RegistrationResponse, VERSION,
};
use crate::text::{joined, same_text, text};

verus! {

/// An endpoint of the control plane's v1 API.
#[derive(Debug)]
pub enum Route {
    /// Enrollment.
    Register,
    /// Heartbeats.
    Heartbeat,
    /// Polling for commands.
    Commands,
    /// Delivery of a lifecycle event of the given kind.
    Event(String),
}

/// The path of an endpoint, relative to the control plane's root URL (fixed below the root,
/// with no leading slash).
pub open spec fn route_path_spec(r: Route) -> Seq<char> {
    match r {
        Route::Register => "api/v1/runtimes/register"@,
        Route::Heartbeat => "api/v1/runtime/heartbeat"@,
        Route::Commands => "api/v1/runtime/commands"@,
        Route::Event(kind) => "api/v1/runtime/events/"@ + kind@,
    }
}

/// The path of an endpoint below the control plane's root URL.
pub fn route_path(route: &Route) -> (p: String)
    ensures
        p@ == route_path_spec(*route),
{
    match route {
        Route::Register => {
            proof { reveal_strlit("api/v1/runtimes/register"); }
            text("api/v1/runtimes/register")
        },
        Route::Heartbeat => {
            proof { reveal_strlit("api/v1/runtime/heartbeat"); }
            text("api/v1/runtime/heartbeat")
        },
        Route::Commands => {
            proof { reveal_strlit("api/v1/runtime/commands"); }
            text("api/v1/runtime/commands")
        },
        Route::Event(kind) => {
            proof { reveal_strlit("api/v1/runtime/events/"); }
            joined("api/v1/runtime/events/", kind.as_str())
        },
    }
}

/// What `url::Url::parse(base)` and then `Url::join(path)` give: the joined URL's text, or
/// nothing when either step fails.
pub uninterp spec fn url_joined(base: Seq<char>, path: Seq<char>) -> Option<Seq<char>>;

/// Resolves `path` against the URL `base`; calls `url::Url::parse` and `Url::join`.
/// Claims that the outcome is a function of the two texts.
#[verifier::external_body]
fn url_join(base: &str, path: &str) -> (r: Option<String>)
    ensures
        match r {
            Some(u) => url_joined(base@, path@) == Some(u@),
            None => url_joined(base@, path@) is None,
        },
{
    match url::Url::parse(base) {
        Ok(b) => match b.join(path) {
            Ok(u) => Some(u.to_string()),
            Err(_) => None,
        },
        Err(_) => None,
    }
}

/// The full URL of an endpoint under the control plane's root URL.
pub fn endpoint_url(base: &str, route: &Route) -> (r: Option<String>)
    ensures
        match r {
            Some(u) => url_joined(base@, route_path_spec(*route)) == Some(u@),
            None => url_joined(base@, route_path_spec(*route)) is None,
        },
{
    let path = route_path(route);
    url_join(base, path.as_str())
}

/// The `Authorization` header value of an enrolled runtime: `Runtime <uuid>.<secret>`.
pub open spec fn authorization_spec(runtime_id: u128, secret: Seq<char>) -> Seq<char> {
    "Runtime "@ + uuid_hyphenated(runtime_id) + "."@ + secret
}

/// The `Authorization` header value of an enrolled runtime.
pub fn authorization(runtime_id: u128, secret: &str) -> (h: String)
    ensures
        h@ == authorization_spec(runtime_id, secret@),
{
    proof {
        reveal_strlit("Runtime ");
        reveal_strlit(".");
    }
    let id = uuid_text(runtime_id);
    let a = joined("Runtime ", id.as_str());
    let b = joined(a.as_str(), ".");
    joined(b.as_str(), secret)
}

/// The `Idempotency-Key` of an enrollment request: the registration message's id as UUID text.
pub fn idempotency_key(message_id: u128) -> (k: String)
    ensures
        k@ == uuid_hyphenated(message_id),
{
    uuid_text(message_id)
}

/// Why an answer of the control plane was refused.
#[derive(Debug)]
pub enum ClientError {
    /// An authenticated request was made before enrollment.
    NotEnrolled,
    /// The enrollment answer carried another protocol version.
    IncompatibleRegistration,
    /// The command collection carried another protocol version.
    IncompatibleCollection,
    /// A command in the collection carried another protocol version.
    Command(ProtocolError),
    /// The answer did not have the shape the protocol prescribes.
    Malformed(String),
}

impl ClientError {
    /// The error's text.
    pub fn message(&self) -> (m: String)
        ensures
            match self {
                ClientError::NotEnrolled => m@ == "runtime is not enrolled"@,
                ClientError::IncompatibleRegistration => m@ == "control plane returned incompatible protocol version"@,
                ClientError::IncompatibleCollection => m@ == "command collection has incompatible version"@,
                ClientError::Command(ProtocolError::UnsupportedVersion(v)) => m@ == "unsupported protocol version: "@ + v@,
                ClientError::Malformed(d) => m@ == "error decoding response body: "@ + d@,
            },
    {
        match self {
            ClientError::NotEnrolled => {
                proof { reveal_strlit("runtime is not enrolled"); }
                text("runtime is not enrolled")
            },
            ClientError::IncompatibleRegistration => {
                proof { reveal_strlit("control plane returned incompatible protocol version"); }
                text("control plane returned incompatible protocol version")
            },
            ClientError::IncompatibleCollection => {
                proof { reveal_strlit("command collection has incompatible version"); }
                text("command collection has incompatible version")
            },
            ClientError::Command(e) => e.message(),
            ClientError::Malformed(d) => {
                proof { reveal_strlit("error decoding response body: "); }
                joined("error decoding response body: ", d.as_str())
            },
        }
    }
}

/// Accepts an enrollment answer only in this protocol version.
pub fn check_registration(response: &RegistrationResponse) -> (r: Result<(), ClientError>)
    ensures
        r is Ok <==> response.protocol_version@ == VERSION@,
        r is Err ==> r == Err::<(), ClientError>(ClientError::IncompatibleRegistration),
{
    if same_text(response.protocol_version.as_str(), VERSION) {
        Ok(())
    } else {
        Err(ClientError::IncompatibleRegistration)
    }
}

/// Accepts a command collection only when it and every command in it are in this protocol
/// version; otherwise reports the collection, or the first command, that is not.
pub fn check_collection(collection: &CommandCollection) -> (r: Result<(), ClientError>)
    ensures
        r is Ok <==> (collection.protocol_version@ == VERSION@
            && forall|i: int| 0 <= i < collection.commands@.len()
                ==> #[trigger] collection.commands@[i].protocol_version@ == VERSION@),
        collection.protocol_version@ != VERSION@ ==> r is Err && r->Err_0 is IncompatibleCollection,
        r matches Err(e) ==> (e is IncompatibleCollection <==> collection.protocol_version@ != VERSION@)
            && (e is IncompatibleCollection || e is Command),
        r matches Err(ClientError::Command(ProtocolError::UnsupportedVersion(v))) ==>
            exists|i: int| 0 <= i < collection.commands@.len()
                && collection.commands@[i].protocol_version@ != VERSION@
                && v@ == collection.commands@[i].protocol_version@
                && forall|j: int| 0 <= j < i ==> #[trigger] collection.commands@[j].protocol_version@ == VERSION@,
{
    if !same_text(collection.protocol_version.as_str(), VERSION) {
        return Err(ClientError::IncompatibleCollection);
    }
    let mut i: usize = 0;
    while i < collection.commands.len()
        invariant
            i <= collection.commands@.len(),
            collection.protocol_version@ == VERSION@,
            forall|j: int| 0 <= j < i ==> #[trigger] collection.commands@[j].protocol_version@ == VERSION@,
        decreases collection.commands.len() - i,
    {
        match collection.commands[i].validate_version() {
            Err(e) => {
                return Err(ClientError::Command(e));
            },
            Ok(()) => {},
        }
        i = i + 1;
    }
    Ok(())
}

/// Reads the control plane's answer to an enrollment: an answer of the right shape, in this
/// protocol version.
pub fn read_registration_response(answer: &JsonValue) -> (r: Result<RegistrationResponse, ClientError>)
    ensures
        r is Ok <==> (registration_response_shape(answer@) matches Some((_, _, v)) && v == VERSION@),
        r matches Ok(a) ==> registration_response_shape(answer@) == Some((a.runtime_id, a.runtime_secret@, a.protocol_version@)),
        match r {
            Ok(_) => true,
            Err(ClientError::Malformed(m)) => registration_response_shape(answer@) is None
                && m@ == registration_response_error(answer@),
            Err(ClientError::IncompatibleRegistration) => registration_response_shape(answer@) matches Some((_, _, v))
                && v != VERSION@,
            Err(_) => false,
        },
{
    match decode_registration_response(answer) {
        Err(e) => Err(ClientError::Malformed(e.message)),
        Ok(a) => match check_registration(&a) {
            Err(e) => Err(e),
            Ok(()) => Ok(a),
        },
    }
}

/// Whether every command of a collection is in this protocol version.
pub open spec fn all_in_version(cs: Seq<CommandShape>) -> bool {
    forall|i: int| 0 <= i < cs.len() ==> #[trigger] cs[i].protocol_version == VERSION@
}

/// Reads the control plane's answer to a poll: a command collection of the right shape, in
/// this protocol version, holding only commands in this version. A malformed answer, a
/// collection in another version and the first command in another version are refused, in
/// that order.
pub fn read_command_collection(answer: &JsonValue) -> (r: Result<CommandCollection, ClientError>)
    ensures
        r is Ok <==> (collection_shape(answer@) matches Some((v, cs)) && v == VERSION@ && all_in_version(cs)),
        r matches Ok(c) ==> collection_shape(answer@) == Some((c.protocol_version@,
            c.commands@.map_values(|e: Envelope<Command>| command_envelope_view(e)))),
        match r {
            Ok(_) => true,
            Err(ClientError::Malformed(m)) => collection_shape(answer@) is None && m@ == collection_error(answer@),
            Err(ClientError::IncompatibleCollection) => collection_shape(answer@) matches Some((v, _)) && v != VERSION@,
            Err(ClientError::Command(ProtocolError::UnsupportedVersion(x))) => collection_shape(answer@) matches Some((v, cs))
                && v == VERSION@
                && exists|i: int| 0 <= i < cs.len() && cs[i].protocol_version != VERSION@ && x@ == cs[i].protocol_version
                    && forall|j: int| 0 <= j < i ==> #[trigger] cs[j].protocol_version == VERSION@,
            Err(_) => false,
        },
{
    match decode_command_collection(answer) {
        Err(e) => Err(ClientError::Malformed(e.message)),
        Ok(c) => {
            let ghost cs = c.commands@.map_values(|e: Envelope<Command>| command_envelope_view(e));
            proof {
                assert forall|i: int| 0 <= i < c.commands@.len() implies #[trigger] cs[i].protocol_version == c.commands@[i].protocol_version@ by {}
            }
            match check_collection(&c) {
                Err(e) => {
                    proof {
                        if let ClientError::Command(ProtocolError::UnsupportedVersion(x)) = &e {
                            let i = choose|i: int| 0 <= i < c.commands@.len()
                                && c.commands@[i].protocol_version@ != VERSION@
                                && x@ == c.commands@[i].protocol_version@
                                && forall|j: int| 0 <= j < i ==> #[trigger] c.commands@[j].protocol_version@ == VERSION@;
                            assert(cs[i].protocol_version == c.commands@[i].protocol_version@);
                            assert forall|j: int| 0 <= j < i implies #[trigger] cs[j].protocol_version == VERSION@ by {
                                assert(cs[j].protocol_version == c.commands@[j].protocol_version@);
                            }
                        }
                    }
                    Err(e)
                },
                Ok(()) => Ok(c),
            }
        },
    }
}

/// How the control plane answered an event delivery.
#[derive(Debug, PartialEq, Eq, Structural, Clone, Copy)]
pub enum EventAnswer {
    /// The event was recorded now.
    Recorded,
    /// The event was seen before (`409 Conflict`); it counts as delivered.
    AlreadySeen,
    /// The control plane refused the event with this HTTP status.
    Refused(u16),
}

/// Classifies the HTTP status of an event delivery: `409` means already seen, any other
/// client or server error status (400 to 599) is a refusal, everything else records it.
pub fn event_answer(status: u16) -> (a: EventAnswer)
    ensures
        status == 409 ==> a == EventAnswer::AlreadySeen,
        status != 409 && 400 <= status <= 599 ==> a == EventAnswer::Refused(status),
        status != 409 && !(400 <= status <= 599) ==> a == EventAnswer::Recorded,
{
    if status == 409 {
        EventAnswer::AlreadySeen
    } else if 400 <= status && status <= 599 {
        EventAnswer::Refused(status)
    } else {
        EventAnswer::Recorded
    }
}

} // verus!
