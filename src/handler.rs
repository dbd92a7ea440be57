//! The decisions of the query entry path: parse, read the snapshot, plan,
//! execute, and what is answered at each step.
use vstd::prelude::*;
use vstd::string::StringExecFns;

verus! {

/// The transport status of a query that could not be parsed.
pub const STATUS_BAD_REQUEST: u16 = 400;

/// The transport status of every other outcome.
pub const STATUS_OK: u16 = 200;

/// The message of the error returned while no snapshot is available.
pub open spec fn not_ready_message() -> Seq<char> {
    "Not ready."@
}

/// A structured GraphQL error.
#[derive(Debug)]
pub struct ServerError {
    pub message: String,
}

impl ServerError {
    pub fn new(message: String) -> (r: Self)
        ensures
            r.message@ == message@,
    {
        ServerError { message }
    }
}

/// A GraphQL response: the result as JSON text (`None` for `null`), and the
/// errors in order.
#[derive(Debug)]
pub struct Response {
    pub data: Option<String>,
    pub errors: Vec<ServerError>,
}

/// Whether `r` is the "not ready" response: no data and exactly one error, the
/// not-ready one.
pub open spec fn is_not_ready(r: Response) -> bool {
    &&& r.data is None
    &&& r.errors@.len() == 1
    &&& r.errors@[0].message@ == not_ready_message()
}

/// The response given while the gateway has no snapshot yet.
pub fn not_ready_response() -> (r: Response)
    ensures
        is_not_ready(r),
{
    let mut errors: Vec<ServerError> = Vec::new();
    errors.push(ServerError::new(String::from_str("Not ready.")));
    Response { data: None, errors }
}

/// What is sent back to the client.
#[derive(Debug)]
pub enum ReplyBody {
    /// Plain text: the parse error.
    Text(String),
    /// A response still to be serialized.
    Graph(Response),
    /// A response already serialized to JSON by the planner or executor.
    Json(String),
}

/// A transport reply: status and body.
#[derive(Debug)]
pub struct HttpReply {
    pub status: u16,
    pub body: ReplyBody,
}

/// What a step of the entry path produced.
#[derive(Debug)]
pub enum QueryEvent {
    /// The query text was parsed, or failed to parse with this message.
    Parsed(Result<(), String>),
    /// The snapshot was read: whether both schema and route table were there.
    SnapshotRead(bool),
    /// The plan was built, or planning failed with this serialized response.
    Planned(Result<(), String>),
    /// The plan ran; this is the serialized merged response.
    Executed(String),
}

/// What the entry path does next.
#[derive(Debug)]
pub enum QueryAction {
    ReadSnapshot,
    BuildPlan,
    Execute,
    Respond(HttpReply),
}

/// Whether `a` answers with `status` and a plain-text body equal to `text`.
pub open spec fn responds_text(a: QueryAction, status: u16, text: Seq<char>) -> bool {
    match a {
        QueryAction::Respond(reply) => reply.status == status && match reply.body {
            ReplyBody::Text(t) => t@ == text,
            _ => false,
        },
        _ => false,
    }
}

/// Whether `a` answers with `status` and a JSON body equal to `json`.
pub open spec fn responds_json(a: QueryAction, status: u16, json: Seq<char>) -> bool {
    match a {
        QueryAction::Respond(reply) => reply.status == status && match reply.body {
            ReplyBody::Json(j) => j@ == json,
            _ => false,
        },
        _ => false,
    }
}

/// Whether `a` answers with `status` and the not-ready response.
pub open spec fn responds_not_ready(a: QueryAction, status: u16) -> bool {
    match a {
        QueryAction::Respond(reply) => reply.status == status && match reply.body {
            ReplyBody::Graph(resp) => is_not_ready(resp),
            _ => false,
        },
        _ => false,
    }
}

/// The action that follows each event.
pub open spec fn is_next_action(e: QueryEvent, a: QueryAction) -> bool {
    match e {
        QueryEvent::Parsed(Ok(_)) => a is ReadSnapshot,
        QueryEvent::Parsed(Err(msg)) => responds_text(a, STATUS_BAD_REQUEST, msg@),
        QueryEvent::SnapshotRead(true) => a is BuildPlan,
        QueryEvent::SnapshotRead(false) => responds_not_ready(a, STATUS_OK),
        QueryEvent::Planned(Ok(_)) => a is Execute,
        QueryEvent::Planned(Err(body)) => responds_json(a, STATUS_OK, body@),
        QueryEvent::Executed(body) => responds_json(a, STATUS_OK, body@),
    }
}

/// Decides the next step of a query. A parse failure ends it at once with a
/// bad request; every other ending is a success status with a GraphQL body.
pub fn next_action(event: QueryEvent) -> (r: QueryAction)
    ensures
        is_next_action(event, r),
        event is Parsed && event->Parsed_0 is Err ==> !(r is BuildPlan) && !(r is Execute),
{
    match event {
        QueryEvent::Parsed(Ok(())) => QueryAction::ReadSnapshot,
        QueryEvent::Parsed(Err(msg)) => QueryAction::Respond(
            HttpReply { status: STATUS_BAD_REQUEST, body: ReplyBody::Text(msg) },
        ),
        QueryEvent::SnapshotRead(true) => QueryAction::BuildPlan,
        QueryEvent::SnapshotRead(false) => QueryAction::Respond(
            HttpReply { status: STATUS_OK, body: ReplyBody::Graph(not_ready_response()) },
        ),
        QueryEvent::Planned(Ok(())) => QueryAction::Execute,
        QueryEvent::Planned(Err(body)) => QueryAction::Respond(
            HttpReply { status: STATUS_OK, body: ReplyBody::Json(body) },
        ),
        QueryEvent::Executed(body) => QueryAction::Respond(
            HttpReply { status: STATUS_OK, body: ReplyBody::Json(body) },
        ),
    }
}

} // verus!
