//! The responses of the endpoint, as values that the HTTP layer sends.

use crate::request::challenge;
use serde_json::Value;
use vstd::prelude::*;
use vstd::string::StringExecFns;

verus! {

pub const OK: u16 = 200;

pub const ACCEPTED: u16 = 202;

pub const BAD_REQUEST: u16 = 400;

pub const UNAUTHORIZED: u16 = 401;

pub const FORBIDDEN: u16 = 403;

pub const NOT_FOUND: u16 = 404;

pub const METHOD_NOT_ALLOWED: u16 = 405;

pub const NOT_ACCEPTABLE: u16 = 406;

pub const UNSUPPORTED_MEDIA_TYPE: u16 = 415;

pub const INTERNAL_SERVER_ERROR: u16 = 500;

pub const SERVICE_UNAVAILABLE: u16 = 503;

/// JSON-RPC: the body is not JSON.
pub const PARSE_ERROR: i64 = -32700;

/// JSON-RPC: the tool refused its arguments.
pub const INVALID_PARAMS: i64 = -32602;

/// JSON-RPC: the tool ended without an answer.
pub const INTERNAL_ERROR: i64 = -32603;

/// JSON-RPC: too many calls are active.
pub const OVERLOADED: i64 = -32000;

/// A JSON-RPC error that answers the request with the given id, or with a null id.
pub struct RpcError {
    pub id: Option<Value>,
    pub code: i64,
    pub message: String,
}

pub struct RpcErrorView {
    pub id: Option<Value>,
    pub code: i64,
    pub message: Seq<char>,
}

impl View for RpcError {
    type V = RpcErrorView;

    open spec fn view(&self) -> RpcErrorView {
        RpcErrorView { id: self.id, code: self.code, message: self.message@ }
    }
}

/// A JSON-RPC message that answers a call.
pub enum RpcMessage {
    /// A response that was written elsewhere.
    Response(Value),
    /// An error of this server.
    Error(RpcError),
}

pub enum RpcMessageView {
    Response(Value),
    Error(RpcErrorView),
}

impl View for RpcMessage {
    type V = RpcMessageView;

    open spec fn view(&self) -> RpcMessageView {
        match self {
            RpcMessage::Response(value) => RpcMessageView::Response(*value),
            RpcMessage::Error(error) => RpcMessageView::Error(error@),
        }
    }
}

/// The body of a response.
pub enum ReplyBody {
    Empty,
    Message(RpcMessage),
    /// Server-sent events follow.
    Events,
}

pub enum ReplyBodyView {
    Empty,
    Message(RpcMessageView),
    Events,
}

impl View for ReplyBody {
    type V = ReplyBodyView;

    open spec fn view(&self) -> ReplyBodyView {
        match self {
            ReplyBody::Empty => ReplyBodyView::Empty,
            ReplyBody::Message(message) => ReplyBodyView::Message(message@),
            ReplyBody::Events => ReplyBodyView::Events,
        }
    }
}

/// One header field of a response.
pub struct ReplyField {
    pub name: &'static str,
    pub value: &'static str,
}

impl View for ReplyField {
    type V = (Seq<char>, Seq<char>);

    open spec fn view(&self) -> (Seq<char>, Seq<char>) {
        (self.name@, self.value@)
    }
}

/// A response: its status, its header fields and its body.
pub struct Reply {
    pub status: u16,
    pub fields: Vec<ReplyField>,
    pub body: ReplyBody,
}

pub struct ReplyView {
    pub status: u16,
    pub fields: Seq<(Seq<char>, Seq<char>)>,
    pub body: ReplyBodyView,
}

impl View for Reply {
    type V = ReplyView;

    open spec fn view(&self) -> ReplyView {
        ReplyView {
            status: self.status,
            fields: self.fields@.map_values(|field: ReplyField| field@),
            body: self.body@,
        }
    }
}

/// A response with a status and nothing else.
pub open spec fn empty_reply(status: u16) -> ReplyView {
    ReplyView { status, fields: Seq::empty(), body: ReplyBodyView::Empty }
}

/// A response with a status and one header field.
pub open spec fn bare_reply(status: u16, name: Seq<char>, value: Seq<char>) -> ReplyView {
    ReplyView { status, fields: seq![(name, value)], body: ReplyBodyView::Empty }
}

/// A response with a JSON-RPC message as its body.
pub open spec fn message_reply(status: u16, message: RpcMessageView) -> ReplyView {
    ReplyView {
        status,
        fields: seq![("content-type"@, "application/json"@)],
        body: ReplyBodyView::Message(message),
    }
}

/// A JSON-RPC error message.
pub open spec fn error_message(
    id: Option<Value>,
    code: i64,
    message: Seq<char>,
) -> RpcMessageView {
    RpcMessageView::Error(RpcErrorView { id, code, message })
}

/// The head of an event stream.
pub open spec fn events_reply() -> ReplyView {
    ReplyView {
        status: OK,
        fields: seq![
            ("content-type"@, "text/event-stream; charset=utf-8"@),
            ("cache-control"@, "no-cache"@),
        ],
        body: ReplyBodyView::Events,
    }
}

/// A response with a status and nothing else.
pub fn empty_response(status: u16) -> (reply: Reply)
    ensures
        reply@ == empty_reply(status),
{
    let reply = Reply { status, fields: Vec::new(), body: ReplyBody::Empty };
    assert(reply@.fields =~= empty_reply(status).fields);
    reply
}

/// A response with a status, one header field and no body.
pub(crate) fn response_with_field(
    status: u16,
    name: &'static str,
    value: &'static str,
) -> (reply: Reply)
    ensures
        reply@ == bare_reply(status, name@, value@),
{
    let reply = Reply { status, fields: vec![ReplyField { name, value }], body: ReplyBody::Empty };
    assert(reply@.fields =~= bare_reply(status, name@, value@).fields);
    reply
}

/// A response with a JSON-RPC message as its body.
pub fn json_response(status: u16, message: RpcMessage) -> (reply: Reply)
    ensures
        reply@ == message_reply(status, message@),
{
    let reply = Reply {
        status,
        fields: vec![ReplyField { name: "content-type", value: "application/json" }],
        body: ReplyBody::Message(message),
    };
    assert(reply@.fields =~= message_reply(status, message@).fields);
    reply
}

/// The JSON-RPC error with the given id, code and text.
pub(crate) fn rpc_error(id: Option<Value>, code: i64, message: &str) -> (error: RpcMessage)
    ensures
        error@ == error_message(id, code, message@),
{
    RpcMessage::Error(RpcError { id, code, message: String::from_str(message) })
}

/// The head of an event stream.
pub fn events_response() -> (reply: Reply)
    ensures
        reply@ == events_reply(),
{
    let reply = Reply {
        status: OK,
        fields: vec![
            ReplyField { name: "content-type", value: "text/event-stream; charset=utf-8" },
            ReplyField { name: "cache-control", value: "no-cache" },
        ],
        body: ReplyBody::Events,
    };
    assert(reply@.fields =~= events_reply().fields);
    reply
}

/// The response to a request for any other path than that of the endpoint.
pub fn not_found() -> (reply: Reply)
    ensures
        reply@ == empty_reply(NOT_FOUND),
{
    empty_response(NOT_FOUND)
}

/// A response has a header field of the given name.
pub open spec fn has_field(reply: ReplyView, name: Seq<char>) -> bool {
    exists|i: int| 0 <= i < reply.fields.len() && (#[trigger] reply.fields[i]).0 == name
}

/// No response begins a session.
pub proof fn law_no_session_is_begun(status: u16, message: RpcMessageView)
    ensures
        !has_field(message_reply(status, message), "mcp-session-id"@),
        !has_field(events_reply(), "mcp-session-id"@),
        !has_field(empty_reply(status), "mcp-session-id"@),
        !has_field(challenge(), "mcp-session-id"@),
        !has_field(bare_reply(METHOD_NOT_ALLOWED, "allow"@, "POST"@), "mcp-session-id"@),
{
    reveal_strlit("mcp-session-id");
    reveal_strlit("content-type");
    reveal_strlit("cache-control");
    reveal_strlit("www-authenticate");
    reveal_strlit("allow");
    assert("mcp-session-id"@.len() == 14);
    assert("content-type"@.len() == 12);
    assert("cache-control"@.len() == 13);
}

/// The statuses and codes are the registered ones.
pub proof fn law_statuses_and_codes()
    ensures
        OK == 200,
        ACCEPTED == 202,
        BAD_REQUEST == 400,
        UNAUTHORIZED == 401,
        FORBIDDEN == 403,
        NOT_FOUND == 404,
        METHOD_NOT_ALLOWED == 405,
        NOT_ACCEPTABLE == 406,
        UNSUPPORTED_MEDIA_TYPE == 415,
        INTERNAL_SERVER_ERROR == 500,
        SERVICE_UNAVAILABLE == 503,
        PARSE_ERROR == -32700,
        INVALID_PARAMS == -32602,
        INTERNAL_ERROR == -32603,
        OVERLOADED == -32000,
{
}

/// A response carries the status, the field and the message that it is made for, whatever they are,
/// and nothing more: two that are made for different ones differ.
pub proof fn law_replies_carry_what_they_are_made_for(
    status: u16,
    name: Seq<char>,
    value: Seq<char>,
    message: RpcMessageView,
)
    ensures
        empty_reply(status).status == status,
        empty_reply(status).fields.len() == 0,
        empty_reply(status).body == ReplyBodyView::Empty,
        bare_reply(status, name, value).status == status,
        bare_reply(status, name, value).fields == seq![(name, value)],
        bare_reply(status, name, value).body == ReplyBodyView::Empty,
        message_reply(status, message).status == status,
        message_reply(status, message).fields == seq![("content-type"@, "application/json"@)],
        message_reply(status, message).body == ReplyBodyView::Message(message),
{
}

/// An event stream is announced as such and is not to be cached.
pub proof fn law_event_stream_is_announced()
    ensures
        events_reply().status == 200,
        events_reply().body == ReplyBodyView::Events,
        events_reply().fields == seq![
            ("content-type"@, "text/event-stream; charset=utf-8"@),
            ("cache-control"@, "no-cache"@),
        ],
{
}

/// An error carries the id, the code and the text that it is made for, whatever they are.
pub proof fn law_errors_carry_what_they_are_made_for(
    id: Option<Value>,
    code: i64,
    message: Seq<char>,
)
    ensures
        error_message(id, code, message) matches RpcMessageView::Error(error) && error.id == id
            && error.code == code && error.message == message,
{
}

/// Nothing of a response is lost in its view: status, fields in their order, and body.
pub proof fn law_replies_are_shown_as_they_are(
    reply: Reply,
    field: ReplyField,
    error: RpcError,
    response: Value,
)
    ensures
        reply@.status == reply.status,
        reply@.fields.len() == reply.fields@.len(),
        forall|i: int|
            0 <= i < reply.fields@.len() ==> (#[trigger] reply@.fields[i]).0
                == reply.fields@[i].name@ && reply@.fields[i].1 == reply.fields@[i].value@,
        reply@.body == reply.body@,
        field@.0 == field.name@,
        field@.1 == field.value@,
        ReplyBody::Empty@ == ReplyBodyView::Empty,
        ReplyBody::Events@ == ReplyBodyView::Events,
        ReplyBody::Message(RpcMessage::Response(response))@ == ReplyBodyView::Message(
            RpcMessageView::Response(response),
        ),
        ReplyBody::Message(RpcMessage::Error(error))@ == ReplyBodyView::Message(
            RpcMessageView::Error(
                (RpcErrorView { id: error.id, code: error.code, message: error.message@ }),
            ),
        ),
        RpcMessage::Response(response)@ == RpcMessageView::Response(response),
        RpcMessage::Error(error)@ == RpcMessageView::Error(error@),
{
}

} // verus!
