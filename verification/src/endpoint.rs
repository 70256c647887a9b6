//! What becomes of a request that was let through: its body is read, parsed and routed.

use crate::json::{json_error_text, parse_json, parsed_json, write_json_error};
use crate::reply::{
    empty_reply, empty_response, error_message, json_response, message_reply, rpc_error, Reply,
    ReplyBodyView, ReplyView, RpcErrorView, RpcMessage, RpcMessageView, ACCEPTED, BAD_REQUEST, OK,
    PARSE_ERROR, SERVICE_UNAVAILABLE,
};
use serde_json::Value;
use vstd::prelude::*;

verus! {

/// How the reading of a body ended.
pub enum BodyEvent {
    /// The whole body arrived; no length is too long.
    Complete(Vec<u8>),
    /// The connection failed before the end of the body.
    Failed,
    /// The server began to shut down before the end of the body.
    ShutDown,
}

/// What to do after a body.
pub enum BodyDecision {
    Respond(Reply),
    /// Route this message.
    Route(Value),
}

pub enum BodyDecisionView {
    Respond(ReplyView),
    Route(Value),
}

impl View for BodyDecision {
    type V = BodyDecisionView;

    open spec fn view(&self) -> BodyDecisionView {
        match self {
            BodyDecision::Respond(reply) => BodyDecisionView::Respond(reply@),
            BodyDecision::Route(message) => BodyDecisionView::Route(*message),
        }
    }
}

/// A call of a tool.
pub struct ToolRequest {
    pub id: Value,
    pub name: String,
    pub arguments: Value,
    /// Asks for progress notifications, which carry this token.
    pub progress_token: Option<Value>,
}

/// What a message turned out to be.
pub enum Route {
    /// It needs no answer.
    Notification,
    /// It asks to cancel another request; here that is done by closing the connection.
    Cancel,
    /// It is answered by this response.
    Immediate(Value),
    /// It calls a tool.
    Tool(ToolRequest),
}

/// What to do after the routing of a message.
pub enum RouteDecision {
    Respond(Reply),
    Call(ToolRequest),
}

/// What to do with a body that parsed to a message, or did not for the reason given: where it is
/// not JSON, a bad request with a JSON-RPC parse error under a null id.
pub open spec fn message_decision(parsed: Result<Value, Seq<char>>) -> BodyDecisionView {
    match parsed {
        Ok(message) => BodyDecisionView::Route(message),
        Err(reason) => BodyDecisionView::Respond(
            message_reply(BAD_REQUEST, error_message(None, PARSE_ERROR, reason)),
        ),
    }
}

/// The result of a parse, with what the error says in place of the error.
pub open spec fn with_reason(parsed: Result<Value, serde_json::Error>) -> Result<
    Value,
    Seq<char>,
> {
    match parsed {
        Ok(message) => Ok(message),
        Err(error) => Err(json_error_text(error)),
    }
}

/// What to do after a body.
pub open spec fn body_decision(event: BodyEvent) -> BodyDecisionView {
    match event {
        BodyEvent::Complete(body) => message_decision(with_reason(parsed_json(body@))),
        BodyEvent::Failed => BodyDecisionView::Respond(empty_reply(BAD_REQUEST)),
        BodyEvent::ShutDown => BodyDecisionView::Respond(empty_reply(SERVICE_UNAVAILABLE)),
    }
}

/// What to do with a body that parsed to a message, or did not for the reason given.
pub fn on_message(parsed: Result<Value, String>) -> (decision: BodyDecision)
    ensures
        decision@ == message_decision(
            match parsed {
                Ok(message) => Ok(message),
                Err(reason) => Err(reason@),
            },
        ),
{
    match parsed {
        Ok(message) => BodyDecision::Route(message),
        Err(reason) => BodyDecision::Respond(
            json_response(BAD_REQUEST, rpc_error(None, PARSE_ERROR, reason.as_str())),
        ),
    }
}

/// What to do after a body.
pub fn on_body(event: BodyEvent) -> (decision: BodyDecision)
    ensures
        decision@ == body_decision(event),
{
    match event {
        BodyEvent::Complete(body) => match parse_json(body.as_slice()) {
            Ok(message) => on_message(Ok(message)),
            Err(error) => on_message(Err(write_json_error(&error))),
        },
        BodyEvent::Failed => BodyDecision::Respond(empty_response(BAD_REQUEST)),
        BodyEvent::ShutDown => BodyDecision::Respond(empty_response(SERVICE_UNAVAILABLE)),
    }
}

/// What to do after the routing of a message: only a tool call goes further, and every other
/// message is answered at once.
pub fn on_route(route: Route) -> (decision: RouteDecision)
    ensures
        match route {
            Route::Notification | Route::Cancel => decision matches RouteDecision::Respond(reply)
                && reply@ == empty_reply(ACCEPTED),
            Route::Immediate(response) => decision matches RouteDecision::Respond(reply) && reply@
                == message_reply(OK, RpcMessageView::Response(response)),
            Route::Tool(request) => decision == RouteDecision::Call(request),
        },
{
    match route {
        Route::Notification | Route::Cancel => RouteDecision::Respond(empty_response(ACCEPTED)),
        Route::Immediate(response) => RouteDecision::Respond(
            json_response(OK, RpcMessage::Response(response)),
        ),
        Route::Tool(request) => RouteDecision::Call(request),
    }
}

/// A body that is JSON is routed as the message that it is, whatever its length and whatever the
/// message; one that is not is a bad request, answered by a parse error under no id that says why;
/// and one that does not arrive is answered by a status alone.
pub proof fn law_bodies_are_routed_or_answered(
    body: Vec<u8>,
    message: Value,
    error: serde_json::Error,
    reason: Seq<char>,
)
    ensures
        message_decision(Ok(message)) == BodyDecisionView::Route(message),
        message_decision(Err(reason)) == BodyDecisionView::Respond(
            (ReplyView {
                status: 400,
                fields: seq![("content-type"@, "application/json"@)],
                body: ReplyBodyView::Message(
                    RpcMessageView::Error(
                        (RpcErrorView { id: None, code: -32700i64, message: reason }),
                    ),
                ),
            }),
        ),
        with_reason(Ok(message)) == Ok::<Value, Seq<char>>(message),
        with_reason(Err(error)) == Err::<Value, Seq<char>>(json_error_text(error)),
        parsed_json(body@) == Ok::<Value, serde_json::Error>(message) ==> body_decision(
            BodyEvent::Complete(body),
        ) == BodyDecisionView::Route(message),
        parsed_json(body@) == Err::<Value, serde_json::Error>(error) ==> body_decision(
            BodyEvent::Complete(body),
        ) == message_decision(Err(json_error_text(error))),
        body_decision(BodyEvent::Failed) == BodyDecisionView::Respond(
            (ReplyView { status: 400, fields: Seq::empty(), body: ReplyBodyView::Empty }),
        ),
        body_decision(BodyEvent::ShutDown) == BodyDecisionView::Respond(
            (ReplyView { status: 503, fields: Seq::empty(), body: ReplyBodyView::Empty }),
        ),
{
}

/// Nothing of a decision is lost in its view.
pub proof fn law_decisions_are_shown_as_they_are(reply: Reply, message: Value)
    ensures
        BodyDecision::Respond(reply)@ == BodyDecisionView::Respond(reply@),
        BodyDecision::Route(message)@ == BodyDecisionView::Route(message),
{
}

/// Only a call goes further, and goes on as it came: a notification and a cancellation are accepted
/// with no body, and a message that has its answer gets that answer, whatever it is.
pub proof fn law_only_calls_go_further(route: Route, decision: RouteDecision)
    requires
        call_ensures(on_route, (route,), decision),
    ensures
        route matches Route::Tool(request) ==> decision == RouteDecision::Call(request),
        route !is Tool ==> decision is Respond,
        route is Notification || route is Cancel ==> (decision->Respond_0)@ == (ReplyView {
            status: 202,
            fields: Seq::empty(),
            body: ReplyBodyView::Empty,
        }),
        route matches Route::Immediate(response) ==> (decision->Respond_0)@ == (ReplyView {
            status: 200,
            fields: seq![("content-type"@, "application/json"@)],
            body: ReplyBodyView::Message(RpcMessageView::Response(response)),
        }),
{
}

} // verus!
