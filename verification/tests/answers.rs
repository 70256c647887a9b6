use serde_json::Value;
use specmesh_server::connection::{read_closes, write_closes, ConnectionState, IoPoll};
use specmesh_server::endpoint::{
    on_body, on_message, on_route, BodyDecision, BodyEvent, Route, RouteDecision, ToolRequest,
};
use specmesh_server::json::body_text;
use specmesh_server::reply::{
    empty_response, events_response, json_response, Reply, ReplyBody, RpcError, RpcMessage,
};
use specmesh_server::startup::StartupError;
use specmesh_server::stream::{event_with_data, sse_event, EventStream};
use specmesh_server::token::TokenError;
use specmesh_server::tool::{
    answer_to, AfterThreshold, PendingCall, ToolOutcome, PROGRESS_THRESHOLD_SECS,
};

const RAW_KEY: &str = "$serde_json::private::RawValue";

fn error_of(message: RpcMessage) -> RpcError {
    match message {
        RpcMessage::Error(error) => error,
        RpcMessage::Response(_) => panic!("the message is no error"),
    }
}

fn response_of(message: RpcMessage) -> Value {
    match message {
        RpcMessage::Response(value) => value,
        RpcMessage::Error(_) => panic!("the message is an error"),
    }
}

fn message_of(reply: Reply) -> RpcMessage {
    assert_eq!(
        fields(&reply),
        vec![("content-type", "application/json")]
    );
    match reply.body {
        ReplyBody::Message(message) => message,
        _ => panic!("the response carries no message"),
    }
}

fn fields(reply: &Reply) -> Vec<(&'static str, &'static str)> {
    reply
        .fields
        .iter()
        .map(|field| (field.name, field.value))
        .collect()
}

fn answer_in(decision: BodyDecision) -> Reply {
    match decision {
        BodyDecision::Respond(reply) => reply,
        BodyDecision::Route(_) => panic!("the message was routed"),
    }
}

fn object(key: &str, value: Value) -> Value {
    let mut members = serde_json::Map::new();
    members.insert(String::from(key), value);
    Value::Object(members)
}

#[test]
fn body_that_is_json_is_routed() {
    let body = b"{\"jsonrpc\": \"2.0\"}".to_vec();
    match on_body(BodyEvent::Complete(body)) {
        BodyDecision::Route(message) => {
            assert_eq!(message, object("jsonrpc", Value::from("2.0")))
        }
        BodyDecision::Respond(_) => panic!("the message was not routed"),
    }
}

#[test]
fn body_of_any_length_is_routed() {
    let blob = "x".repeat(1_100_000);
    let body = format!("{{\"blob\":\"{blob}\"}}").into_bytes();
    match on_body(BodyEvent::Complete(body)) {
        BodyDecision::Route(message) => assert_eq!(message, object("blob", Value::from(blob))),
        BodyDecision::Respond(_) => panic!("the message was not routed"),
    }
}

#[test]
fn body_that_is_no_json_is_a_parse_error_under_a_null_id() {
    let reply = answer_in(on_body(BodyEvent::Complete(b"{".to_vec())));
    assert_eq!(reply.status, 400);
    let error = error_of(message_of(reply));
    assert_eq!(error.id, None);
    assert_eq!(error.code, -32700);
    let expected = serde_json::from_slice::<Value>(b"{").unwrap_err().to_string();
    assert_eq!(error.message, expected);
    assert_eq!(
        error.message,
        "EOF while parsing an object at line 1 column 1"
    );
}

#[test]
fn body_that_does_not_arrive_is_answered_by_a_status() {
    let failed = answer_in(on_body(BodyEvent::Failed));
    assert_eq!(failed.status, 400);
    assert!(failed.fields.is_empty());
    assert!(matches!(failed.body, ReplyBody::Empty));
    let stopped = answer_in(on_body(BodyEvent::ShutDown));
    assert_eq!(stopped.status, 503);
    assert!(matches!(stopped.body, ReplyBody::Empty));
}

#[test]
fn parse_result_decides_what_becomes_of_a_message() {
    assert!(matches!(
        on_message(Ok(Value::from(1))),
        BodyDecision::Route(message) if message == Value::from(1)
    ));
    let reply = answer_in(on_message(Err(String::from("no"))));
    assert_eq!(reply.status, 400);
    assert_eq!(error_of(message_of(reply)).message, "no");
}

#[test]
fn only_tool_calls_go_further() {
    for route in [Route::Notification, Route::Cancel] {
        match on_route(route) {
            RouteDecision::Respond(reply) => {
                assert_eq!(reply.status, 202);
                assert!(reply.fields.is_empty());
                assert!(matches!(reply.body, ReplyBody::Empty));
            }
            RouteDecision::Call(_) => panic!("a notification is no call"),
        }
    }
    match on_route(Route::Immediate(Value::from("pong"))) {
        RouteDecision::Respond(reply) => {
            assert_eq!(reply.status, 200);
            assert_eq!(response_of(message_of(reply)), Value::from("pong"));
        }
        RouteDecision::Call(_) => panic!("an answered message is no call"),
    }
    let request = ToolRequest {
        id: Value::from(7),
        name: String::from("specmesh_doctor"),
        arguments: object("a", Value::Null),
        progress_token: Some(Value::from("progress-7")),
    };
    match on_route(Route::Tool(request)) {
        RouteDecision::Call(request) => {
            assert_eq!(request.id, Value::from(7));
            assert_eq!(request.name, "specmesh_doctor");
            assert_eq!(request.arguments, object("a", Value::Null));
            assert_eq!(request.progress_token, Some(Value::from("progress-7")));
        }
        RouteDecision::Respond(_) => panic!("a call was not called"),
    }
}

#[test]
fn outcomes_become_messages() {
    let id = || Value::from("call/1");
    assert_eq!(
        response_of(answer_to(id(), ToolOutcome::Response(Value::from(3)))),
        Value::from(3)
    );
    let refused = error_of(answer_to(id(), ToolOutcome::Refused(String::from("unknown"))));
    assert_eq!(refused.id, Some(id()));
    assert_eq!(refused.code, -32602);
    assert_eq!(refused.message, "unknown");
    let panicked = error_of(answer_to(id(), ToolOutcome::Panicked));
    assert_eq!(panicked.id, Some(id()));
    assert_eq!(panicked.code, -32603);
    assert_eq!(panicked.message, "tool execution panicked");
    let lost = error_of(answer_to(id(), ToolOutcome::Lost));
    assert_eq!(lost.id, Some(id()));
    assert_eq!(lost.code, -32603);
    assert_eq!(lost.message, "tool execution ended without a response");
}

#[test]
fn call_without_token_or_phase_is_waited_for() {
    assert_eq!(PROGRESS_THRESHOLD_SECS, 2);
    let token = || Some(Value::from("progress-90"));
    assert!(!PendingCall::new(Value::from(90), None, Some("count")).has_threshold());
    assert!(!PendingCall::new(Value::from(90), token(), None).has_threshold());
    let call = PendingCall::new(Value::from(90), token(), None);
    match call.on_threshold(false) {
        AfterThreshold::KeepWaiting(call) => {
            let reply = call.on_outcome(ToolOutcome::Response(Value::from("done")));
            assert_eq!(reply.status, 200);
            assert_eq!(response_of(message_of(reply)), Value::from("done"));
        }
        AfterThreshold::Stream(_) => panic!("a call without a phase was streamed"),
    }
}

#[test]
fn stopped_call_is_waited_for_and_keeps_its_id() {
    let call = PendingCall::new(Value::from(90), Some(Value::from(1)), Some("count"));
    assert!(call.has_threshold());
    match call.on_threshold(true) {
        AfterThreshold::KeepWaiting(call) => {
            assert!(!call.has_threshold());
            let reply = call.on_outcome(ToolOutcome::Lost);
            assert_eq!(reply.status, 200);
            assert_eq!(error_of(message_of(reply)).id, Some(Value::from(90)));
        }
        AfterThreshold::Stream(_) => panic!("a stopped call was streamed"),
    }
}

#[test]
fn long_call_is_streamed_and_answered_all_the_same() {
    let call = PendingCall::new(Value::from(90), Some(Value::from("t")), Some("count"));
    match call.on_threshold(false) {
        AfterThreshold::Stream(stream) => {
            assert_eq!(stream.progress_token(), &Value::from("t"));
            assert_eq!(stream.phase(), "count");
            let streamed = error_of(stream.on_outcome(ToolOutcome::Panicked));
            let outright = error_of(answer_to(Value::from(90), ToolOutcome::Panicked));
            assert_eq!(streamed.id, outright.id);
            assert_eq!(streamed.code, outright.code);
            assert_eq!(streamed.message, outright.message);
        }
        AfterThreshold::KeepWaiting(_) => panic!("a long call was not streamed"),
    }
}

#[test]
fn progress_is_reported_only_where_it_strictly_increases() {
    let mut stream = EventStream::new(Value::from(1), Value::from("t"), "count");
    let mut reported: Vec<u64> = Vec::new();
    for current in [0, 0, 3, 2, 3, 4, u64::MAX, u64::MAX] {
        if stream.on_tick(false, false, current) && stream.on_claim(current, true) {
            reported.push(current);
        }
    }
    assert_eq!(reported, vec![0, 3, 4, u64::MAX]);
}

#[test]
fn progress_is_not_reported_without_the_right_to() {
    let mut stream = EventStream::new(Value::from(1), Value::from("t"), "count");
    assert!(stream.on_tick(false, false, 5));
    assert!(!stream.on_claim(5, false));
    assert!(stream.on_tick(false, false, 5));
    assert!(stream.on_claim(5, true));
    assert!(!stream.on_tick(false, false, 5));
}

#[test]
fn ended_call_is_reported_no_further() {
    let stream = EventStream::new(Value::from(1), Value::from("t"), "count");
    assert!(!stream.on_tick(true, false, 5));
    assert!(!stream.on_tick(false, true, 5));
    assert!(stream.on_tick(false, false, 5));
}

#[test]
fn event_is_its_name_its_data_and_a_blank_line() {
    let value = object("a\nb", Value::from("c\r\n"));
    let event = sse_event(&value);
    assert_eq!(event, "event: message\ndata: {\"a\\nb\":\"c\\r\\n\"}\n\n");
    assert_eq!(
        event.lines().collect::<Vec<_>>(),
        vec!["event: message", "data: {\"a\\nb\":\"c\\r\\n\"}", ""]
    );
    let data = event.lines().find_map(|line| line.strip_prefix("data: ")).unwrap();
    assert_eq!(serde_json::from_str::<Value>(data).unwrap(), value);
    assert_eq!(event_with_data("x"), "event: message\ndata: x\n\n");
}

#[test]
fn event_data_reads_back_without_a_carriage_return() {
    let mut deep = Value::from("innermost");
    for _ in 0..127 {
        deep = Value::Array(vec![deep]);
    }
    let mut members = serde_json::Map::new();
    members.insert(String::from("!"), Value::Null);
    members.insert(String::from(RAW_KEY), Value::from(1));
    let second_key = Value::Object(members);
    let values = [
        Value::Null,
        Value::from(true),
        Value::from(u64::MAX),
        Value::from(i64::MIN),
        Value::from("1.5e3 \\ \" \u{2028} \r\n \u{7f} \u{1f} \u{10ffff}"),
        object("2.0", Value::Array(vec![Value::from(0), Value::from("")])),
        Value::from(RAW_KEY),
        Value::from(format!("{{\"{RAW_KEY}\":1}}")),
        object(&format!("{RAW_KEY}!"), Value::from(RAW_KEY)),
        second_key,
        deep,
    ];
    for value in values {
        let event = sse_event(&value);
        assert!(!event.contains('\r'));
        assert_eq!(event.matches('\n').count(), 3);
        let data = event
            .strip_prefix("event: message\ndata: ")
            .and_then(|rest| rest.strip_suffix("\n\n"))
            .unwrap();
        match on_body(BodyEvent::Complete(data.as_bytes().to_vec())) {
            BodyDecision::Route(message) => assert_eq!(message, value),
            BodyDecision::Respond(_) => panic!("the data was not read back"),
        }
    }
}

#[test]
fn body_is_the_compact_text_of_a_value() {
    let value = object("a b", Value::Array(vec![Value::from(1), Value::from("\n")]));
    let text = body_text(&value);
    assert_eq!(text, "{\"a b\":[1,\"\\n\"]}");
    assert_eq!(serde_json::from_str::<Value>(&text).unwrap(), value);
    assert_eq!(body_text(&Value::Null), "null");
}

#[test]
fn event_stream_is_announced_and_not_cached() {
    let reply = events_response();
    assert_eq!(reply.status, 200);
    assert_eq!(
        fields(&reply),
        vec![
            ("content-type", "text/event-stream; charset=utf-8"),
            ("cache-control", "no-cache")
        ]
    );
    assert!(matches!(reply.body, ReplyBody::Events));
}

#[test]
fn no_answer_begins_a_session() {
    let answers = [
        events_response(),
        json_response(200, RpcMessage::Response(Value::Null)),
        empty_response(202),
    ];
    for answer in answers {
        assert!(answer.fields.iter().all(|field| field.name != "mcp-session-id"));
    }
}

#[test]
fn failed_or_empty_read_closes_a_connection() {
    assert!(read_closes(IoPoll::Failed, 0, 0, 0));
    assert!(read_closes(IoPoll::Failed, 8, 1, 1));
    assert!(read_closes(IoPoll::Done, 8, 1, 1));
    assert!(!read_closes(IoPoll::Done, 0, 1, 1));
    assert!(!read_closes(IoPoll::Done, 8, 1, 2));
    assert!(!read_closes(IoPoll::Pending, 8, 1, 1));
}

#[test]
fn failed_write_closes_a_connection() {
    assert!(write_closes(IoPoll::Failed));
    assert!(!write_closes(IoPoll::Done));
    assert!(!write_closes(IoPoll::Pending));
}

#[test]
fn connection_closes_once_and_for_good() {
    let mut connection = ConnectionState::new();
    assert!(!connection.is_closed());
    assert!(connection.mark_closed());
    assert!(connection.is_closed());
    assert!(!connection.mark_closed());
    assert!(connection.is_closed());
}

#[test]
fn startup_errors_say_what_is_wrong() {
    let reason = || String::from("reason");
    let cases = [
        (
            StartupError::Runtime(reason()),
            "cannot start HTTP runtime: reason",
        ),
        (StartupError::Workspace(reason()), "reason"),
        (
            StartupError::Token(TokenError::NotAbsolute),
            "--token-file must be an absolute path",
        ),
        (
            StartupError::Bind(8765, reason()),
            "cannot bind http://127.0.0.1:8765/mcp: reason",
        ),
        (
            StartupError::Serve(reason()),
            "HTTP MCP server failed: reason",
        ),
    ];
    for (error, message) in cases {
        assert_eq!(error.message(), message);
    }
}
