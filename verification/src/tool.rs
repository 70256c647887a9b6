//! A call of a tool, from its start to its answer.

use crate::reply::{
    error_message, json_response, message_reply, rpc_error, Reply, ReplyBodyView, ReplyView,
    RpcErrorView, RpcMessage, RpcMessageView, INTERNAL_ERROR, INVALID_PARAMS, OK,
};
use crate::stream::{
    asks_to_report, last_after, last_of, reports, transcript, EventStream, EventStreamView,
    StreamEvent, Tick,
};
use serde_json::Value;
use vstd::prelude::*;

verus! {

/// For how long a call is waited for, in seconds, before its progress is streamed; and how often
/// the stream looks at it from then on.
pub const PROGRESS_THRESHOLD_SECS: u64 = 2;

/// How the work of a tool ended.
pub enum ToolOutcome {
    /// It answers with this response.
    Response(Value),
    /// It refused its arguments.
    Refused(String),
    /// It panicked.
    Panicked,
    /// It went away without a word.
    Lost,
}

/// The message that answers a call.
pub open spec fn answer(id: Value, outcome: ToolOutcome) -> RpcMessageView {
    match outcome {
        ToolOutcome::Response(response) => RpcMessageView::Response(response),
        ToolOutcome::Refused(reason) => error_message(Some(id), INVALID_PARAMS, reason@),
        ToolOutcome::Panicked => error_message(Some(id), INTERNAL_ERROR, "tool execution panicked"@),
        ToolOutcome::Lost => error_message(
            Some(id),
            INTERNAL_ERROR,
            "tool execution ended without a response"@,
        ),
    }
}

/// The message that answers a call.
pub fn answer_to(id: Value, outcome: ToolOutcome) -> (message: RpcMessage)
    ensures
        message@ == answer(id, outcome),
{
    match outcome {
        ToolOutcome::Response(response) => RpcMessage::Response(response),
        ToolOutcome::Refused(reason) => rpc_error(Some(id), INVALID_PARAMS, reason.as_str()),
        ToolOutcome::Panicked => rpc_error(Some(id), INTERNAL_ERROR, "tool execution panicked"),
        ToolOutcome::Lost => rpc_error(
            Some(id),
            INTERNAL_ERROR,
            "tool execution ended without a response",
        ),
    }
}

/// What the notifications of a call's progress carry.
pub struct Progress {
    pub token: Value,
    pub phase: &'static str,
}

/// A call that has been admitted and not yet been answered.
pub struct PendingCall {
    id: Value,
    progress: Option<Progress>,
}

pub struct PendingCallView {
    pub id: Value,
    /// The token and the phase of progress notifications, where the call may be streamed.
    pub progress: Option<(Value, Seq<char>)>,
}

impl View for PendingCall {
    type V = PendingCallView;

    closed spec fn view(&self) -> PendingCallView {
        PendingCallView {
            id: self.id,
            progress: match self.progress {
                Some(progress) => Some((progress.token, progress.phase@)),
                None => None,
            },
        }
    }
}

/// What to do with a call that is not answered when the threshold has passed.
pub enum AfterThreshold {
    /// Wait for its outcome, for as long as it takes.
    KeepWaiting(PendingCall),
    /// Stream its progress.
    Stream(EventStream),
}

/// The stream that a call turns into when the threshold has passed: none where it has been told
/// to stop, or may not be streamed.
pub open spec fn streamed(call: PendingCallView, stopped: bool) -> Option<EventStreamView> {
    match call.progress {
        Some((progress_token, phase)) => if stopped {
            None
        } else {
            Some(EventStreamView { id: call.id, progress_token, phase, last: None })
        },
        None => None,
    }
}

impl PendingCall {
    /// A call may be streamed where its client asked for progress and its tool has a phase to
    /// report.
    pub fn new(id: Value, progress_token: Option<Value>, phase: Option<&'static str>) -> (call:
        PendingCall)
        ensures
            call@.id == id,
            call@.progress == (match (progress_token, phase) {
                (Some(token), Some(phase)) => Some((token, phase@)),
                _ => None,
            }),
    {
        let progress = match (progress_token, phase) {
            (Some(token), Some(phase)) => Some(Progress { token, phase }),
            _ => None,
        };
        PendingCall { id, progress }
    }

    /// Whether to watch the clock besides the call.
    pub fn has_threshold(&self) -> (watch: bool)
        ensures
            watch == (self@.progress is Some),
    {
        self.progress.is_some()
    }

    /// What to do when the threshold has passed: a call that has been told to stop, or that may
    /// not be streamed, is waited for to its end.
    pub fn on_threshold(self, stopped: bool) -> (next: AfterThreshold)
        ensures
            match streamed(self@, stopped) {
                Some(expected) => next matches AfterThreshold::Stream(stream) && stream@
                    == expected,
                None => next matches AfterThreshold::KeepWaiting(call) && call@ == (
                PendingCallView { id: self@.id, progress: None }),
            },
    {
        match self.progress {
            Some(progress) => if stopped {
                AfterThreshold::KeepWaiting(PendingCall { id: self.id, progress: None })
            } else {
                AfterThreshold::Stream(EventStream::new(self.id, progress.token, progress.phase))
            },
            None => AfterThreshold::KeepWaiting(PendingCall { id: self.id, progress: None }),
        }
    }

    /// The response that answers the call outright.
    pub fn on_outcome(self, outcome: ToolOutcome) -> (reply: Reply)
        ensures
            reply@ == message_reply(OK, answer(self@.id, outcome)),
    {
        json_response(OK, answer_to(self.id, outcome))
    }
}

/// However a call is answered, outright or at the end of its stream, the message is the same.
pub proof fn law_answer_is_the_same_when_streamed(
    call: PendingCallView,
    stopped: bool,
    outcome: ToolOutcome,
)
    ensures
        streamed(call, stopped) matches Some(stream) ==> answer(stream.id, outcome) == answer(
            call.id,
            outcome,
        ),
{
}

/// The answer to a call is the response of its tool, whatever that is; and where there is none, an
/// error under the call's own id: the tool's own words where it refused, and fixed words where it
/// panicked or went away.
pub proof fn law_answer_tells_the_outcome(id: Value, response: Value, reason: String)
    ensures
        answer(id, ToolOutcome::Response(response)) == RpcMessageView::Response(response),
        answer(id, ToolOutcome::Refused(reason)) == RpcMessageView::Error(
            (RpcErrorView { id: Some(id), code: -32602i64, message: reason@ }),
        ),
        answer(id, ToolOutcome::Panicked) == RpcMessageView::Error(
            (RpcErrorView { id: Some(id), code: -32603i64, message: "tool execution panicked"@ }),
        ),
        answer(id, ToolOutcome::Lost) == RpcMessageView::Error(
            (RpcErrorView {
                id: Some(id),
                code: -32603i64,
                message: "tool execution ended without a response"@,
            }),
        ),
{
}

/// A response reaches the client unchanged, outright as well as at the end of a stream.
pub proof fn law_response_reaches_the_client(
    id: Value,
    response: Value,
    ticks: Seq<Tick>,
)
    ensures
        message_reply(OK, answer(id, ToolOutcome::Response(response))) == (ReplyView {
            status: 200,
            fields: seq![("content-type"@, "application/json"@)],
            body: ReplyBodyView::Message(RpcMessageView::Response(response)),
        }),
        transcript(id, ticks, ToolOutcome::Response(response)).last() == StreamEvent::Answer(
            RpcMessageView::Response(response),
        ),
{
}

/// A call with a token and a phase that has not been told to stop turns into a stream of its own id,
/// token and phase, which has reported nothing yet: at its first look at the call, however far that
/// is, it asks to report, and reports once the right is granted.
pub proof fn law_stream_begins_with_the_first_progress(
    id: Value,
    progress_token: Value,
    phase: Seq<char>,
    current: u64,
)
    ensures
        streamed(PendingCallView { id, progress: Some((progress_token, phase)) }, false) matches Some(
            stream,
        ) && {
            &&& stream.id == id
            &&& stream.progress_token == progress_token
            &&& stream.phase == phase
            &&& stream.last == last_of(Seq::empty())
            &&& asks_to_report(stream.last, false, false, current)
            &&& reports(
                stream.last,
                Tick { finished: false, stopped: false, current, claimed: true },
            )
            &&& last_after(
                stream.last,
                Tick { finished: false, stopped: false, current, claimed: true },
            ) == Some(current)
        },
{
}

/// A call is not streamed once it has been told to stop, nor where it has no progress to report.
pub proof fn law_other_calls_are_not_streamed(call: PendingCallView, stopped: bool)
    requires
        stopped || call.progress is None,
    ensures
        streamed(call, stopped) is None,
{
}

/// A call with a token and a phase that goes on past the threshold is streamed from its first
/// progress on; any other call is waited for, and keeps its id, so that its answer is its own.
pub proof fn law_slow_call_is_streamed_or_waited_for(
    id: Value,
    token: Option<Value>,
    phase: Option<&'static str>,
    call: PendingCall,
    stopped: bool,
    next: AfterThreshold,
    current: u64,
    ask: bool,
    outcome: ToolOutcome,
    reply: Reply,
)
    requires
        call_ensures(PendingCall::new, (id, token, phase), call),
        call_ensures(PendingCall::on_threshold, (call, stopped), next),
        next matches AfterThreshold::Stream(stream) ==> call_ensures(
            EventStream::on_tick,
            (&stream, false, false, current),
            ask,
        ),
        next matches AfterThreshold::KeepWaiting(waiting) ==> call_ensures(
            PendingCall::on_outcome,
            (waiting, outcome),
            reply,
        ),
    ensures
        token is Some && phase is Some && !stopped ==> next is Stream && ask,
        token is None || phase is None || stopped ==> next is KeepWaiting && reply.status == 200
            && reply@.body == ReplyBodyView::Message(answer(id, outcome)),
        next matches AfterThreshold::Stream(stream) ==> stream@.id == id && Some(
            stream@.progress_token,
        ) == token && stream@.phase == phase->0@,
{
}

/// A call that is answered before the threshold gets its answer under its own id.
pub proof fn law_quick_call_is_answered(
    id: Value,
    token: Option<Value>,
    phase: Option<&'static str>,
    call: PendingCall,
    response: Value,
    reply: Reply,
)
    requires
        call_ensures(PendingCall::new, (id, token, phase), call),
        call_ensures(PendingCall::on_outcome, (call, ToolOutcome::Response(response)), reply),
    ensures
        reply@ == (ReplyView {
            status: 200,
            fields: seq![("content-type"@, "application/json"@)],
            body: ReplyBodyView::Message(RpcMessageView::Response(response)),
        }),
{
}

/// The clock is watched exactly for the calls that may be streamed.
pub proof fn law_clock_is_watched_for_progress(
    id: Value,
    token: Option<Value>,
    phase: Option<&'static str>,
    call: PendingCall,
    watch: bool,
)
    requires
        call_ensures(PendingCall::new, (id, token, phase), call),
        call_ensures(PendingCall::has_threshold, (&call,), watch),
    ensures
        watch <==> token is Some && phase is Some,
{
}

} // verus!
