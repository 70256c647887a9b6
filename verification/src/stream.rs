//! Server-sent events: the progress of a long call, and then its one answer.

use crate::json::{is_plain, json_text, parsed_json, write_json};
use crate::reply::{RpcMessage, RpcMessageView};
use crate::tool::{answer, answer_to, ToolOutcome};
use serde_json::Value;
use vstd::prelude::*;
use vstd::string::StringExecFns;
use vstd::utf8::encode_utf8;

verus! {

/// One event with the given data, as it stands in the stream.
pub open spec fn event_text(data: Seq<char>) -> Seq<char> {
    "event: message\ndata: "@ + data + "\n\n"@
}

/// The data of an event: what stands between its label and the blank line that ends the event.
pub open spec fn event_data(text: Seq<char>) -> Seq<char> {
    text.subrange("event: message\ndata: "@.len() as int, text.len() - "\n\n"@.len())
}

/// No character of the text ends a line.
pub open spec fn is_one_line(text: Seq<char>) -> bool {
    forall|i: int| 0 <= i < text.len() ==> #[trigger] text[i] != '\n' && text[i] != '\r'
}

/// One event with the given data, as it stands in the stream.
pub fn event_with_data(data: &str) -> (text: String)
    ensures
        text@ == event_text(data@),
{
    let mut text = String::from_str("event: message\ndata: ");
    text.append(data);
    text.append("\n\n");
    text
}

/// The event that carries a JSON-RPC message. Its data is the text of the message, from which the
/// message is read back where that text is plain.
pub fn sse_event(value: &Value) -> (text: String)
    ensures
        text@ == event_text(json_text(*value)),
        event_data(text@) == json_text(*value),
        is_plain(event_data(text@)) ==> (parsed_json(encode_utf8(event_data(text@))) matches Ok(
            parsed,
        ) && parsed == *value),
        forall|i: int| 0 <= i < text@.len() ==> #[trigger] text@[i] != '\r',
        lines(text@) == seq![
            "event: message"@,
            "data: "@ + json_text(*value),
            Seq::<char>::empty(),
            Seq::<char>::empty(),
        ],
{
    let data = write_json(value);
    proof {
        law_event_is_two_lines(data@);
    }
    event_with_data(data.as_str())
}

/// `current` is further than what was last reported.
pub open spec fn advances(last: Option<u64>, current: u64) -> bool {
    match last {
        None => true,
        Some(previous) => current > previous,
    }
}

/// What a stream sees when it looks at its call.
pub struct Tick {
    /// The call has completed.
    pub finished: bool,
    /// The call has been told to stop.
    pub stopped: bool,
    /// How far the call is.
    pub current: u64,
    /// Whether the right to report progress is granted, where the stream asks for it.
    pub claimed: bool,
}

/// The stream asks for the right to report: the call goes on, and is further than last reported.
pub open spec fn asks_to_report(
    last: Option<u64>,
    finished: bool,
    stopped: bool,
    current: u64,
) -> bool {
    !finished && !stopped && advances(last, current)
}

/// The stream reports progress.
pub open spec fn reports(last: Option<u64>, tick: Tick) -> bool {
    asks_to_report(last, tick.finished, tick.stopped, tick.current) && tick.claimed
}

/// What has been reported last after a look at the call.
pub open spec fn last_after(last: Option<u64>, tick: Tick) -> Option<u64> {
    if reports(last, tick) {
        Some(tick.current)
    } else {
        last
    }
}

/// The answer to a call, in a stream of events.
pub struct EventStream {
    id: Value,
    progress_token: Value,
    phase: &'static str,
    last: Option<u64>,
}

pub struct EventStreamView {
    pub id: Value,
    pub progress_token: Value,
    pub phase: Seq<char>,
    /// The progress that was reported last.
    pub last: Option<u64>,
}

impl View for EventStream {
    type V = EventStreamView;

    closed spec fn view(&self) -> EventStreamView {
        EventStreamView {
            id: self.id,
            progress_token: self.progress_token,
            phase: self.phase@,
            last: self.last,
        }
    }
}

impl EventStream {
    /// A stream in which nothing has been reported yet.
    pub fn new(id: Value, progress_token: Value, phase: &'static str) -> (stream: EventStream)
        ensures
            stream@ == (EventStreamView { id, progress_token, phase: phase@, last: None }),
    {
        EventStream { id, progress_token, phase, last: None }
    }

    /// The token that every progress notification of this stream carries.
    pub fn progress_token(&self) -> (token: &Value)
        ensures
            *token == self@.progress_token,
    {
        &self.progress_token
    }

    /// The phase that every progress notification of this stream names.
    pub fn phase(&self) -> (phase: &'static str)
        ensures
            phase@ == self@.phase,
    {
        self.phase
    }

    /// Whether to ask for the right to report progress.
    pub fn on_tick(&self, finished: bool, stopped: bool, current: u64) -> (ask: bool)
        ensures
            ask == asks_to_report(self@.last, finished, stopped, current),
    {
        if finished || stopped {
            return false;
        }
        match self.last {
            None => true,
            Some(previous) => current > previous,
        }
    }

    /// Notes whether the right to report `current` was granted to a stream that asked for it; says
    /// whether to report it.
    pub fn on_claim(&mut self, current: u64, claimed: bool) -> (report: bool)
        ensures
            report == reports(
                old(self)@.last,
                Tick { finished: false, stopped: false, current, claimed },
            ),
            final(self)@ == (EventStreamView {
                last: last_after(
                    old(self)@.last,
                    Tick { finished: false, stopped: false, current, claimed },
                ),
                ..old(self)@
            }),
    {
        let advanced = match self.last {
            None => true,
            Some(previous) => current > previous,
        };
        if claimed && advanced {
            self.last = Some(current);
            true
        } else {
            false
        }
    }

    /// Ends the stream with the message for its last event.
    pub fn on_outcome(self, outcome: ToolOutcome) -> (message: RpcMessage)
        ensures
            message@ == answer(self@.id, outcome),
    {
        answer_to(self.id, outcome)
    }
}

/// What has been reported last after a history of looks at the call.
pub open spec fn last_of(ticks: Seq<Tick>) -> Option<u64>
    decreases ticks.len(),
{
    if ticks.len() == 0 {
        None
    } else {
        last_after(last_of(ticks.drop_last()), ticks.last())
    }
}

/// The progress that is reported over a history of looks at the call.
pub open spec fn reported(ticks: Seq<Tick>) -> Seq<u64>
    decreases ticks.len(),
{
    if ticks.len() == 0 {
        Seq::empty()
    } else if reports(last_of(ticks.drop_last()), ticks.last()) {
        reported(ticks.drop_last()).push(ticks.last().current)
    } else {
        reported(ticks.drop_last())
    }
}

/// Reported progress strictly increases, and what was reported last is the most.
pub proof fn law_progress_strictly_increases(ticks: Seq<Tick>)
    ensures
        forall|i: int, j: int|
            0 <= i < j < reported(ticks).len() ==> reported(ticks)[i] < reported(ticks)[j],
        last_of(ticks) == (if reported(ticks).len() == 0 {
            None
        } else {
            Some(reported(ticks).last())
        }),
    decreases ticks.len(),
{
    if ticks.len() > 0 {
        law_progress_strictly_increases(ticks.drop_last());
    }
}

/// What a stream carries.
pub enum StreamEvent {
    /// The call is this far.
    Progress(u64),
    /// The answer to the call.
    Answer(RpcMessageView),
}

/// Everything that the stream of a call carries, where it looked at the call as given before the
/// outcome was there.
pub open spec fn transcript(id: Value, ticks: Seq<Tick>, outcome: ToolOutcome) -> Seq<StreamEvent> {
    reported(ticks).map_values(|current: u64| StreamEvent::Progress(current)).push(
        StreamEvent::Answer(answer(id, outcome)),
    )
}

/// A stream carries exactly one answer, and carries it last; what comes before is progress that
/// strictly increases.
pub proof fn law_one_answer_ends_the_stream(id: Value, ticks: Seq<Tick>, outcome: ToolOutcome)
    ensures
        ({
            let events = transcript(id, ticks, outcome);
            &&& events.len() > 0
            &&& events.last() == StreamEvent::Answer(answer(id, outcome))
            &&& forall|i: int| 0 <= i < events.len() - 1 ==> #[trigger] events[i] is Progress
            &&& forall|i: int, j: int|
                0 <= i < j < events.len() - 1 ==> (#[trigger] events[i])->Progress_0 < (
                #[trigger] events[j])->Progress_0
        }),
{
    law_progress_strictly_increases(ticks);
}

/// A call that has completed or been told to stop is reported no further.
pub proof fn law_no_progress_after_the_end(last: Option<u64>, tick: Tick)
    requires
        tick.finished || tick.stopped,
    ensures
        !asks_to_report(last, tick.finished, tick.stopped, tick.current),
        last_after(last, tick) == last,
{
}

/// The lines of a text: what stands between its line breaks.
pub open spec fn lines(text: Seq<char>) -> Seq<Seq<char>>
    decreases text.len(),
{
    if text.len() == 0 {
        seq![text]
    } else {
        let rest = lines(text.drop_last());
        if text.last() == '\n' {
            rest.push(Seq::empty())
        } else {
            rest.drop_last().push(rest.last().push(text.last()))
        }
    }
}

proof fn lemma_lines_of_one_line(text: Seq<char>)
    requires
        forall|i: int| 0 <= i < text.len() ==> text[i] != '\n',
    ensures
        lines(text) =~= seq![text],
    decreases text.len(),
{
    if text.len() > 0 {
        let fewer = text.drop_last();
        lemma_lines_of_one_line(fewer);
        assert(lines(fewer).last() == fewer);
        assert(fewer.push(text.last()) =~= text);
    }
}

proof fn lemma_lines_append(text: Seq<char>, line: Seq<char>)
    requires
        forall|i: int| 0 <= i < line.len() ==> line[i] != '\n',
    ensures
        lines(text).len() > 0,
        lines(text + line) =~= lines(text).drop_last().push(lines(text).last() + line),
    decreases text.len() + line.len(),
{
    lemma_lines_exist(text);
    if line.len() == 0 {
        assert(text + line =~= text);
        assert(lines(text).last() + line =~= lines(text).last());
    } else {
        let fewer = line.drop_last();
        lemma_lines_append(text, fewer);
        assert((text + line).drop_last() =~= text + fewer);
        assert((lines(text).last() + fewer).push(line.last()) =~= lines(text).last() + line);
    }
}

proof fn lemma_lines_exist(text: Seq<char>)
    ensures
        lines(text).len() > 0,
    decreases text.len(),
{
    if text.len() > 0 {
        lemma_lines_exist(text.drop_last());
    }
}

/// An event whose data is one line is two lines, the name of the event and its data, and a blank
/// line that ends it: the data can be read back, no event number or other field stands in it, and
/// no carriage return ends a line early.
pub proof fn law_event_is_two_lines(data: Seq<char>)
    requires
        is_one_line(data),
    ensures
        event_data(event_text(data)) == data,
        forall|i: int|
            0 <= i < event_text(data).len() ==> #[trigger] event_text(data)[i] != '\r',
        lines(event_text(data)) == seq![
            "event: message"@,
            "data: "@ + data,
            Seq::<char>::empty(),
            Seq::<char>::empty(),
        ],
{
    reveal_strlit("event: message\ndata: ");
    reveal_strlit("event: message");
    reveal_strlit("data: ");
    reveal_strlit("\n\n");
    let name = "event: message"@;
    let label = "data: "@;
    let first = name.push('\n');
    assert("event: message\ndata: "@ =~= first + label);
    lemma_lines_of_one_line(name);
    assert(first.drop_last() =~= name);
    assert(lines(first) =~= seq![name, Seq::<char>::empty()]);
    let content = label + data;
    assert forall|i: int| 0 <= i < content.len() implies content[i] != '\n' by {
        if i >= label.len() {
            assert(content[i] == data[i - label.len()]);
        }
    }
    lemma_lines_append(first, content);
    let second = first + content;
    assert(Seq::<char>::empty() + content =~= content);
    assert(lines(second) =~= seq![name, content]);
    let third = second.push('\n');
    assert(third.drop_last() =~= second);
    assert(lines(third) =~= seq![name, content, Seq::<char>::empty()]);
    let whole = third.push('\n');
    assert(whole.drop_last() =~= third);
    assert(event_text(data) =~= whole);
    assert(event_data(event_text(data)) =~= data);
    assert forall|i: int| 0 <= i < whole.len() implies #[trigger] whole[i] != '\r' by {
        let start = "event: message\ndata: "@.len();
        if start <= i < start + data.len() {
            assert(whole[i] == data[i - start]);
        } else if i < start {
            assert(whole[i] == "event: message\ndata: "@[i]);
        }
    }
}

/// A stream asks to report exactly where its call goes on and is further than anything reported so
/// far; it reports where it asks and is granted the right, and what it then reports is what it
/// remembers. A stream that has reported nothing asks at once, however far its call is.
pub proof fn law_progress_is_reported_when_it_is_news(previous: u64, tick: Tick)
    ensures
        asks_to_report(None, tick.finished, tick.stopped, tick.current) <==> !tick.finished
            && !tick.stopped,
        asks_to_report(Some(previous), tick.finished, tick.stopped, tick.current) <==> !tick.finished
            && !tick.stopped && previous < tick.current,
        reports(None, tick) <==> !tick.finished && !tick.stopped && tick.claimed,
        reports(Some(previous), tick) <==> !tick.finished && !tick.stopped && tick.claimed
            && previous < tick.current,
        !tick.finished && !tick.stopped && tick.claimed ==> last_after(None, tick) == Some(
            tick.current,
        ),
        tick.finished || tick.stopped || !tick.claimed ==> last_after(None, tick) is None,
        last_after(Some(previous), tick) == Some(
            if !tick.finished && !tick.stopped && tick.claimed && previous < tick.current {
                tick.current
            } else {
                previous
            },
        ),
{
}

/// Over any history, the next look at the call adds its progress to what was reported exactly where
/// the call goes on, the right is granted and the progress is more than all that was reported.
pub proof fn law_every_advance_is_reported(ticks: Seq<Tick>, tick: Tick)
    ensures
        reported(Seq::empty()).len() == 0,
        !tick.finished && !tick.stopped && tick.claimed && (forall|i: int|
            0 <= i < reported(ticks).len() ==> reported(ticks)[i] < tick.current) ==> reported(
            ticks.push(tick),
        ) == reported(ticks).push(tick.current),
        tick.finished || tick.stopped || !tick.claimed || (exists|i: int|
            0 <= i < reported(ticks).len() && reported(ticks)[i] >= tick.current) ==> reported(
            ticks.push(tick),
        ) == reported(ticks),
{
    assert(ticks.push(tick).drop_last() =~= ticks);
    law_progress_strictly_increases(ticks);
    let seen = reported(ticks);
    if seen.len() > 0 {
        assert(seen.last() == seen[seen.len() - 1]);
    }
}

/// A stream carries all that is reported, in its order, and then the answer.
pub proof fn law_stream_carries_all_that_is_reported(
    id: Value,
    ticks: Seq<Tick>,
    outcome: ToolOutcome,
)
    ensures
        transcript(id, ticks, outcome).len() == reported(ticks).len() + 1,
        forall|i: int|
            0 <= i < reported(ticks).len() ==> #[trigger] transcript(id, ticks, outcome)[i]
                == StreamEvent::Progress(reported(ticks)[i]),
        transcript(id, ticks, outcome).last() == StreamEvent::Answer(answer(id, outcome)),
{
}

/// An event is its label, its data as it is, and the blank line; and its data is what stands
/// between the two.
pub proof fn law_event_frames_its_data(data: Seq<char>)
    ensures
        event_text(data).len() == data.len() + 23,
        event_text(data).take(21) == "event: message\ndata: "@,
        event_text(data).subrange(21, 21 + data.len() as int) == data,
        event_text(data)[21 + data.len() as int] == '\n',
        event_text(data)[22 + data.len() as int] == '\n',
        event_data("event: message\ndata: "@ + data + "\n\n"@) == data,
{
    reveal_strlit("event: message\ndata: ");
    reveal_strlit("\n\n");
    assert("event: message\ndata: "@.len() == 21);
    assert(event_text(data).take(21) =~= "event: message\ndata: "@);
    assert(event_text(data).subrange(21, 21 + data.len() as int) =~= data);
    assert(event_data("event: message\ndata: "@ + data + "\n\n"@) =~= data);
}

/// A text is cut into lines at every line feed.
pub proof fn law_lines_end_at_line_feeds(text: Seq<char>, line: Seq<char>)
    requires
        forall|i: int| 0 <= i < line.len() ==> line[i] != '\n',
    ensures
        lines(line) == seq![line],
        lines(text.push('\n') + line) == lines(text).push(line),
{
    lemma_lines_of_one_line(line);
    let first = text.push('\n');
    assert(first.drop_last() =~= text);
    lemma_lines_exist(text);
    assert(lines(first) == lines(text).push(Seq::empty()));
    lemma_lines_append(first, line);
    assert(Seq::<char>::empty() + line =~= line);
    assert(lines(text).push(Seq::empty()).drop_last() =~= lines(text));
}

} // verus!
