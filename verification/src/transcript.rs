//! Whole streams: what is sent from the first turn to the last.
use vstd::prelude::*;

use crate::chunk::{ChunkView, ToolCallDeltaView};
use crate::event::{self, ErrorView, EventView, TokenUsage};
use crate::pending::{self, PendingView};
use crate::stream::{self, ActionView, PollView, StreamView};
use crate::text;

verus! {

/// What one turn of the polling loop brought; `decoded` is what the decoder
/// made of the payload.
pub enum Turn {
    Event { data: Seq<char>, decoded: Result<ChunkView, Seq<char>> },
    StreamError(Seq<char>),
    Closed,
    IdleTimeout,
}

impl Turn {
    /// What the poll of the turn brought.
    pub open spec fn poll(self) -> PollView {
        match self {
            Turn::Event { data, decoded } => PollView::Event(data),
            Turn::StreamError(message) => PollView::StreamError(message),
            Turn::Closed => PollView::Closed,
            Turn::IdleTimeout => PollView::IdleTimeout,
        }
    }

    /// Whether the stream stops at the turn.
    pub open spec fn stops(self) -> bool {
        match self {
            Turn::Event { data, decoded } => text::is_padded(data, "[DONE]"@) || decoded is Err,
            _ => true,
        }
    }
}

impl StreamView {
    /// What to do at the end of a turn.
    pub open spec fn on_turn(self, turn: Turn) -> ActionView {
        match (self.on_poll(turn.poll()), turn) {
            (ActionView::Decode { stream, data }, Turn::Event { data: _, decoded }) => {
                stream.on_decoded(decoded)
            },
            (action, _) => action,
        }
    }

    /// What is sent in the turns `turns`.
    pub open spec fn sent(self, turns: Seq<Turn>) -> Seq<Result<EventView, ErrorView>>
        decreases turns.len(),
    {
        if turns.len() == 0 {
            Seq::empty()
        } else {
            match self.on_turn(turns[0]) {
                ActionView::Continue { stream, events } => {
                    in_good_order(events) + stream.sent(turns.drop_first())
                },
                ActionView::Finish { events } => in_good_order(events),
                ActionView::Fail { error } => seq![Err(error)],
                ActionView::Decode { stream, data } => Seq::empty(),
            }
        }
    }

    /// The stream after `chunks`.
    pub open spec fn after_all(self, chunks: Seq<ChunkView>) -> StreamView
        decreases chunks.len(),
    {
        if chunks.len() == 0 {
            self
        } else {
            self.after_all(chunks.drop_last()).after(chunks.last())
        }
    }

    /// The events for `chunks`.
    pub open spec fn all_events(self, chunks: Seq<ChunkView>) -> Seq<EventView>
        decreases chunks.len(),
    {
        if chunks.len() == 0 {
            Seq::empty()
        } else {
            self.all_events(chunks.drop_last()) + self.after_all(chunks.drop_last()).events(
                chunks.last(),
            )
        }
    }
}

/// `events` as they are sent: none of them is an error.
pub open spec fn in_good_order(events: Seq<EventView>) -> Seq<Result<EventView, ErrorView>> {
    events.map_values(|event: EventView| Ok::<EventView, ErrorView>(event))
}

/// All that is sent in a stream with the turns `turns`.
pub open spec fn transcript(turns: Seq<Turn>) -> Seq<Result<EventView, ErrorView>> {
    in_good_order(seq![EventView::Created]) + StreamView::initial().sent(turns)
}

/// Whether nothing may follow what was sent: the completion, or an error.
pub open spec fn is_final(sent: Result<EventView, ErrorView>) -> bool {
    match sent {
        Ok(event) => event is Completed,
        Err(_) => true,
    }
}

/// The stream when all of `chunks` have arrived.
pub open spec fn stream_after(chunks: Seq<ChunkView>) -> StreamView {
    StreamView::initial().after_all(chunks)
}

/// All events of a stream that ends in good order after `chunks`.
pub open spec fn completed_stream(chunks: Seq<ChunkView>) -> Seq<EventView> {
    seq![EventView::Created] + StreamView::initial().all_events(chunks) + stream_after(
        chunks,
    ).closing_events()
}

/// Whether `turns` hand over `chunks`, one after the other.
pub open spec fn hand_over(turns: Seq<Turn>, chunks: Seq<ChunkView>) -> bool {
    &&& turns.len() == chunks.len()
    &&& forall|i: int|
        0 <= i < turns.len() ==> !(#[trigger] turns[i]).stops() && turns[i]->decoded == Ok::<
            ChunkView,
            Seq<char>,
        >(chunks[i])
}

/// Whether `turn` ends a stream in good order: the connection is closed, or
/// the end marker has come.
pub open spec fn ends_in_good_order(turn: Turn) -> bool {
    match turn {
        Turn::Event { data, decoded } => text::is_padded(data, "[DONE]"@),
        Turn::Closed => true,
        _ => false,
    }
}

/// The error for a turn that breaks a stream off.
pub open spec fn break_off_error(turn: Turn) -> ErrorView {
    match turn {
        Turn::Event { data, decoded } => ErrorView::Stream(
            "failed to parse chat completions chunk: "@ + decoded->Err_0,
        ),
        Turn::StreamError(message) => ErrorView::Stream(
            "chat completions SSE stream error: "@ + message,
        ),
        _ => ErrorView::Stream("chat completions SSE idle timeout"@),
    }
}

/// The texts of the text events among `events`, in order.
pub open spec fn texts(events: Seq<EventView>) -> Seq<Seq<char>>
    decreases events.len(),
{
    if events.len() == 0 {
        Seq::empty()
    } else {
        match events.last() {
            EventView::OutputTextDelta(text) => texts(events.drop_last()).push(text),
            _ => texts(events.drop_last()),
        }
    }
}

/// Whether the message is opened at place `k` of `events`: the first piece of
/// its text follows at once, and no piece comes before.
pub open spec fn message_opened_at(events: Seq<EventView>, k: int) -> bool {
    &&& 0 <= k < events.len() - 1
    &&& events[k] == event::message_opened(stream::nth_message_id(1))
    &&& events[k + 1] is OutputTextDelta
    &&& forall|i: int|
        0 <= i < events.len() ==> (#[trigger] events[i] is OutputItemAdded ==> i == k) && (
        events[i] is OutputTextDelta ==> i > k)
}

/// Whether `event` reports a tool call.
pub open spec fn is_tool_call(event: EventView) -> bool {
    event matches EventView::OutputItemDone(item) && item is FunctionCall
}

/// Whether `event` closes a message.
pub open spec fn closes_message(event: EventView) -> bool {
    event matches EventView::OutputItemDone(item) && item is Message
}

/// The events among `events` that report tool calls, in order.
pub open spec fn tool_calls(events: Seq<EventView>) -> Seq<EventView>
    decreases events.len(),
{
    if events.len() == 0 {
        Seq::empty()
    } else if is_tool_call(events.last()) {
        tool_calls(events.drop_last()).push(events.last())
    } else {
        tool_calls(events.drop_last())
    }
}

/// The pieces of text that `chunks` carry, in order.
pub open spec fn pieces(chunks: Seq<ChunkView>) -> Seq<Seq<char>>
    decreases chunks.len(),
{
    if chunks.len() == 0 {
        Seq::empty()
    } else {
        match chunks.last().content() {
            Some(content) => pieces(chunks.drop_last()).push(content),
            None => pieces(chunks.drop_last()),
        }
    }
}

/// The texts `parts` in one.
pub open spec fn concatenated(parts: Seq<Seq<char>>) -> Seq<char>
    decreases parts.len(),
{
    if parts.len() == 0 {
        Seq::empty()
    } else {
        concatenated(parts.drop_last()) + parts.last()
    }
}

/// The first of `values` that is present.
pub open spec fn first_present(values: Seq<Option<Seq<char>>>) -> Option<Seq<char>>
    decreases values.len(),
{
    if values.len() == 0 {
        None
    } else {
        pending::first_of(first_present(values.drop_last()), values.last())
    }
}

/// The last usage that `chunks` report.
pub open spec fn last_usage(chunks: Seq<ChunkView>) -> Option<TokenUsage>
    decreases chunks.len(),
{
    if chunks.len() == 0 {
        None
    } else {
        match chunks.last().usage {
            Some(usage) => Some(stream::token_usage(usage)),
            None => last_usage(chunks.drop_last()),
        }
    }
}

/// The tool-call fragments that have arrived since the last complete calls.
pub open spec fn open_fragments(chunks: Seq<ChunkView>) -> Seq<ToolCallDeltaView>
    decreases chunks.len(),
{
    if chunks.len() == 0 || chunks.last().ends_tool_calls() {
        Seq::empty()
    } else {
        open_fragments(chunks.drop_last()) + chunks.last().tool_calls()
    }
}

/// The calls that `fragments` make up, from none.
pub open spec fn calls_of(fragments: Seq<ToolCallDeltaView>) -> Map<usize, PendingView> {
    pending::with_fragments(Map::empty(), fragments)
}

/// The events for the tool calls that `chunks` complete.
pub open spec fn completed_calls(chunks: Seq<ChunkView>) -> Seq<EventView>
    decreases chunks.len(),
{
    if chunks.len() == 0 {
        Seq::empty()
    } else if chunks.last().ends_tool_calls() {
        completed_calls(chunks.drop_last()) + pending::tool_call_events(
            calls_of(open_fragments(chunks.drop_last()) + chunks.last().tool_calls()),
        )
    } else {
        completed_calls(chunks.drop_last())
    }
}

/// The fragments among `fragments` that belong to the call `index`, in order.
pub open spec fn fragments_of(fragments: Seq<ToolCallDeltaView>, index: usize) -> Seq<
    ToolCallDeltaView,
>
    decreases fragments.len(),
{
    if fragments.len() == 0 {
        Seq::empty()
    } else if fragments.last().target() == index {
        fragments_of(fragments.drop_last(), index).push(fragments.last())
    } else {
        fragments_of(fragments.drop_last(), index)
    }
}

/// The identifiers that `fragments` give, in order.
pub open spec fn ids_of(fragments: Seq<ToolCallDeltaView>) -> Seq<Option<Seq<char>>> {
    fragments.map_values(|fragment: ToolCallDeltaView| fragment.id)
}

/// The function names that `fragments` give, in order.
pub open spec fn names_of(fragments: Seq<ToolCallDeltaView>) -> Seq<Option<Seq<char>>> {
    fragments.map_values(|fragment: ToolCallDeltaView| fragment.name())
}

/// The pieces of arguments that `fragments` carry, in order.
pub open spec fn arguments_of(fragments: Seq<ToolCallDeltaView>) -> Seq<Seq<char>> {
    fragments.map_values(|fragment: ToolCallDeltaView| fragment.arguments())
}

/// Whether `keys` lists the elements of `set`, in strictly ascending order.
pub open spec fn lists_ascending(keys: Seq<usize>, set: Set<usize>) -> bool {
    &&& forall|i: int, j: int| 0 <= i < j < keys.len() ==> keys[i] < keys[j]
    &&& forall|key: usize| set.contains(key) <==> keys.contains(key)
}

} // verus!
