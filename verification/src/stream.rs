//! The state machine behind a chat-completions stream.
//!
//! The caller polls the server-sent events, decodes their payloads and sends
//! the events on; what to do at each turn is decided here.
use std::collections::BTreeMap;
use vstd::prelude::*;

use crate::chunk::{
    self, ChatCompletionsStreamChunk, ChatCompletionsUsage, ChunkView, ToolCallDeltaView,
};
use crate::event::{
    self, ApiError, ErrorView, EventView, MessagePhase, ResponseEvent, TokenUsage,
};
use crate::pending::{self, PendingToolCall, PendingView};
use crate::text;

verus! {

/// A stream of chunks that is being turned into response events.
pub struct ChatCompletionsStream {
    response_id: Option<String>,
    assistant_message_id: Option<String>,
    assistant_message_seq: u64,
    assistant_text: String,
    pending_tool_calls: BTreeMap<usize, PendingToolCall>,
    final_usage: Option<TokenUsage>,
}

/// What a poll of the server-sent events brought.
pub enum SsePoll {
    /// An event with this payload.
    Event(String),
    /// An error of the event stream, in words.
    StreamError(String),
    /// The end of the event stream.
    Closed,
    /// Nothing within the idle time.
    IdleTimeout,
}

/// What to do next.
pub enum SseAction {
    /// Decode `data` as a chunk and go on with [`ChatCompletionsStream::on_decoded`].
    Decode { stream: ChatCompletionsStream, data: String },
    /// Send `events` and go on with [`ChatCompletionsStream::on_poll`].
    Continue { stream: ChatCompletionsStream, events: Vec<ResponseEvent> },
    /// Send `events` and stop.
    Finish { events: Vec<ResponseEvent> },
    /// Send `error` and stop.
    Fail { error: ApiError },
}

/// Model of a [`ChatCompletionsStream`].
pub struct StreamView {
    pub response_id: Option<Seq<char>>,
    pub message_id: Option<Seq<char>>,
    pub message_seq: nat,
    pub text: Seq<char>,
    pub pending: Map<usize, PendingView>,
    pub usage: Option<TokenUsage>,
}

/// Model of an [`SsePoll`].
pub enum PollView {
    Event(Seq<char>),
    StreamError(Seq<char>),
    Closed,
    IdleTimeout,
}

/// Model of an [`SseAction`].
pub enum ActionView {
    Decode { stream: StreamView, data: Seq<char> },
    Continue { stream: StreamView, events: Seq<EventView> },
    Finish { events: Seq<EventView> },
    Fail { error: ErrorView },
}

impl View for ChatCompletionsStream {
    type V = StreamView;

    closed spec fn view(&self) -> StreamView {
        StreamView {
            response_id: self.response_id.deep_view(),
            message_id: self.assistant_message_id.deep_view(),
            message_seq: self.assistant_message_seq as nat,
            text: self.assistant_text@,
            pending: pending::pending_view(self.pending_tool_calls@),
            usage: self.final_usage,
        }
    }
}

impl DeepView for SsePoll {
    type V = PollView;

    open spec fn deep_view(&self) -> PollView {
        match self {
            SsePoll::Event(data) => PollView::Event(data@),
            SsePoll::StreamError(message) => PollView::StreamError(message@),
            SsePoll::Closed => PollView::Closed,
            SsePoll::IdleTimeout => PollView::IdleTimeout,
        }
    }
}

impl DeepView for SseAction {
    type V = ActionView;

    open spec fn deep_view(&self) -> ActionView {
        match self {
            SseAction::Decode { stream, data } => ActionView::Decode {
                stream: stream@,
                data: data@,
            },
            SseAction::Continue { stream, events } => ActionView::Continue {
                stream: stream@,
                events: events.deep_view(),
            },
            SseAction::Finish { events } => ActionView::Finish { events: events.deep_view() },
            SseAction::Fail { error } => ActionView::Fail { error: error.deep_view() },
        }
    }
}

/// The result of decoding a payload: a chunk, or the decoder's error in words.
pub open spec fn decoded_view(decoded: Result<ChatCompletionsStreamChunk, String>) -> Result<
    ChunkView,
    Seq<char>,
> {
    match decoded {
        Ok(chunk) => Ok(chunk.deep_view()),
        Err(message) => Err(message@),
    }
}

/// The token counts that `usage` reports; what is missing counts as zero, and
/// a missing total is the sum of prompt and completion.
pub open spec fn token_usage(usage: ChatCompletionsUsage) -> TokenUsage {
    let input = chunk::count_or_zero(usage.prompt_tokens);
    let output = chunk::count_or_zero(usage.completion_tokens);
    TokenUsage {
        input_tokens: input,
        cached_input_tokens: match usage.prompt_tokens_details {
            Some(details) => chunk::count_or_zero(details.cached_tokens),
            None => 0,
        },
        output_tokens: output,
        reasoning_output_tokens: 0,
        total_tokens: match usage.total_tokens {
            Some(total) => total,
            None => (input + output) as i64,
        },
    }
}

/// The identifier of the message with number `n`.
pub open spec fn nth_message_id(n: nat) -> Seq<char> {
    "msg_"@ + text::decimal(n)
}

impl StreamView {
    /// A stream of which no chunk has arrived.
    pub open spec fn initial() -> StreamView {
        StreamView {
            response_id: None,
            message_id: None,
            message_seq: 0,
            text: Seq::empty(),
            pending: Map::empty(),
            usage: None,
        }
    }

    /// What holds of every stream: there is at most one message, it is the
    /// first one, and there is no text without it.
    pub open spec fn well_formed(self) -> bool {
        &&& self.message_id is None ==> self.message_seq == 0 && self.text.len() == 0
        &&& self.message_id is Some ==> self.message_seq == 1 && self.message_id == Some(
            nth_message_id(1),
        )
        &&& self.pending.dom().finite()
    }

    /// The pending calls with the fragments of `chunk` added.
    pub open spec fn gathered(self, chunk: ChunkView) -> Map<usize, PendingView> {
        pending::with_fragments(self.pending, chunk.tool_calls())
    }

    /// The stream after `chunk`.
    pub open spec fn after(self, chunk: ChunkView) -> StreamView {
        let opens = chunk.content() is Some && self.message_id is None;
        StreamView {
            response_id: pending::first_of(self.response_id, chunk.id),
            message_id: if opens {
                Some(nth_message_id(self.message_seq + 1))
            } else {
                self.message_id
            },
            message_seq: if opens {
                self.message_seq + 1
            } else {
                self.message_seq
            },
            text: match chunk.content() {
                Some(content) => self.text + content,
                None => self.text,
            },
            pending: if chunk.ends_tool_calls() {
                Map::empty()
            } else {
                self.gathered(chunk)
            },
            usage: match chunk.usage {
                Some(usage) => Some(token_usage(usage)),
                None => self.usage,
            },
        }
    }

    /// The events for the text of `chunk`: the message is opened at its first
    /// piece.
    pub open spec fn text_events(self, chunk: ChunkView) -> Seq<EventView> {
        match chunk.content() {
            Some(content) => {
                let piece = seq![EventView::OutputTextDelta(content)];
                if self.message_id is None {
                    seq![event::message_opened(nth_message_id(self.message_seq + 1))]
                        + piece
                } else {
                    piece
                }
            },
            None => Seq::empty(),
        }
    }

    /// The events for the tool calls of `chunk`: none before they are complete.
    pub open spec fn tool_events(self, chunk: ChunkView) -> Seq<EventView> {
        if chunk.ends_tool_calls() {
            pending::tool_call_events(self.gathered(chunk))
        } else {
            Seq::empty()
        }
    }

    /// The events for `chunk`.
    pub open spec fn events(self, chunk: ChunkView) -> Seq<EventView> {
        self.text_events(chunk) + self.tool_events(chunk)
    }

    /// The events for the message when the stream ends: it is closed, unless
    /// its text is blank.
    pub open spec fn closing_message(self) -> Seq<EventView> {
        match self.message_id {
            Some(id) => if text::blank(self.text) {
                Seq::empty()
            } else {
                seq![event::message_closed(id, self.text)]
            },
            None => Seq::empty(),
        }
    }

    /// The last event of a stream that ends in good order.
    pub open spec fn completed(self) -> EventView {
        EventView::Completed {
            response_id: pending::text_or(self.response_id, "chatcmpl_unknown"@),
            token_usage: self.usage,
        }
    }

    /// The events at the end of the stream: the tool calls that are left, the
    /// message, and the completion.
    pub open spec fn closing_events(self) -> Seq<EventView> {
        pending::tool_call_events(self.pending) + self.closing_message() + seq![
            self.completed(),
        ]
    }

    /// What to do after a poll.
    pub open spec fn on_poll(self, poll: PollView) -> ActionView {
        match poll {
            PollView::Event(data) => if text::is_padded(data, "[DONE]"@) {
                ActionView::Finish { events: self.closing_events() }
            } else {
                ActionView::Decode { stream: self, data }
            },
            PollView::StreamError(message) => ActionView::Fail {
                error: ErrorView::Stream("chat completions SSE stream error: "@ + message),
            },
            PollView::Closed => ActionView::Finish { events: self.closing_events() },
            PollView::IdleTimeout => ActionView::Fail {
                error: ErrorView::Stream("chat completions SSE idle timeout"@),
            },
        }
    }

    /// What to do after a payload was decoded.
    pub open spec fn on_decoded(self, decoded: Result<ChunkView, Seq<char>>) -> ActionView {
        match decoded {
            Ok(chunk) => ActionView::Continue {
                stream: self.after(chunk),
                events: self.events(chunk),
            },
            Err(message) => ActionView::Fail {
                error: ErrorView::Stream("failed to parse chat completions chunk: "@ + message),
            },
        }
    }
}

/// Adding fragments keeps the pending calls finite.
proof fn lemma_fragments_keep_finite(
    pending: Map<usize, PendingView>,
    fragments: Seq<ToolCallDeltaView>,
)
    requires
        pending.dom().finite(),
    ensures
        pending::with_fragments(pending, fragments).dom().finite(),
    decreases fragments.len(),
{
    if fragments.len() > 0 {
        lemma_fragments_keep_finite(pending, fragments.drop_last());
    }
}

/// Every chunk keeps a stream well formed.
pub proof fn lemma_after_well_formed(stream: StreamView, chunk: ChunkView)
    requires
        stream.well_formed(),
    ensures
        stream.after(chunk).well_formed(),
{
    lemma_fragments_keep_finite(stream.pending, chunk.tool_calls());
}

/// The token counts that `usage` reports.
fn reported_usage(usage: &ChatCompletionsUsage) -> (counts: TokenUsage)
    requires
        usage.total_in_range(),
    ensures
        counts == token_usage(*usage),
{
    let input: i64 = usage.prompt_tokens.unwrap_or(0);
    let output: i64 = usage.completion_tokens.unwrap_or(0);
    let cached: i64 = match usage.prompt_tokens_details {
        Some(details) => details.cached_tokens.unwrap_or(0),
        None => 0,
    };
    let total: i64 = match usage.total_tokens {
        Some(total) => total,
        None => input + output,
    };
    TokenUsage {
        input_tokens: input,
        cached_input_tokens: cached,
        output_tokens: output,
        reasoning_output_tokens: 0,
        total_tokens: total,
    }
}

/// Appends `more` to `events`.
fn append_events(events: &mut Vec<ResponseEvent>, more: Vec<ResponseEvent>)
    ensures
        final(events).deep_view() == old(events).deep_view() + more.deep_view(),
{
    let mut rest = more;
    events.append(&mut rest);
    assert(events.deep_view() =~= old(events).deep_view() + more.deep_view());
}

/// Appends `event` to `events`.
fn push_event(events: &mut Vec<ResponseEvent>, event: ResponseEvent)
    ensures
        final(events).deep_view() == old(events).deep_view().push(event.deep_view()),
{
    events.push(event);
    assert(events.deep_view() =~= old(events).deep_view().push(event.deep_view()));
}

impl ChatCompletionsStream {
    #[verifier::type_invariant]
    spec fn inv(self) -> bool {
        self@.well_formed()
    }

    /// Opens a stream; the event is to be sent before anything is polled.
    pub fn open() -> (opened: (ChatCompletionsStream, ResponseEvent))
        ensures
            opened.0@ == StreamView::initial(),
            opened.1.deep_view() == EventView::Created,
    {
        let pending_tool_calls: BTreeMap<usize, PendingToolCall> = BTreeMap::new();
        assert(pending::pending_view(pending_tool_calls@) =~= Map::empty());
        let stream = ChatCompletionsStream {
            response_id: None,
            assistant_message_id: None,
            assistant_message_seq: 0,
            assistant_text: String::new(),
            pending_tool_calls,
            final_usage: None,
        };
        (stream, ResponseEvent::Created)
    }

    /// Decides what to do after a poll.
    pub fn on_poll(self, poll: SsePoll) -> (action: SseAction)
        ensures
            action.deep_view() == self@.on_poll(poll.deep_view()),
    {
        match poll {
            SsePoll::Event(data) => if text::is_done_marker(data.as_str()) {
                SseAction::Finish { events: self.close() }
            } else {
                SseAction::Decode { stream: self, data }
            },
            SsePoll::StreamError(message) => SseAction::Fail {
                error: ApiError::Stream(
                    text::joined("chat completions SSE stream error: ", message.as_str()),
                ),
            },
            SsePoll::Closed => SseAction::Finish { events: self.close() },
            SsePoll::IdleTimeout => SseAction::Fail {
                error: ApiError::Stream("chat completions SSE idle timeout".to_owned()),
            },
        }
    }

    /// Decides what to do after a payload was decoded.
    pub fn on_decoded(self, decoded: Result<ChatCompletionsStreamChunk, String>) -> (action:
        SseAction)
        requires
            decoded matches Ok(chunk) ==> chunk::usage_in_range(chunk.deep_view()),
        ensures
            action.deep_view() == self@.on_decoded(decoded_view(decoded)),
    {
        match decoded {
            Ok(chunk) => {
                let (stream, events) = self.on_chunk(&chunk);
                SseAction::Continue { stream, events }
            },
            Err(message) => SseAction::Fail {
                error: ApiError::Stream(
                    text::joined("failed to parse chat completions chunk: ", message.as_str()),
                ),
            },
        }
    }

    /// Takes in one chunk; yields the stream after it and the events for it.
    pub fn on_chunk(self, chunk: &ChatCompletionsStreamChunk) -> (step: (
        ChatCompletionsStream,
        Vec<ResponseEvent>,
    ))
        requires
            chunk::usage_in_range(chunk.deep_view()),
        ensures
            step.0@ == self@.after(chunk.deep_view()),
            step.1.deep_view() == self@.events(chunk.deep_view()),
    {
        proof {
            use_type_invariant(&self);
            lemma_after_well_formed(self@, chunk.deep_view());
        }
        let ghost before = self@;
        let ghost view = chunk.deep_view();
        let mut response_id = self.response_id;
        let mut message_id = self.assistant_message_id;
        let mut message_seq: u64 = self.assistant_message_seq;
        let mut assistant_text = self.assistant_text;
        let mut pending_tool_calls = self.pending_tool_calls;
        let mut usage = self.final_usage;
        let mut events: Vec<ResponseEvent> = Vec::new();
        assert(events.deep_view() =~= Seq::<EventView>::empty());

        if response_id.is_none() {
            response_id = chunk.id.clone();
        }
        if let Some(reported) = &chunk.usage {
            usage = Some(reported_usage(reported));
        }
        if let Some(choice) = chunk.first_choice() {
            if let Some(delta) = &choice.delta {
                if let Some(content) = &delta.content {
                    if message_id.is_none() {
                        message_seq = message_seq + 1;
                        let id = text::message_id(message_seq);
                        message_id = Some(id.clone());
                        push_event(
                            &mut events,
                            ResponseEvent::OutputItemAdded(
                                event::assistant_message(
                                    id,
                                    String::new(),
                                    None,
                                    MessagePhase::Commentary,
                                ),
                            ),
                        );
                    }
                    assistant_text.append(content.as_str());
                    push_event(&mut events, ResponseEvent::OutputTextDelta(content.clone()));
                }
                if let Some(tool_calls) = &delta.tool_calls {
                    pending::add_fragments(&mut pending_tool_calls, tool_calls);
                }
            }
            assert(pending::pending_view(pending_tool_calls@) == before.gathered(view));
            assert(events.deep_view() =~= before.text_events(view));
            if let Some(finish_reason) = &choice.finish_reason {
                if text::same_text(finish_reason.as_str(), "tool_calls") {
                    append_events(
                        &mut events,
                        pending::emit_pending_tool_calls(&pending_tool_calls),
                    );
                    pending_tool_calls.clear();
                    assert(pending::pending_view(pending_tool_calls@) =~= Map::empty());
                }
            }
        }
        assert(events.deep_view() =~= before.events(view));
        let stream = ChatCompletionsStream {
            response_id,
            assistant_message_id: message_id,
            assistant_message_seq: message_seq,
            assistant_text,
            pending_tool_calls,
            final_usage: usage,
        };
        (stream, events)
    }

    /// The events at the end of the stream.
    fn close(self) -> (events: Vec<ResponseEvent>)
        ensures
            events.deep_view() == self@.closing_events(),
    {
        let mut events = pending::emit_pending_tool_calls(&self.pending_tool_calls);
        if let Some(id) = self.assistant_message_id {
            if !text::is_blank(self.assistant_text.as_str()) {
                push_event(
                    &mut events,
                    ResponseEvent::OutputItemDone(
                        event::assistant_message(
                            id,
                            self.assistant_text,
                            Some(true),
                            MessagePhase::FinalAnswer,
                        ),
                    ),
                );
            }
        }
        let response_id = match self.response_id {
            Some(id) => id,
            None => "chatcmpl_unknown".to_owned(),
        };
        push_event(
            &mut events,
            ResponseEvent::Completed { response_id, token_usage: self.final_usage },
        );
        assert(events.deep_view() =~= self@.closing_events());
        events
    }
}

} // verus!
