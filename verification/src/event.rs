//! The events that a consumer of the stream receives.
use vstd::prelude::*;

verus! {

/// An event of a response stream.
#[derive(Debug, PartialEq)]
pub enum ResponseEvent {
    /// The response has been accepted.
    Created,
    /// An item begins.
    OutputItemAdded(ResponseItem),
    /// An item is complete.
    OutputItemDone(ResponseItem),
    /// A piece of the message's text.
    OutputTextDelta(String),
    /// The response is complete.
    Completed { response_id: String, token_usage: Option<TokenUsage> },
}

/// An item of a response.
#[derive(Debug, PartialEq)]
pub enum ResponseItem {
    Message {
        id: Option<String>,
        role: String,
        content: Vec<ContentItem>,
        end_turn: Option<bool>,
        phase: Option<MessagePhase>,
    },
    FunctionCall {
        id: Option<String>,
        name: String,
        namespace: Option<String>,
        arguments: String,
        call_id: String,
    },
}

/// A piece of a message.
#[derive(Debug, PartialEq)]
pub enum ContentItem {
    OutputText { text: String },
}

/// How far a message has come.
#[derive(Clone, Copy, Debug, PartialEq, Eq)]
pub enum MessagePhase {
    Commentary,
    FinalAnswer,
}

/// The token counts of a response.
#[derive(Clone, Copy, Debug, PartialEq, Eq)]
pub struct TokenUsage {
    pub input_tokens: i64,
    pub cached_input_tokens: i64,
    pub output_tokens: i64,
    pub reasoning_output_tokens: i64,
    pub total_tokens: i64,
}

/// Why a stream broke off.
#[derive(Debug, PartialEq)]
pub enum ApiError {
    Stream(String),
}

/// Model of a [`ResponseEvent`].
pub enum EventView {
    Created,
    OutputItemAdded(ItemView),
    OutputItemDone(ItemView),
    OutputTextDelta(Seq<char>),
    Completed { response_id: Seq<char>, token_usage: Option<TokenUsage> },
}

/// Model of a [`ResponseItem`].
pub enum ItemView {
    Message {
        id: Option<Seq<char>>,
        role: Seq<char>,
        content: Seq<ContentView>,
        end_turn: Option<bool>,
        phase: Option<MessagePhase>,
    },
    FunctionCall {
        id: Option<Seq<char>>,
        name: Seq<char>,
        namespace: Option<Seq<char>>,
        arguments: Seq<char>,
        call_id: Seq<char>,
    },
}

/// Model of a [`ContentItem`].
pub enum ContentView {
    OutputText { text: Seq<char> },
}

/// Model of an [`ApiError`].
pub enum ErrorView {
    Stream(Seq<char>),
}

impl DeepView for ResponseEvent {
    type V = EventView;

    open spec fn deep_view(&self) -> EventView {
        match self {
            ResponseEvent::Created => EventView::Created,
            ResponseEvent::OutputItemAdded(item) => EventView::OutputItemAdded(item.deep_view()),
            ResponseEvent::OutputItemDone(item) => EventView::OutputItemDone(item.deep_view()),
            ResponseEvent::OutputTextDelta(text) => EventView::OutputTextDelta(text@),
            ResponseEvent::Completed { response_id, token_usage } => EventView::Completed {
                response_id: response_id@,
                token_usage: *token_usage,
            },
        }
    }
}

impl DeepView for ResponseItem {
    type V = ItemView;

    open spec fn deep_view(&self) -> ItemView {
        match self {
            ResponseItem::Message { id, role, content, end_turn, phase } => ItemView::Message {
                id: id.deep_view(),
                role: role@,
                content: content.deep_view(),
                end_turn: *end_turn,
                phase: *phase,
            },
            ResponseItem::FunctionCall { id, name, namespace, arguments, call_id } => {
                ItemView::FunctionCall {
                    id: id.deep_view(),
                    name: name@,
                    namespace: namespace.deep_view(),
                    arguments: arguments@,
                    call_id: call_id@,
                }
            },
        }
    }
}

impl DeepView for ContentItem {
    type V = ContentView;

    open spec fn deep_view(&self) -> ContentView {
        match self {
            ContentItem::OutputText { text } => ContentView::OutputText { text: text@ },
        }
    }
}

impl DeepView for ApiError {
    type V = ErrorView;

    open spec fn deep_view(&self) -> ErrorView {
        match self {
            ApiError::Stream(message) => ErrorView::Stream(message@),
        }
    }
}

/// An assistant message with one piece of text.
pub open spec fn message_item(
    id: Seq<char>,
    text: Seq<char>,
    end_turn: Option<bool>,
    phase: MessagePhase,
) -> ItemView {
    ItemView::Message {
        id: Some(id),
        role: "assistant"@,
        content: seq![ContentView::OutputText { text }],
        end_turn,
        phase: Some(phase),
    }
}

/// The event that opens the message `id`: its text is still empty.
pub open spec fn message_opened(id: Seq<char>) -> EventView {
    EventView::OutputItemAdded(
        message_item(id, Seq::empty(), None, MessagePhase::Commentary),
    )
}

/// The event that closes the message `id` with its whole text.
pub open spec fn message_closed(id: Seq<char>, text: Seq<char>) -> EventView {
    EventView::OutputItemDone(message_item(id, text, Some(true), MessagePhase::FinalAnswer))
}

/// An assistant message with one piece of text.
pub fn assistant_message(
    id: String,
    text: String,
    end_turn: Option<bool>,
    phase: MessagePhase,
) -> (item: ResponseItem)
    ensures
        item.deep_view() == message_item(id@, text@, end_turn, phase),
{
    let content = vec![ContentItem::OutputText { text }];
    assert(content.deep_view() =~= seq![ContentView::OutputText { text: text@ }]);
    ResponseItem::Message {
        id: Some(id),
        role: "assistant".to_owned(),
        content,
        end_turn,
        phase: Some(phase),
    }
}

} // verus!
