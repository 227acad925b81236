//! The chunks of a chat-completions stream, as they are decoded from JSON.
use vstd::prelude::*;

verus! {

/// One chunk of the stream.
#[derive(Debug)]
pub struct ChatCompletionsStreamChunk {
    pub id: Option<String>,
    pub choices: Option<Vec<ChatCompletionsChoice>>,
    pub usage: Option<ChatCompletionsUsage>,
}

/// One alternative answer.
#[derive(Debug)]
pub struct ChatCompletionsChoice {
    pub delta: Option<ChatCompletionsDelta>,
    pub finish_reason: Option<String>,
}

/// What a chunk adds to an answer.
#[derive(Debug)]
pub struct ChatCompletionsDelta {
    pub role: Option<String>,
    pub content: Option<String>,
    pub tool_calls: Option<Vec<ChatCompletionsToolCallDelta>>,
}

/// A fragment of a tool call.
#[derive(Debug)]
pub struct ChatCompletionsToolCallDelta {
    pub index: Option<usize>,
    pub id: Option<String>,
    pub function: Option<ChatCompletionsToolFunctionDelta>,
}

/// A fragment of the function that a tool call names.
#[derive(Debug)]
pub struct ChatCompletionsToolFunctionDelta {
    pub name: Option<String>,
    pub arguments: Option<String>,
}

/// The token counts that a chunk reports.
#[derive(Clone, Copy, Debug, PartialEq, Eq)]
pub struct ChatCompletionsUsage {
    pub prompt_tokens: Option<i64>,
    pub completion_tokens: Option<i64>,
    pub total_tokens: Option<i64>,
    pub prompt_tokens_details: Option<ChatCompletionsPromptTokensDetails>,
}

/// Details of the prompt's token count.
#[derive(Clone, Copy, Debug, PartialEq, Eq)]
pub struct ChatCompletionsPromptTokensDetails {
    pub cached_tokens: Option<i64>,
}

/// Model of a [`ChatCompletionsStreamChunk`].
pub struct ChunkView {
    pub id: Option<Seq<char>>,
    pub choices: Option<Seq<ChoiceView>>,
    pub usage: Option<ChatCompletionsUsage>,
}

/// Model of a [`ChatCompletionsChoice`].
pub struct ChoiceView {
    pub delta: Option<DeltaView>,
    pub finish_reason: Option<Seq<char>>,
}

/// Model of a [`ChatCompletionsDelta`].
pub struct DeltaView {
    pub role: Option<Seq<char>>,
    pub content: Option<Seq<char>>,
    pub tool_calls: Option<Seq<ToolCallDeltaView>>,
}

/// Model of a [`ChatCompletionsToolCallDelta`].
pub struct ToolCallDeltaView {
    pub index: Option<usize>,
    pub id: Option<Seq<char>>,
    pub function: Option<ToolFunctionDeltaView>,
}

/// Model of a [`ChatCompletionsToolFunctionDelta`].
pub struct ToolFunctionDeltaView {
    pub name: Option<Seq<char>>,
    pub arguments: Option<Seq<char>>,
}

impl DeepView for ChatCompletionsStreamChunk {
    type V = ChunkView;

    open spec fn deep_view(&self) -> ChunkView {
        ChunkView {
            id: self.id.deep_view(),
            choices: self.choices.deep_view(),
            usage: self.usage,
        }
    }
}

impl DeepView for ChatCompletionsChoice {
    type V = ChoiceView;

    open spec fn deep_view(&self) -> ChoiceView {
        ChoiceView {
            delta: self.delta.deep_view(),
            finish_reason: self.finish_reason.deep_view(),
        }
    }
}

impl DeepView for ChatCompletionsDelta {
    type V = DeltaView;

    open spec fn deep_view(&self) -> DeltaView {
        DeltaView {
            role: self.role.deep_view(),
            content: self.content.deep_view(),
            tool_calls: self.tool_calls.deep_view(),
        }
    }
}

impl DeepView for ChatCompletionsToolCallDelta {
    type V = ToolCallDeltaView;

    open spec fn deep_view(&self) -> ToolCallDeltaView {
        ToolCallDeltaView {
            index: self.index,
            id: self.id.deep_view(),
            function: self.function.deep_view(),
        }
    }
}

impl DeepView for ChatCompletionsToolFunctionDelta {
    type V = ToolFunctionDeltaView;

    open spec fn deep_view(&self) -> ToolFunctionDeltaView {
        ToolFunctionDeltaView {
            name: self.name.deep_view(),
            arguments: self.arguments.deep_view(),
        }
    }
}

impl ToolCallDeltaView {
    /// The tool call that the fragment belongs to: its index, or the first one.
    pub open spec fn target(self) -> usize {
        match self.index {
            Some(index) => index,
            None => 0,
        }
    }

    /// The function name that the fragment carries, if any.
    pub open spec fn name(self) -> Option<Seq<char>> {
        match self.function {
            Some(function) => function.name,
            None => None,
        }
    }

    /// The piece of the arguments that the fragment carries.
    pub open spec fn arguments(self) -> Seq<char> {
        match self.function {
            Some(function) => match function.arguments {
                Some(arguments) => arguments,
                None => Seq::empty(),
            },
            None => Seq::empty(),
        }
    }
}

impl ChunkView {
    /// The choice that counts: the first one.
    pub open spec fn choice(self) -> Option<ChoiceView> {
        match self.choices {
            Some(choices) => if choices.len() > 0 {
                Some(choices[0])
            } else {
                None
            },
            None => None,
        }
    }

    /// What the chunk adds to the answer.
    pub open spec fn delta(self) -> Option<DeltaView> {
        match self.choice() {
            Some(choice) => choice.delta,
            None => None,
        }
    }

    /// The text that the chunk adds to the answer.
    pub open spec fn content(self) -> Option<Seq<char>> {
        match self.delta() {
            Some(delta) => delta.content,
            None => None,
        }
    }

    /// The tool-call fragments of the chunk, in order.
    pub open spec fn tool_calls(self) -> Seq<ToolCallDeltaView> {
        match self.delta() {
            Some(delta) => match delta.tool_calls {
                Some(tool_calls) => tool_calls,
                None => Seq::empty(),
            },
            None => Seq::empty(),
        }
    }

    /// Whether the chunk says that the tool calls are complete.
    pub open spec fn ends_tool_calls(self) -> bool {
        match self.choice() {
            Some(choice) => choice.finish_reason == Some("tool_calls"@),
            None => false,
        }
    }
}

/// `count`, or zero where it is missing.
pub open spec fn count_or_zero(count: Option<i64>) -> i64 {
    match count {
        Some(count) => count,
        None => 0,
    }
}

impl ChatCompletionsUsage {
    /// Whether the total can be told: it is given, or the sum of the two
    /// parts is in range.
    pub open spec fn total_in_range(self) -> bool {
        self.total_tokens is Some || i64::MIN <= count_or_zero(self.prompt_tokens) + count_or_zero(
            self.completion_tokens,
        ) <= i64::MAX
    }
}

/// Whether the chunk reports no usage, or one whose total can be told.
pub open spec fn usage_in_range(chunk: ChunkView) -> bool {
    match chunk.usage {
        Some(usage) => usage.total_in_range(),
        None => true,
    }
}

impl ChatCompletionsStreamChunk {
    /// The choice that counts: the first one.
    pub fn first_choice(&self) -> (choice: Option<&ChatCompletionsChoice>)
        ensures
            choice.deep_view() == self.deep_view().choice(),
    {
        match &self.choices {
            Some(choices) => if choices.len() > 0 {
                Some(&choices[0])
            } else {
                None
            },
            None => None,
        }
    }

    /// Whether the chunk reports no usage, or one whose total can be told.
    pub fn has_usage_in_range(&self) -> (in_range: bool)
        ensures
            in_range == usage_in_range(self.deep_view()),
    {
        match &self.usage {
            Some(usage) => match usage.total_tokens {
                Some(_) => true,
                None => {
                    let prompt: i64 = usage.prompt_tokens.unwrap_or(0);
                    let completion: i64 = usage.completion_tokens.unwrap_or(0);
                    prompt.checked_add(completion).is_some()
                },
            },
            None => true,
        }
    }
}

} // verus!
