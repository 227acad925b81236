//! Laws of the values that the functions take and give: their models keep
//! every field, and each function does to them what the other laws say.
use std::collections::BTreeMap;
use vstd::prelude::*;

use crate::chunk::{
    ChatCompletionsChoice, ChatCompletionsStreamChunk, ChatCompletionsToolCallDelta, ChunkView,
};
use crate::event::{
    self, ApiError, ContentView, ErrorView, EventView, ItemView, MessagePhase,
    ResponseEvent, ResponseItem,
};
use crate::pending::{self, PendingToolCall};
use crate::step_laws;
use crate::stream::{
    ActionView, ChatCompletionsStream, PollView, SseAction, SsePoll, StreamView,
};
use crate::text;

verus! {

/// Law: the model of a chunk keeps its identifier, its usage and its choices.
pub proof fn law_chunk_model_keeps_fields(chunk: ChatCompletionsStreamChunk)
    ensures
        chunk.deep_view().id == chunk.id.deep_view(),
        chunk.deep_view().usage == chunk.usage,
        chunk.choices is None ==> chunk.deep_view().choices is None,
        chunk.choices matches Some(choices) ==> chunk.deep_view().choices is Some
            && chunk.deep_view().choices->0.len() == choices@.len(),
        chunk.choices matches Some(choices) ==> forall|i: int|
            0 <= i < choices@.len() ==> #[trigger] chunk.deep_view().choices->0[i]
                == choices@[i].deep_view(),
{
}

/// Law: the model of a choice keeps its finish reason and, of its delta, the
/// role, the text and the fragments.
pub proof fn law_choice_model_keeps_fields(choice: ChatCompletionsChoice)
    ensures
        choice.deep_view().finish_reason == choice.finish_reason.deep_view(),
        choice.delta is None ==> choice.deep_view().delta is None,
        choice.delta matches Some(delta) ==> {
            &&& choice.deep_view().delta is Some
            &&& choice.deep_view().delta->0.role == delta.role.deep_view()
            &&& choice.deep_view().delta->0.content == delta.content.deep_view()
            &&& delta.tool_calls is None ==> choice.deep_view().delta->0.tool_calls is None
            &&& delta.tool_calls matches Some(fragments) ==> {
                let models = choice.deep_view().delta->0.tool_calls;
                &&& models is Some
                &&& models->0.len() == fragments@.len()
                &&& forall|i: int|
                    0 <= i < fragments@.len() ==> #[trigger] models->0[i]
                        == fragments@[i].deep_view()
            }
        },
{
}

/// Law: the model of a fragment keeps its index, its identifier, its name and
/// its arguments.
pub proof fn law_fragment_model_keeps_fields(fragment: ChatCompletionsToolCallDelta)
    ensures
        fragment.deep_view().index == fragment.index,
        fragment.deep_view().id == fragment.id.deep_view(),
        fragment.function is None ==> fragment.deep_view().function is None,
        fragment.function matches Some(function) ==> {
            &&& fragment.deep_view().function is Some
            &&& fragment.deep_view().function->0.name == function.name.deep_view()
            &&& fragment.deep_view().function->0.arguments == function.arguments.deep_view()
        },
{
}

/// Law: the models of pending calls keep their indices and their fields.
pub proof fn law_call_models_keep_fields(calls: Map<usize, PendingToolCall>, index: usize)
    ensures
        pending::pending_view(calls).contains_key(index) <==> calls.contains_key(index),
        calls.contains_key(index) ==> {
            &&& pending::pending_view(calls)[index].id == calls[index].id.deep_view()
            &&& pending::pending_view(calls)[index].name == calls[index].name.deep_view()
            &&& pending::pending_view(calls)[index].arguments == calls[index].arguments@
        },
{
}

/// Law: an event has the kind of its model and holds what its model holds.
pub proof fn law_event_model_keeps_fields(event: ResponseEvent)
    ensures
        match event {
            ResponseEvent::Created => event.deep_view() is Created,
            ResponseEvent::OutputItemAdded(item) => event.deep_view()
                == EventView::OutputItemAdded(item.deep_view()),
            ResponseEvent::OutputItemDone(item) => event.deep_view() == EventView::OutputItemDone(
                item.deep_view(),
            ),
            ResponseEvent::OutputTextDelta(piece) => event.deep_view()
                == EventView::OutputTextDelta(piece@),
            ResponseEvent::Completed { response_id, token_usage } => event.deep_view() == (
            EventView::Completed { response_id: response_id@, token_usage }),
        },
{
}

/// Law: an item has the kind of its model and holds what its model holds.
pub proof fn law_item_model_keeps_fields(item: ResponseItem)
    ensures
        match item {
            ResponseItem::Message { id, role, content, end_turn, phase } => {
                item.deep_view() matches ItemView::Message {
                    id: id_model,
                    role: role_model,
                    content: content_model,
                    end_turn: end_turn_model,
                    phase: phase_model,
                } && {
                    &&& id_model == id.deep_view()
                    &&& role_model == role@
                    &&& end_turn_model == end_turn
                    &&& phase_model == phase
                    &&& content_model.len() == content@.len()
                    &&& forall|i: int|
                        0 <= i < content@.len() ==> #[trigger] content_model[i] == (
                        ContentView::OutputText { text: content@[i]->text@ })
                }
            },
            ResponseItem::FunctionCall { id, name, namespace, arguments, call_id } => {
                item.deep_view() == (ItemView::FunctionCall {
                    id: id.deep_view(),
                    name: name@,
                    namespace: namespace.deep_view(),
                    arguments: arguments@,
                    call_id: call_id@,
                })
            },
        },
{
}

/// Law: the models of polls and errors hold their texts.
pub proof fn law_poll_and_error_models_keep_texts(poll: SsePoll, error: ApiError)
    ensures
        match poll {
            SsePoll::Event(data) => poll.deep_view() == PollView::Event(data@),
            SsePoll::StreamError(message) => poll.deep_view() == PollView::StreamError(message@),
            SsePoll::Closed => poll.deep_view() is Closed,
            SsePoll::IdleTimeout => poll.deep_view() is IdleTimeout,
        },
        match error {
            ApiError::Stream(message) => error.deep_view() == ErrorView::Stream(message@),
        },
{
}

/// Law: an action has the kind of its model and holds what its model holds.
pub proof fn law_action_model_keeps_fields(action: SseAction)
    ensures
        match action {
            SseAction::Decode { stream, data } => action.deep_view() == (ActionView::Decode {
                stream: stream@,
                data: data@,
            }),
            SseAction::Continue { stream, events } => action.deep_view() == (
            ActionView::Continue { stream: stream@, events: events.deep_view() }),
            SseAction::Finish { events } => action.deep_view() == (ActionView::Finish {
                events: events.deep_view(),
            }),
            SseAction::Fail { error } => action.deep_view() == (ActionView::Fail {
                error: error.deep_view(),
            }),
        },
{
}

/// Law: a stream is opened with its creation; it has no identifier, no usage,
/// no text and no calls yet.
pub proof fn law_opened_stream_is_blank(opened: (ChatCompletionsStream, ResponseEvent))
    requires
        call_ensures(ChatCompletionsStream::open, (), opened),
    ensures
        opened.1 is Created,
        opened.0@.response_id is None,
        opened.0@.usage is None,
        opened.0@.message_id is None,
        opened.0@.message_seq == 0,
        opened.0@.text.len() == 0,
        opened.0@ == StreamView::initial(),
        forall|index: usize| !(#[trigger] opened.0@.pending.contains_key(index)),
{
}

/// Law: after a poll is done what the laws of the polls say.
pub proof fn law_on_poll_follows_its_model(
    stream: ChatCompletionsStream,
    poll: SsePoll,
    action: SseAction,
)
    requires
        call_ensures(ChatCompletionsStream::on_poll, (stream, poll), action),
    ensures
        action.deep_view() == stream@.on_poll(poll.deep_view()),
{
}

/// Law: a decoded chunk is taken in, and what cannot be decoded breaks the
/// stream off with the words of the decoder.
pub proof fn law_on_decoded_follows_the_decoder(
    stream: ChatCompletionsStream,
    decoded: Result<ChatCompletionsStreamChunk, String>,
    action: SseAction,
)
    requires
        call_ensures(ChatCompletionsStream::on_decoded, (stream, decoded), action),
    ensures
        decoded matches Ok(chunk) ==> (action matches SseAction::Continue { stream: next, events }
            && next@ == stream@.after(chunk.deep_view()) && events.deep_view() == stream@.events(
            chunk.deep_view(),
        )),
        decoded matches Err(words) ==> (action matches SseAction::Fail { error } && (
        error matches ApiError::Stream(message) && message@
            == "failed to parse chat completions chunk: "@ + words@)),
{
    law_action_model_keeps_fields(action);
    if let Err(words) = decoded {
        assert(action.deep_view() == (ActionView::Fail {
            error: ErrorView::Stream("failed to parse chat completions chunk: "@ + words@),
        }));
    }
}

/// Law: a chunk is taken in as its model is.
pub proof fn law_on_chunk_follows_its_model(
    stream: ChatCompletionsStream,
    chunk: ChatCompletionsStreamChunk,
    step: (ChatCompletionsStream, Vec<ResponseEvent>),
)
    requires
        call_ensures(ChatCompletionsStream::on_chunk, (stream, &chunk), step),
    ensures
        step.0@ == stream@.after(chunk.deep_view()),
        step.1@.len() == stream@.events(chunk.deep_view()).len(),
        forall|i: int|
            0 <= i < step.1@.len() ==> (#[trigger] step.1@[i]).deep_view() == stream@.events(
                chunk.deep_view(),
            )[i],
{
    assert forall|i: int| 0 <= i < step.1@.len() implies (#[trigger] step.1@[i]).deep_view()
        == stream@.events(chunk.deep_view())[i] by {
        assert(step.1.deep_view()[i] == step.1@[i].deep_view());
    }
}

/// Law: a chunk whose first choice has another finish reason than that the
/// calls are complete, or none, completes no item and drops no call, whatever
/// its delta holds.
pub proof fn law_only_the_finish_reason_completes_calls(
    stream: ChatCompletionsStream,
    chunk: ChatCompletionsStreamChunk,
    choices: Vec<ChatCompletionsChoice>,
    step: (ChatCompletionsStream, Vec<ResponseEvent>),
)
    requires
        call_ensures(ChatCompletionsStream::on_chunk, (stream, &chunk), step),
        chunk.choices == Some(choices),
        choices@.len() > 0,
        choices@[0].finish_reason matches Some(reason) ==> reason@ != "tool_calls"@,
    ensures
        forall|i: int| 0 <= i < step.1@.len() ==> !(#[trigger] step.1@[i] is OutputItemDone),
        forall|index: usize|
            stream@.pending.contains_key(index) ==> #[trigger] step.0@.pending.contains_key(index),
{
    let model = chunk.deep_view();
    law_on_chunk_follows_its_model(stream, chunk, step);
    law_chunk_model_keeps_fields(chunk);
    assert(model.choices->0[0] == choices@[0].deep_view());
    law_choice_model_keeps_fields(choices@[0]);
    step_laws::law_other_finish_reasons_report_nothing(stream@, model, model.choices->0);
    assert forall|i: int| 0 <= i < step.1@.len() implies !(
    #[trigger] step.1@[i] is OutputItemDone) by {
        law_event_model_keeps_fields(step.1@[i]);
    }
}

/// Law: a chunk whose first choice says that the calls are complete leaves
/// none pending.
pub proof fn law_complete_calls_are_not_pending(
    stream: ChatCompletionsStream,
    chunk: ChatCompletionsStreamChunk,
    choices: Vec<ChatCompletionsChoice>,
    reason: String,
    step: (ChatCompletionsStream, Vec<ResponseEvent>),
)
    requires
        call_ensures(ChatCompletionsStream::on_chunk, (stream, &chunk), step),
        chunk.choices == Some(choices),
        choices@.len() > 0,
        choices@[0].finish_reason == Some(reason),
        reason@ == "tool_calls"@,
    ensures
        forall|index: usize| !(#[trigger] step.0@.pending.contains_key(index)),
{
    let model = chunk.deep_view();
    law_on_chunk_follows_its_model(stream, chunk, step);
    law_chunk_model_keeps_fields(chunk);
    assert(model.choices->0[0] == choices@[0].deep_view());
    law_choice_model_keeps_fields(choices@[0]);
    step_laws::law_finish_reason_reports_the_calls(stream@, model, model.choices->0);
}

/// Law: two chunks that differ only in the role of the first delta are taken
/// in alike.
pub proof fn law_role_makes_no_difference(
    stream: ChatCompletionsStream,
    one: ChatCompletionsStreamChunk,
    two: ChatCompletionsStreamChunk,
    ones: Vec<ChatCompletionsChoice>,
    twos: Vec<ChatCompletionsChoice>,
    one_step: (ChatCompletionsStream, Vec<ResponseEvent>),
    two_step: (ChatCompletionsStream, Vec<ResponseEvent>),
)
    requires
        call_ensures(ChatCompletionsStream::on_chunk, (stream, &one), one_step),
        call_ensures(ChatCompletionsStream::on_chunk, (stream, &two), two_step),
        one.id == two.id,
        one.usage == two.usage,
        one.choices == Some(ones) && ones@.len() > 0,
        two.choices == Some(twos) && twos@.len() > 0,
        ones@[0].finish_reason == twos@[0].finish_reason,
        ones@[0].delta is Some && twos@[0].delta is Some,
        ones@[0].delta->0.content == twos@[0].delta->0.content,
        ones@[0].delta->0.tool_calls == twos@[0].delta->0.tool_calls,
    ensures
        one_step.0@ == two_step.0@,
        one_step.1.deep_view() == two_step.1.deep_view(),
{
    assert(one.deep_view().choices->0[0] == ones@[0].deep_view());
    assert(two.deep_view().choices->0[0] == twos@[0].deep_view());
    step_laws::law_neither_role_nor_further_choices_count(
        stream@,
        one.deep_view(),
        two.deep_view(),
    );
}

/// Law: after a usage chunk the stream knows the counts that the chunk gives.
pub proof fn law_on_chunk_takes_the_counts_given(
    stream: ChatCompletionsStream,
    chunk: ChatCompletionsStreamChunk,
    step: (ChatCompletionsStream, Vec<ResponseEvent>),
)
    requires
        call_ensures(ChatCompletionsStream::on_chunk, (stream, &chunk), step),
        chunk.usage matches Some(usage) ==> usage.total_tokens is Some || i64::MIN <= (
        if usage.prompt_tokens is Some {
            usage.prompt_tokens->0
        } else {
            0
        }) + (if usage.completion_tokens is Some {
            usage.completion_tokens->0
        } else {
            0
        }) <= i64::MAX,
    ensures
        chunk.usage is None ==> step.0@.usage == stream@.usage,
        chunk.usage matches Some(usage) ==> step.0@.usage is Some && step_laws::counts_as_given(
            usage,
            step.0@.usage->0,
        ),
{
    law_on_chunk_follows_its_model(stream, chunk, step);
    step_laws::law_usage_is_as_given(stream@, chunk.deep_view());
}

/// Law: a closed connection completes the stream: the last event tells the
/// identifier and the usage that the stream knows.
pub proof fn law_closed_stream_tells_what_it_knows(
    stream: ChatCompletionsStream,
    action: SseAction,
)
    requires
        call_ensures(ChatCompletionsStream::on_poll, (stream, SsePoll::Closed), action),
    ensures
        action matches SseAction::Finish { events } && events@.len() > 0 && (
        events@.last() matches ResponseEvent::Completed { response_id, token_usage } && token_usage
            == stream@.usage && response_id@ == (if stream@.response_id is Some {
            stream@.response_id->0
        } else {
            "chatcmpl_unknown"@
        })),
{
    law_action_model_keeps_fields(action);
    step_laws::law_polls_and_decoder_are_obeyed(
        stream@,
        Seq::empty(),
        ChunkView { id: None, choices: None, usage: None },
    );
    step_laws::law_completion_is_told_last(stream@);
    let events = action->Finish_events;
    assert(action.deep_view() == stream@.on_poll(PollView::Closed));
    assert(events.deep_view() == stream@.closing_events());
    assert(events.deep_view().last() == events@.last().deep_view());
    law_event_model_keeps_fields(events@.last());
}

/// Law: a message holds one piece of text: the text that it was made of, all
/// of it.
pub proof fn law_message_holds_its_whole_text(
    id: String,
    text: String,
    end_turn: Option<bool>,
    phase: MessagePhase,
    item: ResponseItem,
)
    requires
        call_ensures(event::assistant_message, (id, text, end_turn, phase), item),
    ensures
        item matches ResponseItem::Message {
            id: message_id,
            role,
            content,
            end_turn: message_end_turn,
            phase: message_phase,
        } && {
            &&& message_id is Some && message_id->0@ == id@
            &&& role@ == "assistant"@
            &&& content@.len() == 1
            &&& content@[0]->text@ == text@
            &&& message_end_turn == end_turn
            &&& message_phase == Some(phase)
        },
{
    law_item_model_keeps_fields(item);
    assert(item.deep_view() == event::message_item(id@, text@, end_turn, phase));
    if let ResponseItem::Message { id: message_id, role, content, end_turn: _, phase: _ } = item {
        let model = item.deep_view()->content;
        assert(model.len() == content@.len());
        assert(model[0] == (ContentView::OutputText { text: content@[0]->text@ }));
        assert(message_id.deep_view() == Some(id@));
    }
}

/// Law: the calls that are reported are the pending ones, by ascending index,
/// each with its own name, arguments and identifier.
pub proof fn law_emitted_calls_are_the_pending_ones(
    calls: BTreeMap<usize, PendingToolCall>,
    events: Vec<ResponseEvent>,
) -> (keys: Seq<usize>)
    requires
        call_ensures(pending::emit_pending_tool_calls, (&calls,), events),
    ensures
        forall|i: int, j: int| 0 <= i < j < keys.len() ==> keys[i] < keys[j],
        forall|key: usize| #[trigger] calls@.contains_key(key) ==> keys.contains(key),
        events@.len() == keys.len(),
        forall|i: int|
            0 <= i < keys.len() ==> calls@.contains_key(keys[i]) && reports(
                #[trigger] events@[i],
                calls@[keys[i]],
            ),
{
    let models = pending::pending_view(calls@);
    let keys = step_laws::law_calls_are_reported_in_full(models);
    assert forall|key: usize| #[trigger] calls@.contains_key(key) implies keys.contains(key) by {
        assert(models.contains_key(key));
    }
    assert(events.deep_view() == pending::tool_call_events(models));
    assert forall|i: int| 0 <= i < keys.len() implies calls@.contains_key(keys[i]) && reports(
        #[trigger] events@[i],
        calls@[keys[i]],
    ) by {
        assert(models.contains_key(keys[i]));
        law_call_models_keep_fields(calls@, keys[i]);
        assert(events.deep_view()[i] == events@[i].deep_view());
        assert(step_laws::reports_call(
            pending::tool_call_events(models)[i],
            models[keys[i]],
        ));
        law_event_model_keeps_fields(events@[i]);
        law_item_model_keeps_fields(events@[i]->OutputItemDone_0);
    }
    keys
}

/// Whether `event` reports `call`.
pub open spec fn reports(event: ResponseEvent, call: PendingToolCall) -> bool {
    event matches ResponseEvent::OutputItemDone(item) && (item matches ResponseItem::FunctionCall {
        id,
        name,
        namespace,
        arguments,
        call_id,
    } && {
        &&& id is None
        &&& namespace is None
        &&& arguments@ == call.arguments@
        &&& name@ == (if call.name is Some {
            call.name->0@
        } else {
            "unknown"@
        })
        &&& call_id@ == (if call.id is Some {
            call.id->0@
        } else {
            "call_unknown"@
        })
    })
}

/// Law: fragments are added to the calls as to their models.
pub proof fn law_add_fragments_follows_its_model(fragments: Vec<ChatCompletionsToolCallDelta>)
    ensures
        forall|calls: &mut BTreeMap<usize, PendingToolCall>| #[trigger]
            call_ensures(pending::add_fragments, (calls, &fragments), ())
                ==> pending::pending_view((*final(calls))@) == pending::with_fragments(
                pending::pending_view((*calls)@),
                fragments.deep_view(),
            ),
{
}

/// Law: the choice that counts is the first one, if there is any.
pub proof fn law_first_choice_is_the_first(
    chunk: ChatCompletionsStreamChunk,
    choice: Option<&ChatCompletionsChoice>,
)
    requires
        call_ensures(ChatCompletionsStreamChunk::first_choice, (&chunk,), choice),
    ensures
        choice is Some <==> chunk.choices is Some && chunk.choices->0@.len() > 0,
        choice is Some ==> choice->0.deep_view() == chunk.choices->0@[0].deep_view(),
{
    law_chunk_model_keeps_fields(chunk);
    assert(choice.deep_view() == chunk.deep_view().choice());
}

/// Law: a usage can be told unless its total is missing and the sum of prompt
/// and completion is out of range.
pub proof fn law_usage_in_range_looks_at_the_counts(
    chunk: ChatCompletionsStreamChunk,
    in_range: bool,
)
    requires
        call_ensures(ChatCompletionsStreamChunk::has_usage_in_range, (&chunk,), in_range),
    ensures
        in_range <==> (chunk.usage matches Some(usage) ==> usage.total_tokens is Some || i64::MIN
            <= (if usage.prompt_tokens is Some {
            usage.prompt_tokens->0
        } else {
            0
        }) + (if usage.completion_tokens is Some {
            usage.completion_tokens->0
        } else {
            0
        }) <= i64::MAX),
{
}

/// Law: white space is what has the Unicode property of that name.
pub proof fn law_white_space_is_that_of_unicode(c: char)
    ensures
        text::is_white_space(c) <==> 9 <= c as u32 <= 13 || c == ' ' || c == '\u{85}' || c
            == '\u{a0}' || c == '\u{1680}' || '\u{2000}' <= c <= '\u{200a}' || c == '\u{2028}'
            || c == '\u{2029}' || c == '\u{202f}' || c == '\u{205f}' || c == '\u{3000}',
{
}

/// Law: a text is blank unless it has a character that is not white space.
pub proof fn law_blank_text_is_white_space(text: &str, is: bool)
    requires
        call_ensures(text::is_blank, (text,), is),
    ensures
        is <==> forall|i: int| 0 <= i < text@.len() ==> text::is_white_space(#[trigger] text@[i]),
{
}

/// Law: the end marker is `[DONE]`, with nothing but white space around it.
pub proof fn law_end_marker_may_be_padded(data: &str, done: bool)
    requires
        call_ensures(text::is_done_marker, (data,), done),
    ensures
        done <==> exists|before: Seq<char>, after: Seq<char>|
            {
                &&& data@ == #[trigger] (before + "[DONE]"@ + after)
                &&& forall|i: int|
                    0 <= i < before.len() ==> text::is_white_space(#[trigger] before[i])
                &&& forall|i: int|
                    0 <= i < after.len() ==> text::is_white_space(#[trigger] after[i])
            },
{
}

/// The number that `digits` write down.
pub open spec fn number(digits: Seq<char>) -> int
    decreases digits.len(),
{
    if digits.len() == 0 {
        0
    } else {
        10 * number(digits.drop_last()) + (digits.last() as u32 - '0' as u32)
    }
}

/// Law: the decimal notation of a number is made of digits, begins with no
/// needless zero, and reads back as the number.
pub proof fn law_decimal_reads_back(n: nat)
    ensures
        text::decimal(n).len() > 0,
        forall|i: int|
            0 <= i < text::decimal(n).len() ==> '0' <= #[trigger] text::decimal(n)[i] <= '9',
        n > 0 ==> text::decimal(n)[0] != '0',
        number(text::decimal(n)) == n,
    decreases n,
{
    reveal_with_fuel(number, 2);
    if n < 10 {
        assert(text::decimal(n).drop_last() =~= Seq::empty());
    } else {
        law_decimal_reads_back(n / 10);
        assert(text::decimal(n).drop_last() =~= text::decimal(n / 10));
    }
}

/// Law: the identifier of a message is `msg_` and its number.
pub proof fn law_message_id_tells_its_number(n: u64, id: String)
    requires
        call_ensures(text::message_id, (n,), id),
    ensures
        id@.len() > 4,
        id@.take(4) == "msg_"@,
        number(id@.skip(4)) == n,
        id@.skip(4)[0] == '0' ==> n == 0,
{
    reveal_strlit("msg_");
    law_decimal_reads_back(n as nat);
    assert(id@ == "msg_"@ + text::decimal(n as nat));
    assert(id@.take(4) =~= "msg_"@);
    assert(id@.skip(4) =~= text::decimal(n as nat));
}

} // verus!
