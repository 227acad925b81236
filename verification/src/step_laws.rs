//! Laws of single steps, stated on the fields of what comes in and what goes
//! out.
use std::collections::BTreeMap;
use vstd::prelude::*;

use crate::chunk::{
    self, ChatCompletionsToolCallDelta, ChatCompletionsUsage, ChoiceView, ChunkView, DeltaView,
    ToolCallDeltaView,
};
use crate::event::{
    self, ContentView, ErrorView, EventView, ItemView, MessagePhase, TokenUsage,
};
use crate::pending::{self, PendingToolCall, PendingView};
use crate::stream::{ActionView, PollView, StreamView};
use crate::text;
use crate::transcript;

verus! {

/// Law: a fragment goes to the call of its index, or to the first one where it
/// has no index. That call is there afterwards, and no other one changes.
pub proof fn law_fragment_goes_to_its_index(
    calls: Map<usize, PendingView>,
    fragment: ToolCallDeltaView,
    index: usize,
)
    requires
        fragment.index == Some(index) || (fragment.index is None && index == 0),
    ensures
        ({
            let after = pending::with_fragment(calls, fragment);
            &&& after.contains_key(index)
            &&& forall|other: usize|
                #![trigger after.contains_key(other)]
                other != index ==> (after.contains_key(other) <==> calls.contains_key(other))
            &&& forall|other: usize|
                #![trigger after[other]]
                other != index && calls.contains_key(other) ==> after[other] == calls[other]
        }),
{
}

/// Law: the first identifier and the first name of a call stay, and what a
/// fragment carries of the arguments is added at their end.
pub proof fn law_fragment_completes_its_call(
    calls: Map<usize, PendingView>,
    fragment: ToolCallDeltaView,
    index: usize,
)
    requires
        fragment.index == Some(index) || (fragment.index is None && index == 0),
    ensures
        ({
            let call = pending::with_fragment(calls, fragment)[index];
            &&& calls.contains_key(index) && calls[index].id is Some ==> call.id
                == calls[index].id
            &&& !calls.contains_key(index) || calls[index].id is None ==> call.id == fragment.id
            &&& calls.contains_key(index) && calls[index].name is Some ==> call.name
                == calls[index].name
            &&& !calls.contains_key(index) || calls[index].name is None ==> call.name == (
            if fragment.function is Some {
                fragment.function->0.name
            } else {
                None
            })
            &&& call.arguments == (if calls.contains_key(index) {
                calls[index].arguments
            } else {
                Seq::empty()
            }) + (if fragment.function is Some && fragment.function->0.arguments is Some {
                fragment.function->0.arguments->0
            } else {
                Seq::empty()
            })
        }),
{
}

/// Law: it makes no difference which of two fragments comes first, where they
/// belong to different calls.
pub proof fn law_fragments_of_different_calls_commute(
    calls: Map<usize, PendingView>,
    one: ToolCallDeltaView,
    two: ToolCallDeltaView,
)
    requires
        one.index != two.index,
        one.index is None ==> two.index != Some(0usize),
        two.index is None ==> one.index != Some(0usize),
    ensures
        pending::with_fragment(pending::with_fragment(calls, one), two) == pending::with_fragment(
            pending::with_fragment(calls, two),
            one,
        ),
{
    assert(pending::with_fragment(pending::with_fragment(calls, one), two)
        =~= pending::with_fragment(pending::with_fragment(calls, two), one));
}

/// Law: fragments are added one by one, in order, and none is left out.
pub proof fn law_fragments_are_added_one_by_one(
    calls: Map<usize, PendingView>,
    fragments: Seq<ToolCallDeltaView>,
    fragment: ToolCallDeltaView,
)
    ensures
        pending::with_fragments(calls, Seq::empty()) == calls,
        pending::with_fragments(calls, fragments.push(fragment)) == pending::with_fragment(
            pending::with_fragments(calls, fragments),
            fragment,
        ),
{
    assert(fragments.push(fragment).drop_last() =~= fragments);
}

/// Law: what adding a fragment does to the calls themselves. The call of the
/// fragment's own index takes it in; every other one stays.
pub proof fn law_add_fragment_by_index(fragment: ChatCompletionsToolCallDelta, index: usize)
    requires
        fragment.index == Some(index) || (fragment.index is None && index == 0),
    ensures
        forall|calls: &mut BTreeMap<usize, PendingToolCall>| #[trigger]
            call_ensures(pending::add_fragment, (calls, &fragment), ()) ==> takes_in(
                (*calls)@,
                (*final(calls))@,
                fragment,
                index,
            ),
{
    assert forall|calls: &mut BTreeMap<usize, PendingToolCall>| #[trigger]
        call_ensures(pending::add_fragment, (calls, &fragment), ()) implies takes_in(
        (*calls)@,
        (*final(calls))@,
        fragment,
        index,
    ) by {
        lemma_takes_in((*calls)@, (*final(calls))@, fragment, index);
    }
}

/// Whether `after` is `before` once the call `index` has taken `fragment` in.
pub open spec fn takes_in(
    before: Map<usize, PendingToolCall>,
    after: Map<usize, PendingToolCall>,
    fragment: ChatCompletionsToolCallDelta,
    index: usize,
) -> bool {
    let call = after[index];
    let known = before.contains_key(index);
    &&& after.contains_key(index)
    &&& forall|other: usize|
        #![trigger after.contains_key(other)]
        other != index ==> (after.contains_key(other) <==> before.contains_key(other))
    &&& forall|other: usize|
        #![trigger after[other]]
        other != index && before.contains_key(other) ==> {
            &&& after[other].id.deep_view() == before[other].id.deep_view()
            &&& after[other].name.deep_view() == before[other].name.deep_view()
            &&& after[other].arguments@ == before[other].arguments@
        }
    &&& call.id.deep_view() == (if known && before[index].id is Some {
        before[index].id.deep_view()
    } else {
        fragment.id.deep_view()
    })
    &&& call.name.deep_view() == (if known && before[index].name is Some {
        before[index].name.deep_view()
    } else if fragment.function is Some {
        fragment.function->0.name.deep_view()
    } else {
        None
    })
    &&& call.arguments@ == (if known {
        before[index].arguments@
    } else {
        Seq::empty()
    }) + (if fragment.function is Some && fragment.function->0.arguments is Some {
        fragment.function->0.arguments->0@
    } else {
        Seq::empty()
    })
}

/// The calls take a fragment in as their models do.
proof fn lemma_takes_in(
    before: Map<usize, PendingToolCall>,
    after: Map<usize, PendingToolCall>,
    fragment: ChatCompletionsToolCallDelta,
    index: usize,
)
    requires
        fragment.index == Some(index) || (fragment.index is None && index == 0),
        pending::pending_view(after) == pending::with_fragment(
            pending::pending_view(before),
            fragment.deep_view(),
        ),
    ensures
        takes_in(before, after, fragment, index),
{
    let old_calls = pending::pending_view(before);
    let new_calls = pending::pending_view(after);
    law_fragment_goes_to_its_index(old_calls, fragment.deep_view(), index);
    law_fragment_completes_its_call(old_calls, fragment.deep_view(), index);
    assert(new_calls.dom() =~= after.dom());
    assert(old_calls.dom() =~= before.dom());
    assert forall|other: usize|
        #![trigger after.contains_key(other)]
        other != index implies (after.contains_key(other) <==> before.contains_key(other)) by {
        assert(new_calls.contains_key(other) <==> old_calls.contains_key(other));
    }
    assert forall|other: usize|
        #![trigger after[other]]
        other != index && before.contains_key(other) implies {
        &&& after[other].id.deep_view() == before[other].id.deep_view()
        &&& after[other].name.deep_view() == before[other].name.deep_view()
        &&& after[other].arguments@ == before[other].arguments@
    } by {
        assert(new_calls.contains_key(other) <==> old_calls.contains_key(other));
        assert(new_calls[other] == old_calls[other]);
        assert(new_calls[other] == after[other].deep_view());
        assert(old_calls[other] == before[other].deep_view());
    }
    assert(new_calls.contains_key(index));
    assert(new_calls[index] == after[index].deep_view());
    if before.contains_key(index) {
        assert(old_calls[index] == before[index].deep_view());
    }
}

/// Whether `event` reports `call`: its arguments as they are, its name and its
/// identifier where they are known.
pub open spec fn reports_call(event: EventView, call: PendingView) -> bool {
    event matches EventView::OutputItemDone(item) && (item matches ItemView::FunctionCall {
        id,
        name,
        namespace,
        arguments,
        call_id,
    } && {
        &&& id is None
        &&& namespace is None
        &&& arguments == call.arguments
        &&& name == (if call.name is Some {
            call.name->0
        } else {
            "unknown"@
        })
        &&& call_id == (if call.id is Some {
            call.id->0
        } else {
            "call_unknown"@
        })
    })
}

/// The calls below `bound` are reported by ascending index.
proof fn lemma_reported_below(calls: Map<usize, PendingView>, bound: nat) -> (keys: Seq<usize>)
    requires
        bound <= usize::MAX + 1,
    ensures
        forall|i: int, j: int| 0 <= i < j < keys.len() ==> keys[i] < keys[j],
        forall|i: int| 0 <= i < keys.len() ==> calls.contains_key(#[trigger] keys[i]) && keys[i]
            < bound,
        forall|key: usize| #[trigger]
            calls.contains_key(key) && key < bound ==> keys.contains(key),
        pending::tool_call_events_below(calls, bound).len() == keys.len(),
        forall|i: int|
            0 <= i < keys.len() ==> reports_call(
                #[trigger] pending::tool_call_events_below(calls, bound)[i],
                calls[keys[i]],
            ),
    decreases bound,
{
    if bound == 0 {
        Seq::empty()
    } else {
        let index = (bound - 1) as usize;
        let before = lemma_reported_below(calls, (bound - 1) as nat);
        if calls.contains_key(index) {
            let keys = before.push(index);
            assert forall|key: usize| #[trigger]
                calls.contains_key(key) && key < bound implies keys.contains(key) by {
                if key == index {
                    assert(keys[before.len() as int] == key);
                } else {
                    let i = choose|i: int| 0 <= i < before.len() && before[i] == key;
                    assert(before.contains(key));
                    assert(keys[i] == key);
                }
            }
            keys
        } else {
            before
        }
    }
}

/// Law: every pending call is reported, once and in full, and the reports come
/// by ascending index.
pub proof fn law_calls_are_reported_in_full(calls: Map<usize, PendingView>) -> (keys: Seq<usize>)
    ensures
        forall|i: int, j: int| 0 <= i < j < keys.len() ==> keys[i] < keys[j],
        forall|i: int| 0 <= i < keys.len() ==> calls.contains_key(#[trigger] keys[i]),
        forall|key: usize| #[trigger] calls.contains_key(key) ==> keys.contains(key),
        pending::tool_call_events(calls).len() == keys.len(),
        forall|i: int|
            0 <= i < keys.len() ==> reports_call(
                #[trigger] pending::tool_call_events(calls)[i],
                calls[keys[i]],
            ),
{
    lemma_reported_below(calls, usize::MAX as nat + 1)
}

/// `chunk` as it would be had its first choice no finish reason.
pub open spec fn unfinished(chunk: ChunkView) -> ChunkView {
    ChunkView {
        choices: Some(
            chunk.choices->0.update(
                0,
                ChoiceView { delta: chunk.choices->0[0].delta, finish_reason: None },
            ),
        ),
        ..chunk
    }
}

/// Law: where the finish reason of the first choice is that the calls are
/// complete, all pending calls are reported after what the chunk causes
/// otherwise, and none is pending any more.
pub proof fn law_finish_reason_reports_the_calls(
    stream: StreamView,
    chunk: ChunkView,
    choices: Seq<ChoiceView>,
)
    requires
        chunk.choices == Some(choices),
        choices.len() > 0,
        choices[0].finish_reason == Some("tool_calls"@),
    ensures
        stream.events(chunk) == stream.events(unfinished(chunk)) + pending::tool_call_events(
            stream.after(unfinished(chunk)).pending,
        ),
        stream.after(chunk).pending == Map::<usize, PendingView>::empty(),
        stream.after(chunk) == (StreamView {
            pending: Map::empty(),
            ..stream.after(unfinished(chunk))
        }),
{
    assert(unfinished(chunk).choices->0[0].delta == choices[0].delta);
    assert(stream.events(chunk) =~= stream.events(unfinished(chunk)) + pending::tool_call_events(
        stream.after(unfinished(chunk)).pending,
    ));
}

/// Law: with any other finish reason of the first choice, or with none, no
/// call is reported and none is dropped.
pub proof fn law_other_finish_reasons_report_nothing(
    stream: StreamView,
    chunk: ChunkView,
    choices: Seq<ChoiceView>,
)
    requires
        chunk.choices == Some(choices),
        choices.len() > 0,
        choices[0].finish_reason != Some("tool_calls"@),
    ensures
        stream.events(chunk) == stream.events(unfinished(chunk)),
        stream.after(chunk) == stream.after(unfinished(chunk)),
        forall|i: int|
            0 <= i < stream.events(chunk).len() ==> !(#[trigger] stream.events(
                chunk,
            )[i] is OutputItemDone),
        forall|index: usize|
            stream.pending.contains_key(index) ==> #[trigger] stream.after(
                chunk,
            ).pending.contains_key(index),
        choices[0].delta is None || choices[0].delta->0.tool_calls is None ==> stream.after(
            chunk,
        ).pending == stream.pending,
        choices[0].delta is Some && choices[0].delta->0.tool_calls is Some ==> stream.after(
            chunk,
        ).pending == pending::with_fragments(stream.pending, choices[0].delta->0.tool_calls->0),
{
    assert(unfinished(chunk).choices->0[0].delta == choices[0].delta);
    if choices[0].delta is Some && choices[0].delta->0.tool_calls is Some {
        lemma_fragments_keep_calls(stream.pending, choices[0].delta->0.tool_calls->0);
    }
}

/// Adding fragments drops no call.
proof fn lemma_fragments_keep_calls(
    calls: Map<usize, PendingView>,
    fragments: Seq<ToolCallDeltaView>,
)
    ensures
        forall|index: usize| #[trigger]
            calls.contains_key(index) ==> pending::with_fragments(calls, fragments).contains_key(
                index,
            ),
    decreases fragments.len(),
{
    if fragments.len() > 0 {
        lemma_fragments_keep_calls(calls, fragments.drop_last());
    }
}

/// Law: two chunks have the same events and the same outcome where they agree
/// in the identifier, the usage and, of the first choice, the finish reason,
/// the text and the fragments. Neither the role nor a further choice counts.
pub proof fn law_neither_role_nor_further_choices_count(
    stream: StreamView,
    one: ChunkView,
    two: ChunkView,
)
    requires
        one.id == two.id,
        one.usage == two.usage,
        one.choices is Some && one.choices->0.len() > 0,
        two.choices is Some && two.choices->0.len() > 0,
        one.choices->0[0].finish_reason == two.choices->0[0].finish_reason,
        one.choices->0[0].delta is Some && two.choices->0[0].delta is Some,
        one.choices->0[0].delta->0.content == two.choices->0[0].delta->0.content,
        one.choices->0[0].delta->0.tool_calls == two.choices->0[0].delta->0.tool_calls,
    ensures
        stream.after(one) == stream.after(two),
        stream.events(one) == stream.events(two),
{
}

/// Law: a delta without text and without fragments is as good as none.
pub proof fn law_empty_delta_counts_as_none(
    stream: StreamView,
    one: ChunkView,
    two: ChunkView,
    delta: DeltaView,
)
    requires
        one.id == two.id,
        one.usage == two.usage,
        one.choices is Some && one.choices->0.len() > 0,
        two.choices is Some && two.choices->0.len() > 0,
        one.choices->0[0].finish_reason == two.choices->0[0].finish_reason,
        one.choices->0[0].delta is None,
        two.choices->0[0].delta == Some(delta),
        delta.content is None,
        delta.tool_calls is None,
    ensures
        stream.after(one) == stream.after(two),
        stream.events(one) == stream.events(two),
{
    assert(stream.events(one) =~= stream.events(two));
}

/// Law: a chunk that has no first choice causes no event, and changes neither
/// the message nor the calls.
pub proof fn law_no_first_choice_no_event(stream: StreamView, chunk: ChunkView)
    requires
        chunk.choices is None || chunk.choices->0.len() == 0,
    ensures
        stream.events(chunk) == Seq::<EventView>::empty(),
        stream.after(chunk).message_id == stream.message_id,
        stream.after(chunk).message_seq == stream.message_seq,
        stream.after(chunk).text == stream.text,
        stream.after(chunk).pending == stream.pending,
{
    assert(stream.events(chunk) =~= Seq::empty());
}

/// Law: a piece of text goes to the end of the message and out as it is. The
/// first one opens the message, as a comment whose text is still empty.
pub proof fn law_piece_of_text_is_passed_on(
    stream: StreamView,
    chunk: ChunkView,
    choices: Seq<ChoiceView>,
    delta: DeltaView,
    content: Seq<char>,
)
    requires
        chunk.choices == Some(choices),
        choices.len() > 0,
        choices[0].delta == Some(delta),
        delta.content == Some(content),
    ensures
        stream.after(chunk).text == stream.text + content,
        stream.message_id is Some ==> {
            &&& stream.after(chunk).message_id == stream.message_id
            &&& stream.after(chunk).message_seq == stream.message_seq
            &&& stream.events(unfinished(chunk)) == seq![EventView::OutputTextDelta(content)]
        },
        stream.message_id is None ==> {
            let id = "msg_"@ + text::decimal(stream.message_seq + 1);
            &&& stream.after(chunk).message_id == Some(id)
            &&& stream.after(chunk).message_seq == stream.message_seq + 1
            &&& stream.events(unfinished(chunk)) == seq![
                EventView::OutputItemAdded(
                    ItemView::Message {
                        id: Some(id),
                        role: "assistant"@,
                        content: seq![ContentView::OutputText { text: Seq::empty() }],
                        end_turn: None,
                        phase: Some(MessagePhase::Commentary),
                    },
                ),
                EventView::OutputTextDelta(content),
            ]
        },
{
    assert(unfinished(chunk).choices->0[0].delta == Some(delta));
    if stream.message_id is None {
        let id = "msg_"@ + text::decimal(stream.message_seq + 1);
        assert(stream.events(unfinished(chunk)) =~= seq![
            event::message_opened(id),
            EventView::OutputTextDelta(content),
        ]);
    } else {
        assert(stream.events(unfinished(chunk)) =~= seq![EventView::OutputTextDelta(content)]);
    }
}

/// Law: a chunk without text leaves the message alone.
pub proof fn law_no_text_no_message(
    stream: StreamView,
    chunk: ChunkView,
    choices: Seq<ChoiceView>,
)
    requires
        chunk.choices == Some(choices),
        choices.len() > 0,
        choices[0].delta is None || choices[0].delta->0.content is None,
    ensures
        stream.after(chunk).text == stream.text,
        stream.after(chunk).message_id == stream.message_id,
        stream.after(chunk).message_seq == stream.message_seq,
        stream.events(unfinished(chunk)) == Seq::<EventView>::empty(),
{
    assert(unfinished(chunk).choices->0[0].delta == choices[0].delta);
    assert(stream.events(unfinished(chunk)) =~= Seq::empty());
}

/// Law: the identifier of the response is the first one, and stays.
pub proof fn law_first_response_id_stays(stream: StreamView, chunk: ChunkView)
    ensures
        stream.response_id is Some ==> stream.after(chunk).response_id == stream.response_id,
        stream.response_id is None ==> stream.after(chunk).response_id == chunk.id,
{
}

/// Whether `counts` are those of `usage`: each one is the count that was
/// given, whatever the others are. One that is missing is zero, a missing
/// total is the sum.
pub open spec fn counts_as_given(usage: ChatCompletionsUsage, counts: TokenUsage) -> bool {
    &&& usage.prompt_tokens matches Some(n) ==> counts.input_tokens == n
    &&& usage.prompt_tokens is None ==> counts.input_tokens == 0
    &&& usage.completion_tokens matches Some(n) ==> counts.output_tokens == n
    &&& usage.completion_tokens is None ==> counts.output_tokens == 0
    &&& usage.prompt_tokens_details matches Some(details) ==> {
        &&& details.cached_tokens matches Some(n) ==> counts.cached_input_tokens == n
        &&& details.cached_tokens is None ==> counts.cached_input_tokens == 0
    }
    &&& usage.prompt_tokens_details is None ==> counts.cached_input_tokens == 0
    &&& counts.reasoning_output_tokens == 0
    &&& usage.total_tokens matches Some(n) ==> counts.total_tokens == n
    &&& usage.total_tokens is None ==> counts.total_tokens == counts.input_tokens
        + counts.output_tokens
}

/// Law: a usage chunk replaces the usage by the counts that it gives, and any
/// other chunk leaves it alone.
pub proof fn law_usage_is_as_given(stream: StreamView, chunk: ChunkView)
    requires
        chunk.usage matches Some(usage) ==> usage.total_tokens is Some || i64::MIN <= (
        if usage.prompt_tokens is Some {
            usage.prompt_tokens->0
        } else {
            0
        }) + (if usage.completion_tokens is Some {
            usage.completion_tokens->0
        } else {
            0
        }) <= i64::MAX,
    ensures
        chunk.usage is None ==> stream.after(chunk).usage == stream.usage,
        chunk.usage matches Some(usage) ==> stream.after(chunk).usage is Some && counts_as_given(
            usage,
            stream.after(chunk).usage->0,
        ),
{
}

/// Law: the counts are taken one by one. Two usages that agree in a count are
/// reported with the same one.
pub proof fn law_counts_do_not_mix(
    stream: StreamView,
    one: ChunkView,
    two: ChunkView,
    first: ChatCompletionsUsage,
    second: ChatCompletionsUsage,
)
    requires
        one.usage == Some(first),
        two.usage == Some(second),
    ensures
        ({
            let counts = stream.after(one).usage->0;
            let others = stream.after(two).usage->0;
            &&& first.prompt_tokens == second.prompt_tokens ==> counts.input_tokens
                == others.input_tokens
            &&& first.completion_tokens == second.completion_tokens ==> counts.output_tokens
                == others.output_tokens
            &&& first.prompt_tokens_details == second.prompt_tokens_details
                ==> counts.cached_input_tokens == others.cached_input_tokens
            &&& first.total_tokens is Some && first.total_tokens == second.total_tokens
                ==> counts.total_tokens == others.total_tokens
        }),
{
}

/// Law: a usage can be told unless its total is missing and the sum of prompt
/// and completion is out of range.
pub proof fn law_usage_is_in_range_unless_the_sum_is_not(chunk: ChunkView)
    ensures
        chunk::usage_in_range(chunk) <==> (chunk.usage matches Some(usage)
            ==> usage.total_tokens is Some || i64::MIN <= (if usage.prompt_tokens is Some {
            usage.prompt_tokens->0
        } else {
            0
        }) + (if usage.completion_tokens is Some {
            usage.completion_tokens->0
        } else {
            0
        }) <= i64::MAX),
{
}

/// Law: a stream ends with its completion, which tells the identifier of the
/// response and the usage.
pub proof fn law_completion_is_told_last(stream: StreamView)
    ensures
        stream.closing_events().len() > 0,
        stream.closing_events().last() == (EventView::Completed {
            response_id: if stream.response_id is Some {
                stream.response_id->0
            } else {
                "chatcmpl_unknown"@
            },
            token_usage: stream.usage,
        }),
{
}

/// Law: at the end of a stream a message that is not blank is closed with its
/// whole text, as the final answer, after the calls that are left and right
/// before the completion.
pub proof fn law_message_is_closed_with_its_whole_text(
    stream: StreamView,
    id: Seq<char>,
    place: int,
)
    requires
        stream.message_id == Some(id),
        0 <= place < stream.text.len(),
        !text::is_white_space(stream.text[place]),
    ensures
        stream.closing_events() == pending::tool_call_events(stream.pending) + seq![
            EventView::OutputItemDone(
                ItemView::Message {
                    id: Some(id),
                    role: "assistant"@,
                    content: seq![ContentView::OutputText { text: stream.text }],
                    end_turn: Some(true),
                    phase: Some(MessagePhase::FinalAnswer),
                },
            ),
            stream.closing_events().last(),
        ],
{
    assert(stream.closing_events() =~= pending::tool_call_events(stream.pending) + seq![
        event::message_closed(id, stream.text),
        stream.completed(),
    ]);
}

/// Law: without a message, or with one that is blank, the calls that are left
/// and the completion are all.
pub proof fn law_blank_message_is_not_closed(stream: StreamView)
    requires
        stream.message_id is None || forall|i: int|
            0 <= i < stream.text.len() ==> text::is_white_space(#[trigger] stream.text[i]),
    ensures
        stream.closing_events() == pending::tool_call_events(stream.pending) + seq![
            stream.closing_events().last(),
        ],
{
    assert(stream.closing_events() =~= pending::tool_call_events(stream.pending) + seq![
        stream.completed(),
    ]);
}

/// The text that the first choices of `chunks` carry, in one.
pub open spec fn whole_text(chunks: Seq<ChunkView>) -> Seq<char>
    decreases chunks.len(),
{
    if chunks.len() == 0 {
        Seq::empty()
    } else {
        let choices = chunks.last().choices;
        whole_text(chunks.drop_last()) + (if choices is Some && choices->0.len() > 0
            && choices->0[0].delta is Some && choices->0[0].delta->0.content is Some {
            choices->0[0].delta->0.content->0
        } else {
            Seq::empty()
        })
    }
}

/// Whatever chunks arrive, the text of the stream is what they carry, and its
/// only message is the first one.
proof fn lemma_whole_text(chunks: Seq<ChunkView>)
    ensures
        ({
            let end = transcript::stream_after(chunks);
            &&& end.text == whole_text(chunks)
            &&& end.message_id is None ==> end.message_seq == 0 && end.text.len() == 0
            &&& end.message_id is Some ==> end.message_id == Some("msg_1"@)
        }),
    decreases chunks.len(),
{
    if chunks.len() == 0 {
        assert(whole_text(chunks) =~= transcript::stream_after(chunks).text);
    } else {
        let before = transcript::stream_after(chunks.drop_last());
        let chunk = chunks.last();
        lemma_whole_text(chunks.drop_last());
        if chunk.choices is None || chunk.choices->0.len() == 0 {
            law_no_first_choice_no_event(before, chunk);
            assert(before.text + Seq::<char>::empty() =~= before.text);
        } else {
            let choice = chunk.choices->0[0];
            if choice.delta is Some && choice.delta->0.content is Some {
                law_piece_of_text_is_passed_on(
                    before,
                    chunk,
                    chunk.choices->0,
                    choice.delta->0,
                    choice.delta->0.content->0,
                );
                lemma_first_message_id();
            } else {
                law_no_text_no_message(before, chunk, chunk.choices->0);
                assert(before.text + Seq::<char>::empty() =~= before.text);
            }
        }
    }
}

/// The first message has the identifier `msg_1`.
proof fn lemma_first_message_id()
    ensures
        "msg_"@ + text::decimal(1) == "msg_1"@,
{
    reveal_strlit("msg_");
    reveal_strlit("msg_1");
    assert("msg_"@ + text::decimal(1) =~= "msg_1"@);
}

/// Law: whatever chunks arrive, a stream whose text is not blank closes its
/// message with all pieces of the text in one, right before its last event.
pub proof fn law_closed_message_holds_every_piece(chunks: Seq<ChunkView>, place: int)
    requires
        0 <= place < whole_text(chunks).len(),
        !text::is_white_space(whole_text(chunks)[place]),
    ensures
        ({
            let events = transcript::stream_after(chunks).closing_events();
            &&& events.len() >= 2
            &&& events[events.len() - 2] == EventView::OutputItemDone(
                ItemView::Message {
                    id: Some("msg_1"@),
                    role: "assistant"@,
                    content: seq![ContentView::OutputText { text: whole_text(chunks) }],
                    end_turn: Some(true),
                    phase: Some(MessagePhase::FinalAnswer),
                },
            )
        }),
{
    lemma_whole_text(chunks);
    law_message_is_closed_with_its_whole_text(
        transcript::stream_after(chunks),
        "msg_1"@,
        place,
    );
}

/// Law: the usage that the completion tells is the one that the last usage
/// chunk gave.
pub proof fn law_last_usage_chunk_counts(
    chunks: Seq<ChunkView>,
    last: int,
    usage: ChatCompletionsUsage,
)
    requires
        0 <= last < chunks.len(),
        chunks[last].usage == Some(usage),
        forall|i: int| last < i < chunks.len() ==> (#[trigger] chunks[i]).usage is None,
        usage.total_tokens is Some || i64::MIN <= (if usage.prompt_tokens is Some {
            usage.prompt_tokens->0
        } else {
            0
        }) + (if usage.completion_tokens is Some {
            usage.completion_tokens->0
        } else {
            0
        }) <= i64::MAX,
    ensures
        ({
            let event = transcript::stream_after(chunks).closing_events().last();
            event matches EventView::Completed { response_id, token_usage } && token_usage is Some
                && counts_as_given(usage, token_usage->0)
        }),
    decreases chunks.len(),
{
    let before = transcript::stream_after(chunks.drop_last());
    law_usage_is_as_given(before, chunks.last());
    law_completion_is_told_last(transcript::stream_after(chunks));
    if last < chunks.len() - 1 {
        law_last_usage_chunk_counts(chunks.drop_last(), last, usage);
        law_completion_is_told_last(before);
    }
}

/// Law: the identifier that the completion tells is the first one that a chunk
/// gave.
pub proof fn law_first_chunk_id_counts(chunks: Seq<ChunkView>, first: int, id: Seq<char>)
    requires
        0 <= first < chunks.len(),
        chunks[first].id == Some(id),
        forall|i: int| 0 <= i < first ==> (#[trigger] chunks[i]).id is None,
    ensures
        transcript::stream_after(chunks).closing_events().last() matches EventView::Completed {
            response_id,
            token_usage,
        } && response_id == id,
{
    lemma_first_chunk_id(chunks, first);
    law_completion_is_told_last(transcript::stream_after(chunks));
}

/// Until a chunk gives an identifier there is none, from then on it stays.
proof fn lemma_first_chunk_id(chunks: Seq<ChunkView>, first: int)
    requires
        0 <= first,
        first < chunks.len() ==> chunks[first].id is Some,
        forall|i: int| 0 <= i < first && i < chunks.len() ==> (#[trigger] chunks[i]).id is None,
    ensures
        transcript::stream_after(chunks).response_id == (if first < chunks.len() {
            chunks[first].id
        } else {
            None
        }),
    decreases chunks.len(),
{
    if chunks.len() > 0 {
        lemma_first_chunk_id(chunks.drop_last(), first);
        law_first_response_id_stays(
            transcript::stream_after(chunks.drop_last()),
            chunks.last(),
        );
    }
}

/// Law: a payload that is the end marker with nothing but white space around it
/// ends the stream.
pub proof fn law_end_marker_ends_the_stream(
    stream: StreamView,
    before: Seq<char>,
    after: Seq<char>,
)
    requires
        forall|i: int| 0 <= i < before.len() ==> text::is_white_space(#[trigger] before[i]),
        forall|i: int| 0 <= i < after.len() ==> text::is_white_space(#[trigger] after[i]),
    ensures
        stream.on_poll(PollView::Event(before + "[DONE]"@ + after)) == (ActionView::Finish {
            events: stream.closing_events(),
        }),
{
    assert(text::is_padded(before + "[DONE]"@ + after, "[DONE]"@));
}

/// Law: every other payload is decoded as it is, and the stream waits for that.
pub proof fn law_other_payloads_are_decoded(stream: StreamView, data: Seq<char>)
    requires
        forall|before: Seq<char>, after: Seq<char>|
            data == #[trigger] (before + "[DONE]"@ + after) ==> (exists|i: int|
                0 <= i < before.len() && !text::is_white_space(#[trigger] before[i])) || (exists|
                i: int,
            |
                0 <= i < after.len() && !text::is_white_space(#[trigger] after[i])),
    ensures
        stream.on_poll(PollView::Event(data)) == (ActionView::Decode { stream, data }),
{
}

/// Law: what the other polls and the decoder lead to.
pub proof fn law_polls_and_decoder_are_obeyed(
    stream: StreamView,
    message: Seq<char>,
    chunk: ChunkView,
)
    ensures
        stream.on_poll(PollView::Closed) == (ActionView::Finish {
            events: stream.closing_events(),
        }),
        stream.on_poll(PollView::IdleTimeout) == (ActionView::Fail {
            error: ErrorView::Stream("chat completions SSE idle timeout"@),
        }),
        stream.on_poll(PollView::StreamError(message)) == (ActionView::Fail {
            error: ErrorView::Stream("chat completions SSE stream error: "@ + message),
        }),
        stream.on_decoded(Err(message)) == (ActionView::Fail {
            error: ErrorView::Stream("failed to parse chat completions chunk: "@ + message),
        }),
        stream.on_decoded(Ok(chunk)) == (ActionView::Continue {
            stream: stream.after(chunk),
            events: stream.events(chunk),
        }),
{
}

} // verus!
