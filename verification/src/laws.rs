//! Laws of whole streams and of the requests that start them.
use std::sync::{Arc, OnceLock};
use vstd::prelude::*;

use crate::chunk::{ChatCompletionsUsage, ChunkView, ToolCallDeltaView};
use crate::event::{self, ErrorView, EventView};
use crate::headers::{self, HeaderFields};
use crate::pending::{self, PendingView};
use crate::request;
use crate::stream::{self, ActionView, StreamView};
use crate::text;
use crate::transcript::{self, Turn};

verus! {

/// Tool-call events report tool calls, and nothing else.
proof fn lemma_tool_call_events(calls: Map<usize, PendingView>, bound: nat)
    ensures
        forall|i: int|
            0 <= i < pending::tool_call_events_below(calls, bound).len()
                ==> transcript::is_tool_call(
                #[trigger] pending::tool_call_events_below(calls, bound)[i],
            ),
    decreases bound,
{
    if bound > 0 {
        lemma_tool_call_events(calls, (bound - 1) as nat);
        let before = pending::tool_call_events_below(calls, (bound - 1) as nat);
        assert forall|i: int|
            0 <= i < pending::tool_call_events_below(
                calls,
                bound,
            ).len() implies transcript::is_tool_call(
            #[trigger] pending::tool_call_events_below(calls, bound)[i],
        ) by {
            if i < before.len() {
                assert(transcript::is_tool_call(before[i]));
            }
        }
    }
}

/// The events for a chunk neither create nor complete the response, and close
/// no message.
proof fn lemma_chunk_events(stream: StreamView, chunk: ChunkView)
    ensures
        forall|i: int|
            0 <= i < stream.events(chunk).len() ==> {
                let event = #[trigger] stream.events(chunk)[i];
                event is OutputItemAdded || event is OutputTextDelta || transcript::is_tool_call(
                    event,
                )
            },
{
    lemma_tool_call_events(stream.gathered(chunk), usize::MAX as nat + 1);
}

/// The closing events: tool calls, then at most one closed message, then the
/// completion.
proof fn lemma_closing_events(stream: StreamView)
    ensures
        stream.closing_events().len() > 0,
        stream.closing_events().last() == stream.completed(),
        forall|i: int|
            0 <= i < stream.closing_events().len() - 1 ==> {
                let event = #[trigger] stream.closing_events()[i];
                transcript::is_tool_call(event) || transcript::closes_message(event)
            },
{
    lemma_tool_call_events(stream.pending, usize::MAX as nat + 1);
}

/// A turn that does not stop the stream hands over a chunk.
proof fn lemma_turn(stream: StreamView, turn: Turn)
    ensures
        !turn.stops() ==> turn is Event && turn->decoded is Ok && stream.on_turn(turn)
            == (ActionView::Continue {
            stream: stream.after(turn->decoded->Ok_0),
            events: stream.events(turn->decoded->Ok_0),
        }),
        turn.stops() ==> stream.on_turn(turn) is Fail || stream.on_turn(turn)
            == (ActionView::Finish { events: stream.closing_events() }),
{
}

/// What holds of all that is sent after the first event.
proof fn lemma_sent(stream: StreamView, turns: Seq<Turn>)
    ensures
        forall|i: int|
            0 <= i < stream.sent(turns).len() ==> #[trigger] stream.sent(turns)[i] != Ok::<
                EventView,
                ErrorView,
            >(EventView::Created),
        forall|i: int|
            0 <= i < stream.sent(turns).len() - 1 ==> !transcript::is_final(
                #[trigger] stream.sent(turns)[i],
            ),
        (exists|i: int| 0 <= i < turns.len() && (#[trigger] turns[i]).stops()) <==> (
        stream.sent(turns).len() > 0 && transcript::is_final(stream.sent(turns).last())),
    decreases turns.len(),
{
    if turns.len() > 0 {
        let turn = turns[0];
        lemma_turn(stream, turn);
        if turn.stops() {
            lemma_closing_events(stream);
            assert(turns[0].stops());
        } else {
            let chunk = turn->decoded->Ok_0;
            let rest = turns.drop_first();
            lemma_chunk_events(stream, chunk);
            lemma_sent(stream.after(chunk), rest);
            let head = transcript::in_good_order(stream.events(chunk));
            let tail = stream.after(chunk).sent(rest);
            assert(stream.sent(turns) == head + tail);
            assert forall|i: int| 0 <= i < head.len() implies !transcript::is_final(
                #[trigger] head[i],
            ) && head[i] != Ok::<EventView, ErrorView>(EventView::Created) by {
                assert(head[i] == Ok::<EventView, ErrorView>(stream.events(chunk)[i]));
            }
            if exists|i: int| 0 <= i < turns.len() && (#[trigger] turns[i]).stops() {
                let i = choose|i: int| 0 <= i < turns.len() && (#[trigger] turns[i]).stops();
                assert(rest[i - 1].stops());
            }
            if exists|i: int| 0 <= i < rest.len() && (#[trigger] rest[i]).stops() {
                let i = choose|i: int| 0 <= i < rest.len() && (#[trigger] rest[i]).stops();
                assert(turns[i + 1].stops());
            }
        }
    }
}

/// Law: every stream begins with the event that says it was created, and says
/// so once.
pub proof fn law_created_first_and_once(turns: Seq<Turn>)
    ensures
        transcript::transcript(turns).len() > 0,
        transcript::transcript(turns)[0] == Ok::<EventView, ErrorView>(EventView::Created),
        forall|i: int|
            0 < i < transcript::transcript(turns).len() ==> #[trigger] transcript::transcript(
                turns,
            )[i] != Ok::<EventView, ErrorView>(EventView::Created),
{
    lemma_sent(StreamView::initial(), turns);
}

/// Law: nothing follows a completion or an error, so there is at most one of
/// both together.
pub proof fn law_nothing_follows_the_end(turns: Seq<Turn>)
    ensures
        forall|i: int|
            0 <= i < transcript::transcript(turns).len() && transcript::is_final(
                #[trigger] transcript::transcript(turns)[i],
            ) ==> i == transcript::transcript(turns).len() - 1,
{
    lemma_sent(StreamView::initial(), turns);
}

/// Law: a stream ends, with a completion or an error, if and only if one of
/// its turns stops it: the closed or broken connection, the idle timeout, the
/// end marker, or a payload that cannot be decoded.
pub proof fn law_stream_ends_when_stopped(turns: Seq<Turn>)
    ensures
        (exists|i: int| 0 <= i < turns.len() && (#[trigger] turns[i]).stops())
            <==> transcript::is_final(transcript::transcript(turns).last()),
{
    lemma_sent(StreamView::initial(), turns);
}

/// Turns after one that stops the stream are not looked at.
proof fn lemma_sent_after_stop(stream: StreamView, turns: Seq<Turn>, more: Seq<Turn>)
    requires
        exists|i: int| 0 <= i < turns.len() && (#[trigger] turns[i]).stops(),
    ensures
        stream.sent(turns + more) == stream.sent(turns),
    decreases turns.len(),
{
    lemma_turn(stream, turns[0]);
    assert((turns + more)[0] == turns[0]);
    if !turns[0].stops() {
        let i = choose|i: int| 0 <= i < turns.len() && (#[trigger] turns[i]).stops();
        assert(turns.drop_first()[i - 1].stops());
        lemma_sent_after_stop(
            stream.after(turns[0]->decoded->Ok_0),
            turns.drop_first(),
            more,
        );
        assert((turns + more).drop_first() =~= turns.drop_first() + more);
    }
}

/// Law: what arrives after the end of a stream changes nothing.
pub proof fn law_later_turns_change_nothing(turns: Seq<Turn>, more: Seq<Turn>)
    requires
        exists|i: int| 0 <= i < turns.len() && (#[trigger] turns[i]).stops(),
    ensures
        transcript::transcript(turns + more) == transcript::transcript(turns),
{
    lemma_sent_after_stop(StreamView::initial(), turns, more);
}

/// The chunks from the front: the first one, then the others.
proof fn lemma_front(stream: StreamView, chunks: Seq<ChunkView>)
    requires
        chunks.len() > 0,
    ensures
        stream.after_all(chunks) == stream.after(chunks[0]).after_all(chunks.drop_first()),
        stream.all_events(chunks) == stream.events(chunks[0]) + stream.after(
            chunks[0],
        ).all_events(chunks.drop_first()),
    decreases chunks.len(),
{
    let rest = chunks.drop_first();
    if chunks.len() == 1 {
        assert(chunks.drop_last() =~= Seq::empty());
        assert(rest =~= Seq::empty());
        reveal_with_fuel(StreamView::after_all, 2);
        reveal_with_fuel(StreamView::all_events, 2);
        assert(stream.all_events(chunks) =~= stream.events(chunks[0]) + stream.after(
            chunks[0],
        ).all_events(rest));
    } else {
        lemma_front(stream, chunks.drop_last());
        assert(chunks.drop_last().drop_first() =~= rest.drop_last());
        assert(chunks.drop_last()[0] == chunks[0]);
        assert(rest.last() == chunks.last());
        assert(stream.all_events(chunks) =~= stream.events(chunks[0]) + stream.after(
            chunks[0],
        ).all_events(rest));
    }
}

/// What is sent while chunks are handed over.
proof fn lemma_sent_while_handed_over(
    stream: StreamView,
    turns: Seq<Turn>,
    chunks: Seq<ChunkView>,
    rest: Seq<Turn>,
)
    requires
        transcript::hand_over(turns, chunks),
    ensures
        stream.sent(turns + rest) == transcript::in_good_order(stream.all_events(chunks))
            + stream.after_all(chunks).sent(rest),
    decreases turns.len(),
{
    let all = turns + rest;
    if turns.len() == 0 {
        assert(all =~= rest);
        assert(transcript::in_good_order(stream.all_events(chunks)) + stream.after_all(
            chunks,
        ).sent(rest) =~= stream.sent(rest));
    } else {
        lemma_front(stream, chunks);
        lemma_turn(stream, turns[0]);
        assert(all[0] == turns[0]);
        assert(all.drop_first() =~= turns.drop_first() + rest);
        assert forall|i: int| 0 <= i < turns.drop_first().len() implies !(
        #[trigger] turns.drop_first()[i]).stops() && turns.drop_first()[i]->decoded == Ok::<
            ChunkView,
            Seq<char>,
        >(chunks.drop_first()[i]) by {
            assert(!turns[i + 1].stops());
        }
        lemma_sent_while_handed_over(
            stream.after(chunks[0]),
            turns.drop_first(),
            chunks.drop_first(),
            rest,
        );
        assert(stream.sent(all) =~= transcript::in_good_order(stream.all_events(chunks))
            + stream.after_all(chunks).sent(rest));
    }
}

/// Law: a stream whose chunks all arrive and that ends in good order sends its
/// creation, the events for the chunks and the closing events.
pub proof fn law_stream_in_good_order(turns: Seq<Turn>, chunks: Seq<ChunkView>, last: Turn)
    requires
        transcript::hand_over(turns, chunks),
        transcript::ends_in_good_order(last),
    ensures
        transcript::transcript(turns.push(last)) == transcript::in_good_order(
            transcript::completed_stream(chunks),
        ),
{
    let initial = StreamView::initial();
    lemma_sent_while_handed_over(initial, turns, chunks, seq![last]);
    assert(turns.push(last) =~= turns + seq![last]);
    let end = initial.after_all(chunks);
    assert(end.sent(seq![last]) == transcript::in_good_order(end.closing_events()));
    assert(transcript::transcript(turns.push(last)) =~= transcript::in_good_order(
        transcript::completed_stream(chunks),
    ));
}

/// Law: a stream that breaks off sends what it had for the chunks before, then
/// the error, and none of the closing events.
pub proof fn law_stream_breaks_off(turns: Seq<Turn>, chunks: Seq<ChunkView>, last: Turn)
    requires
        transcript::hand_over(turns, chunks),
        last.stops(),
        !transcript::ends_in_good_order(last),
    ensures
        transcript::transcript(turns.push(last)) == transcript::in_good_order(
            seq![EventView::Created] + StreamView::initial().all_events(chunks),
        ) + seq![Err::<EventView, ErrorView>(transcript::break_off_error(last))],
{
    let initial = StreamView::initial();
    lemma_sent_while_handed_over(initial, turns, chunks, seq![last]);
    assert(turns.push(last) =~= turns + seq![last]);
    let end = initial.after_all(chunks);
    assert(end.sent(seq![last]) == seq![
        Err::<EventView, ErrorView>(transcript::break_off_error(last)),
    ]);
    assert(transcript::transcript(turns.push(last)) =~= transcript::in_good_order(
        seq![EventView::Created] + initial.all_events(chunks),
    ) + seq![Err::<EventView, ErrorView>(transcript::break_off_error(last))]);
}

/// Law: whatever chunks arrive, there is at most one message, it has the first
/// number, and its text is what the chunks carry; before the first piece of
/// text there is none.
pub proof fn law_message_gathers_the_text(chunks: Seq<ChunkView>)
    ensures
        transcript::stream_after(chunks).well_formed(),
        transcript::stream_after(chunks).message_id is Some <==> transcript::pieces(
            chunks,
        ).len() > 0,
        transcript::stream_after(chunks).text == transcript::concatenated(
            transcript::pieces(chunks),
        ),
    decreases chunks.len(),
{
    if chunks.len() > 0 {
        law_message_gathers_the_text(chunks.drop_last());
        stream::lemma_after_well_formed(
            transcript::stream_after(chunks.drop_last()),
            chunks.last(),
        );
        if let Some(content) = chunks.last().content() {
            let before = transcript::pieces(chunks.drop_last());
            assert(before.push(content).drop_last() =~= before);
        }
    }
}

/// The texts of joined events are the joined texts.
proof fn lemma_texts_joined(first: Seq<EventView>, second: Seq<EventView>)
    ensures
        transcript::texts(first + second) == transcript::texts(first) + transcript::texts(second),
    decreases second.len(),
{
    if second.len() == 0 {
        assert(first + second =~= first);
    } else {
        lemma_texts_joined(first, second.drop_last());
        assert((first + second).drop_last() =~= first + second.drop_last());
    }
    assert(transcript::texts(first + second) =~= transcript::texts(first) + transcript::texts(
        second,
    ));
}

/// Events without text events have no texts.
proof fn lemma_no_texts(events: Seq<EventView>)
    requires
        forall|i: int| 0 <= i < events.len() ==> !(#[trigger] events[i] is OutputTextDelta),
    ensures
        transcript::texts(events) == Seq::<Seq<char>>::empty(),
    decreases events.len(),
{
    if events.len() > 0 {
        lemma_no_texts(events.drop_last());
    }
}

/// The tool calls of joined events are the joined tool calls.
proof fn lemma_tool_calls_joined(first: Seq<EventView>, second: Seq<EventView>)
    ensures
        transcript::tool_calls(first + second) == transcript::tool_calls(first)
            + transcript::tool_calls(second),
    decreases second.len(),
{
    if second.len() == 0 {
        assert(first + second =~= first);
    } else {
        lemma_tool_calls_joined(first, second.drop_last());
        assert((first + second).drop_last() =~= first + second.drop_last());
    }
    assert(transcript::tool_calls(first + second) =~= transcript::tool_calls(first)
        + transcript::tool_calls(second));
}

/// Events that all report tool calls, or of which none does.
proof fn lemma_only_tool_calls(events: Seq<EventView>)
    ensures
        (forall|i: int| 0 <= i < events.len() ==> transcript::is_tool_call(#[trigger] events[i]))
            ==> transcript::tool_calls(events) == events,
        (forall|i: int| 0 <= i < events.len() ==> !transcript::is_tool_call(#[trigger] events[i]))
            ==> transcript::tool_calls(events) == Seq::<EventView>::empty(),
    decreases events.len(),
{
    if events.len() > 0 {
        lemma_only_tool_calls(events.drop_last());
        assert(events.drop_last().push(events.last()) =~= events);
    }
}

/// The texts and the tool calls among the events for one chunk.
proof fn lemma_chunk_texts_and_calls(stream: StreamView, chunk: ChunkView)
    ensures
        transcript::texts(stream.events(chunk)) == (match chunk.content() {
            Some(content) => seq![content],
            None => Seq::empty(),
        }),
        transcript::tool_calls(stream.events(chunk)) == stream.tool_events(chunk),
{
    let text_events = stream.text_events(chunk);
    let tool_events = stream.tool_events(chunk);
    lemma_tool_call_events(stream.gathered(chunk), usize::MAX as nat + 1);
    lemma_texts_joined(text_events, tool_events);
    lemma_no_texts(tool_events);
    lemma_tool_calls_joined(text_events, tool_events);
    lemma_only_tool_calls(text_events);
    lemma_only_tool_calls(tool_events);
    reveal_with_fuel(transcript::texts, 3);
    if let Some(content) = chunk.content() {
        if stream.message_id is None {
            assert(text_events.drop_last().drop_last() =~= Seq::empty());
        } else {
            assert(text_events.drop_last() =~= Seq::empty());
        }
        assert(transcript::texts(text_events) =~= seq![content]);
    }
    assert(transcript::texts(stream.events(chunk)) =~= transcript::texts(text_events));
    assert(transcript::tool_calls(stream.events(chunk)) =~= tool_events);
}

/// The texts and the tool calls among the closing events.
proof fn lemma_closing_texts_and_calls(stream: StreamView)
    ensures
        transcript::texts(stream.closing_events()) == Seq::<Seq<char>>::empty(),
        transcript::tool_calls(stream.closing_events()) == pending::tool_call_events(
            stream.pending,
        ),
{
    lemma_closing_events(stream);
    lemma_no_texts(stream.closing_events());
    lemma_tool_call_events(stream.pending, usize::MAX as nat + 1);
    let calls = pending::tool_call_events(stream.pending);
    let others = stream.closing_message() + seq![stream.completed()];
    assert(stream.closing_events() =~= calls + others);
    lemma_tool_calls_joined(calls, others);
    lemma_only_tool_calls(calls);
    lemma_only_tool_calls(others);
    assert(calls + Seq::<EventView>::empty() =~= calls);
}

/// Law: while a stream runs, its text events so far carry the pieces of text so
/// far, one event for each piece.
pub proof fn law_text_events_keep_up(chunks: Seq<ChunkView>)
    ensures
        transcript::texts(StreamView::initial().all_events(chunks)) == transcript::pieces(chunks),
    decreases chunks.len(),
{
    if chunks.len() > 0 {
        let initial = StreamView::initial();
        let before = initial.all_events(chunks.drop_last());
        let last = initial.after_all(chunks.drop_last()).events(chunks.last());
        law_text_events_keep_up(chunks.drop_last());
        lemma_texts_joined(before, last);
        lemma_chunk_texts_and_calls(initial.after_all(chunks.drop_last()), chunks.last());
        assert(transcript::texts(before + last) =~= transcript::pieces(chunks));
    }
}

/// Law: the text events of a stream carry the pieces of text that the chunks
/// carry, one event for each piece, in order, and nothing else.
pub proof fn law_text_events_carry_the_pieces(chunks: Seq<ChunkView>)
    ensures
        transcript::texts(transcript::completed_stream(chunks)) == transcript::pieces(chunks),
{
    let created = seq![EventView::Created];
    let middle = StreamView::initial().all_events(chunks);
    let closing = transcript::stream_after(chunks).closing_events();
    law_text_events_keep_up(chunks);
    lemma_closing_texts_and_calls(transcript::stream_after(chunks));
    lemma_texts_joined(created, middle);
    lemma_texts_joined(created + middle, closing);
    lemma_no_texts(created);
    assert(transcript::texts(transcript::completed_stream(chunks)) =~= transcript::pieces(chunks));
}

/// Where the message is opened among the events for chunks.
proof fn lemma_message_opened(chunks: Seq<ChunkView>)
    ensures
        ({
            let events = StreamView::initial().all_events(chunks);
            if transcript::pieces(chunks).len() == 0 {
                forall|i: int|
                    0 <= i < events.len() ==> !(#[trigger] events[i] is OutputItemAdded) && !(
                    events[i] is OutputTextDelta)
            } else {
                exists|k: int| transcript::message_opened_at(events, k)
            }
        }),
    decreases chunks.len(),
{
    if chunks.len() > 0 {
        let initial = StreamView::initial();
        let stream = initial.after_all(chunks.drop_last());
        let before = initial.all_events(chunks.drop_last());
        let text_events = stream.text_events(chunks.last());
        let tool_events = stream.tool_events(chunks.last());
        let events = initial.all_events(chunks);
        lemma_message_opened(chunks.drop_last());
        law_message_gathers_the_text(chunks.drop_last());
        lemma_tool_call_events(stream.gathered(chunks.last()), usize::MAX as nat + 1);
        assert(events =~= before + text_events + tool_events);
        assert forall|i: int| before.len() <= i < events.len() implies #[trigger] events[i]
            == stream.events(chunks.last())[i - before.len()] by {}
        if transcript::pieces(chunks.drop_last()).len() > 0 {
            let k = choose|k: int| transcript::message_opened_at(before, k);
            assert(transcript::message_opened_at(events, k));
        } else if chunks.last().content() is Some {
            let k = before.len() as int;
            assert(events[k] == text_events[0]);
            assert(events[k + 1] == text_events[1]);
            assert(transcript::message_opened_at(events, k));
        }
    }
}

/// Law: the message is opened once, right before the first piece of its text;
/// without text no message is opened.
pub proof fn law_message_opened_before_its_text(chunks: Seq<ChunkView>)
    ensures
        transcript::pieces(chunks).len() > 0 ==> exists|k: int|
            transcript::message_opened_at(transcript::completed_stream(chunks), k),
        transcript::pieces(chunks).len() == 0 ==> forall|i: int|
            0 <= i < transcript::completed_stream(chunks).len() ==> !(
            #[trigger] transcript::completed_stream(chunks)[i] is OutputItemAdded)
                && !(transcript::completed_stream(chunks)[i] is OutputTextDelta),
{
    let events = transcript::completed_stream(chunks);
    let middle = StreamView::initial().all_events(chunks);
    let closing = transcript::stream_after(chunks).closing_events();
    lemma_message_opened(chunks);
    lemma_closing_events(transcript::stream_after(chunks));
    assert forall|i: int| 1 <= i < 1 + middle.len() implies #[trigger] events[i] == middle[i
        - 1] by {}
    assert forall|i: int| 1 + middle.len() <= i < events.len() implies #[trigger] events[i]
        == closing[i - 1 - middle.len()] by {}
    if transcript::pieces(chunks).len() > 0 {
        let k = choose|k: int| transcript::message_opened_at(middle, k);
        assert(events[k + 1] == middle[k]);
        assert(events[k + 2] == middle[k + 1]);
        assert(transcript::message_opened_at(events, k + 1));
    }
}

/// Law: the message is closed if and only if its text is not blank; then it is
/// closed once, right before the completion, under the identifier it was
/// opened with, and with the whole text.
pub proof fn law_message_closed_with_its_text(chunks: Seq<ChunkView>)
    ensures
        ({
            let events = transcript::completed_stream(chunks);
            let whole = transcript::concatenated(transcript::pieces(chunks));
            &&& !text::blank(whole) ==> events.len() >= 2 && events[events.len() - 2]
                == event::message_closed(stream::nth_message_id(1), whole)
            &&& forall|i: int|
                0 <= i < events.len() && transcript::closes_message(#[trigger] events[i])
                    ==> !text::blank(whole) && i == events.len() - 2
        }),
{
    let events = transcript::completed_stream(chunks);
    let whole = transcript::concatenated(transcript::pieces(chunks));
    let initial = StreamView::initial();
    let middle = initial.all_events(chunks);
    let end = transcript::stream_after(chunks);
    let calls = pending::tool_call_events(end.pending);
    let closing = end.closing_events();
    law_message_gathers_the_text(chunks);
    lemma_all_chunk_events(initial, chunks);
    lemma_tool_call_events(end.pending, usize::MAX as nat + 1);
    assert forall|i: int| 1 <= i < 1 + middle.len() implies #[trigger] events[i] == middle[i
        - 1] by {}
    assert forall|i: int| 1 + middle.len() <= i < events.len() implies #[trigger] events[i]
        == closing[i - 1 - middle.len()] by {}
    assert forall|i: int| 0 <= i < calls.len() implies #[trigger] closing[i] == calls[i] by {}
    if !text::blank(whole) {
        assert(end.closing_message().len() == 1);
        assert(closing[calls.len() as int] == end.closing_message()[0]);
        assert(events[events.len() - 2] == closing[calls.len() as int]);
    }
}

/// The events for chunks neither create nor complete the response, and close
/// no message.
proof fn lemma_all_chunk_events(stream: StreamView, chunks: Seq<ChunkView>)
    ensures
        forall|i: int|
            0 <= i < stream.all_events(chunks).len() ==> {
                let event = #[trigger] stream.all_events(chunks)[i];
                event is OutputItemAdded || event is OutputTextDelta || transcript::is_tool_call(
                    event,
                )
            },
    decreases chunks.len(),
{
    if chunks.len() > 0 {
        let before = stream.all_events(chunks.drop_last());
        let last = stream.after_all(chunks.drop_last()).events(chunks.last());
        lemma_all_chunk_events(stream, chunks.drop_last());
        lemma_chunk_events(stream.after_all(chunks.drop_last()), chunks.last());
        assert forall|i: int| 0 <= i < (before + last).len() implies ({
            let event = #[trigger] (before + last)[i];
            event is OutputItemAdded || event is OutputTextDelta || transcript::is_tool_call(event)
        }) by {
            if i < before.len() {
                assert((before + last)[i] == before[i]);
            } else {
                assert((before + last)[i] == last[i - before.len()]);
            }
        }
    }
}

/// Fragments can be added in two parts.
proof fn lemma_fragments_joined(
    calls: Map<usize, PendingView>,
    first: Seq<ToolCallDeltaView>,
    second: Seq<ToolCallDeltaView>,
)
    ensures
        pending::with_fragments(calls, first + second) == pending::with_fragments(
            pending::with_fragments(calls, first),
            second,
        ),
    decreases second.len(),
{
    if second.len() == 0 {
        assert(first + second =~= first);
    } else {
        lemma_fragments_joined(calls, first, second.drop_last());
        assert((first + second).drop_last() =~= first + second.drop_last());
    }
}

/// Law: the pending calls are those that the fragments since the last complete
/// calls make up, across all chunks.
pub proof fn law_calls_gather_across_chunks(chunks: Seq<ChunkView>)
    ensures
        transcript::stream_after(chunks).pending == transcript::calls_of(
            transcript::open_fragments(chunks),
        ),
    decreases chunks.len(),
{
    if chunks.len() > 0 {
        law_calls_gather_across_chunks(chunks.drop_last());
        lemma_fragments_joined(
            Map::empty(),
            transcript::open_fragments(chunks.drop_last()),
            chunks.last().tool_calls(),
        );
    }
}

/// Law: while a stream runs, the tool calls reported so far are those that the
/// chunks so far complete.
pub proof fn law_calls_reported_when_complete(chunks: Seq<ChunkView>)
    ensures
        transcript::tool_calls(StreamView::initial().all_events(chunks))
            == transcript::completed_calls(chunks),
    decreases chunks.len(),
{
    if chunks.len() > 0 {
        let initial = StreamView::initial();
        let stream = initial.after_all(chunks.drop_last());
        let before = initial.all_events(chunks.drop_last());
        let last = stream.events(chunks.last());
        law_calls_reported_when_complete(chunks.drop_last());
        lemma_tool_calls_joined(before, last);
        lemma_chunk_texts_and_calls(stream, chunks.last());
        law_calls_gather_across_chunks(chunks.drop_last());
        lemma_fragments_joined(
            Map::empty(),
            transcript::open_fragments(chunks.drop_last()),
            chunks.last().tool_calls(),
        );
        assert(transcript::tool_calls(before + last) =~= transcript::completed_calls(chunks));
    }
}

/// Law: a stream reports each tool call once: those that a chunk completes at
/// that chunk, and those that are left when it ends.
pub proof fn law_every_call_is_reported_once(chunks: Seq<ChunkView>)
    ensures
        transcript::tool_calls(transcript::completed_stream(chunks))
            == transcript::completed_calls(chunks) + pending::tool_call_events(
            transcript::calls_of(transcript::open_fragments(chunks)),
        ),
{
    let created = seq![EventView::Created];
    let middle = StreamView::initial().all_events(chunks);
    let end = transcript::stream_after(chunks);
    law_calls_reported_when_complete(chunks);
    lemma_closing_texts_and_calls(end);
    law_calls_gather_across_chunks(chunks);
    lemma_tool_calls_joined(created, middle);
    lemma_tool_calls_joined(created + middle, end.closing_events());
    lemma_only_tool_calls(created);
    assert(transcript::tool_calls(created + middle) =~= transcript::tool_calls(middle));
}

/// Law: the fragments of one call make up that call and no other: its
/// identifier and its name are the first ones given, its arguments are all
/// pieces in order.
pub proof fn law_fragments_make_up_their_call(fragments: Seq<ToolCallDeltaView>, index: usize)
    ensures
        ({
            let calls = transcript::calls_of(fragments);
            let own = transcript::fragments_of(fragments, index);
            &&& calls.contains_key(index) <==> own.len() > 0
            &&& own.len() > 0 ==> {
                &&& calls[index].id == transcript::first_present(transcript::ids_of(own))
                &&& calls[index].name == transcript::first_present(transcript::names_of(own))
                &&& calls[index].arguments == transcript::concatenated(
                    transcript::arguments_of(own),
                )
            }
        }),
    decreases fragments.len(),
{
    if fragments.len() > 0 {
        let before = fragments.drop_last();
        let last = fragments.last();
        law_fragments_make_up_their_call(before, index);
        if last.target() == index {
            let own = transcript::fragments_of(before, index);
            let all = own.push(last);
            assert(transcript::ids_of(all).drop_last() =~= transcript::ids_of(own));
            assert(transcript::names_of(all).drop_last() =~= transcript::names_of(own));
            assert(transcript::arguments_of(all).drop_last() =~= transcript::arguments_of(own));
            if own.len() == 0 {
                let calls = transcript::calls_of(before);
                assert(pending::call_at(calls, index) == PendingView::blank());
                assert(transcript::first_present(transcript::ids_of(own)) is None);
                assert(transcript::first_present(transcript::names_of(own)) is None);
                assert(transcript::concatenated(transcript::arguments_of(own)) =~= Seq::empty());
            }
        }
    }
}

/// The ascending listing of the indices below `bound`.
proof fn lemma_calls_listed(calls: Map<usize, PendingView>, bound: nat) -> (keys: Seq<usize>)
    requires
        bound <= usize::MAX + 1,
    ensures
        forall|i: int, j: int| 0 <= i < j < keys.len() ==> keys[i] < keys[j],
        forall|key: usize|
            (calls.contains_key(key) && key < bound) <==> #[trigger] keys.contains(key),
        pending::tool_call_events_below(calls, bound) == keys.map_values(
            |key: usize| calls[key].event(),
        ),
    decreases bound,
{
    if bound == 0 {
        let keys = Seq::<usize>::empty();
        assert(pending::tool_call_events_below(calls, bound) =~= keys.map_values(
            |key: usize| calls[key].event(),
        ));
        keys
    } else {
        let index = (bound - 1) as usize;
        let before = lemma_calls_listed(calls, (bound - 1) as nat);
        assert forall|i: int| 0 <= i < before.len() implies #[trigger] before[i] < index by {
            assert(before.contains(before[i]));
        }
        if calls.contains_key(index) {
            let keys = before.push(index);
            assert forall|key: usize|
                (calls.contains_key(key) && key < bound) <==> #[trigger] keys.contains(key) by {
                if key == index {
                    assert(keys[before.len() as int] == key);
                } else if before.contains(key) {
                    let i = choose|i: int| 0 <= i < before.len() && before[i] == key;
                    assert(keys[i] == key);
                } else if keys.contains(key) {
                    let i = choose|i: int| 0 <= i < keys.len() && keys[i] == key;
                    assert(before[i] == key);
                }
            }
            assert(pending::tool_call_events_below(calls, bound) =~= keys.map_values(
                |key: usize| calls[key].event(),
            ));
            keys
        } else {
            before
        }
    }
}

/// Law: pending calls are reported in the order of their indices, each of them
/// once.
pub proof fn law_calls_reported_by_ascending_index(calls: Map<usize, PendingView>)
    ensures
        exists|keys: Seq<usize>| #[trigger]
            transcript::lists_ascending(keys, calls.dom()) && pending::tool_call_events(calls)
                == keys.map_values(|key: usize| calls[key].event()),
{
    let keys = lemma_calls_listed(calls, usize::MAX as nat + 1);
    assert(transcript::lists_ascending(keys, calls.dom())) by {
        assert forall|key: usize| calls.dom().contains(key) <==> keys.contains(key) by {}
    }
}

/// Law: without pending calls nothing is reported.
pub proof fn law_no_calls_no_events(calls: Map<usize, PendingView>)
    requires
        calls.dom() == Set::<usize>::empty(),
    ensures
        pending::tool_call_events(calls) == Seq::<EventView>::empty(),
{
    let keys = lemma_calls_listed(calls, usize::MAX as nat + 1);
    if keys.len() > 0 {
        assert(keys.contains(keys[0]));
    }
}

/// Law: the identifier of a response is the first one that a chunk gives, its
/// usage is the last one that a chunk reports, and its completion, the last
/// event, tells both.
pub proof fn law_completion_tells_first_id_and_last_usage(chunks: Seq<ChunkView>)
    ensures
        ({
            let first_id = transcript::first_present(
                chunks.map_values(|chunk: ChunkView| chunk.id),
            );
            &&& transcript::stream_after(chunks).response_id == first_id
            &&& transcript::stream_after(chunks).usage == transcript::last_usage(chunks)
            &&& transcript::completed_stream(chunks).last() == (EventView::Completed {
                response_id: pending::text_or(first_id, "chatcmpl_unknown"@),
                token_usage: transcript::last_usage(chunks),
            })
        }),
    decreases chunks.len(),
{
    let ids = |chunk: ChunkView| chunk.id;
    lemma_closing_events(transcript::stream_after(chunks));
    if chunks.len() == 0 {
        assert(chunks.map_values(ids) =~= Seq::empty());
    } else {
        law_completion_tells_first_id_and_last_usage(chunks.drop_last());
        assert(chunks.map_values(ids).drop_last() =~= chunks.drop_last().map_values(ids));
        assert(chunks.map_values(ids).last() == chunks.last().id);
    }
}

/// Law: a chunk without a choice causes no event and touches neither the
/// message nor the tool calls.
pub proof fn law_chunk_without_choice(stream: StreamView, chunk: ChunkView)
    requires
        chunk.choice() is None,
    ensures
        stream.events(chunk) == Seq::<EventView>::empty(),
        stream.after(chunk).message_id == stream.message_id,
        stream.after(chunk).text == stream.text,
        stream.after(chunk).pending == stream.pending,
{
    assert(stream.events(chunk) =~= Seq::empty());
}

/// Law: of a chunk only the identifier, the usage and, of its first choice, the
/// text, the fragments and the end of the tool calls count.
pub proof fn law_only_the_first_choice_counts(
    stream: StreamView,
    chunk: ChunkView,
    other: ChunkView,
)
    requires
        chunk.id == other.id,
        chunk.usage == other.usage,
        chunk.content() == other.content(),
        chunk.tool_calls() == other.tool_calls(),
        chunk.ends_tool_calls() == other.ends_tool_calls(),
    ensures
        stream.after(chunk) == stream.after(other),
        stream.events(chunk) == stream.events(other),
{
}

/// Law: a total that is not given is the sum of prompt and completion.
pub proof fn law_total_is_the_sum(usage: ChatCompletionsUsage)
    requires
        usage.total_tokens is None,
        usage.total_in_range(),
    ensures
        stream::token_usage(usage).total_tokens == stream::token_usage(usage).input_tokens
            + stream::token_usage(usage).output_tokens,
{
}

/// The names of the fields that a request sets are names, in lower case.
proof fn lemma_own_header_names()
    ensures
        headers::is_header_name("x-client-request-id"@),
        headers::canonical_name("x-client-request-id"@) == "x-client-request-id"@,
        headers::is_header_name("x-openai-subagent"@),
        headers::canonical_name("x-openai-subagent"@) == "x-openai-subagent"@,
{
    reveal_strlit("x-client-request-id");
    reveal_strlit("x-openai-subagent");
    assert(headers::canonical_name("x-client-request-id"@) =~= "x-client-request-id"@);
    assert(headers::canonical_name("x-openai-subagent"@) =~= "x-openai-subagent"@);
}

/// Whether `text` is given and may be a header value.
pub open spec fn gives_header_value(text: Option<Seq<char>>) -> bool {
    text is Some && headers::is_header_value(vstd::utf8::encode_utf8(text->0))
}

/// Law: header fields that the request does not set itself stay as the caller
/// gave them.
pub proof fn law_other_headers_stay(
    extra: HeaderFields,
    conversation_id: Option<Seq<char>>,
    conversation: HeaderFields,
    subagent: Option<Seq<char>>,
    name: Seq<char>,
)
    requires
        gives_header_value(conversation_id) ==> name != "x-client-request-id"@,
        gives_header_value(subagent) ==> name != "x-openai-subagent"@,
        !conversation.contains_key(name),
    ensures
        ({
            let fields = request::request_fields(extra, conversation_id, conversation, subagent);
            &&& fields.contains_key(name) <==> extra.contains_key(name)
            &&& extra.contains_key(name) ==> fields[name] == extra[name]
        }),
{
    lemma_own_header_names();
}

/// Law: the fields of the conversation reach the request, whatever the caller
/// gave under their names; only the subagent's label takes the place of one.
pub proof fn law_conversation_headers_win(
    extra: HeaderFields,
    conversation_id: Option<Seq<char>>,
    conversation: HeaderFields,
    subagent: Option<Seq<char>>,
    name: Seq<char>,
)
    requires
        conversation.contains_key(name),
        gives_header_value(subagent) ==> name != "x-openai-subagent"@,
    ensures
        ({
            let fields = request::request_fields(extra, conversation_id, conversation, subagent);
            fields.contains_key(name) && fields[name] == conversation[name]
        }),
{
    lemma_own_header_names();
}

/// Law: a request names its conversation, unless the fields of the
/// conversation do so themselves; what the caller gave under that name is gone.
pub proof fn law_request_names_its_conversation(
    extra: HeaderFields,
    conversation_id: Seq<char>,
    conversation: HeaderFields,
    subagent: Option<Seq<char>>,
)
    requires
        headers::is_header_value(vstd::utf8::encode_utf8(conversation_id)),
        !conversation.contains_key("x-client-request-id"@),
    ensures
        ({
            let fields = request::request_fields(
                extra,
                Some(conversation_id),
                conversation,
                subagent,
            );
            &&& fields.contains_key("x-client-request-id"@)
            &&& fields["x-client-request-id"@] == seq![vstd::utf8::encode_utf8(conversation_id)]
        }),
{
    lemma_own_header_names();
    reveal_strlit("x-client-request-id");
    reveal_strlit("x-openai-subagent");
    assert("x-client-request-id"@.len() != "x-openai-subagent"@.len());
}

/// Law: a request names the subagent that makes it; what else was given under
/// that name is gone.
pub proof fn law_request_names_its_subagent(
    extra: HeaderFields,
    conversation_id: Option<Seq<char>>,
    conversation: HeaderFields,
    subagent: Seq<char>,
)
    requires
        headers::is_header_value(vstd::utf8::encode_utf8(subagent)),
    ensures
        ({
            let fields = request::request_fields(
                extra,
                conversation_id,
                conversation,
                Some(subagent),
            );
            &&& fields.contains_key("x-openai-subagent"@)
            &&& fields["x-openai-subagent"@] == seq![vstd::utf8::encode_utf8(subagent)]
        }),
{
    lemma_own_header_names();
}

/// Law: a header field that was set to visible ASCII, spaces or tabs reads back
/// as it was set.
pub proof fn law_header_reads_back(fields: HeaderFields, name: Seq<char>, value: Seq<char>)
    requires
        headers::is_header_name(name),
        forall|i: int|
            0 <= i < value.len() ==> ' ' <= #[trigger] value[i] <= '~' || value[i] == '\t',
    ensures
        headers::readable_header(headers::with_header(fields, name, value), name) == Some(value),
{
    let bytes = vstd::utf8::encode_utf8(value);
    assert(vstd::utf8::is_ascii_chars(value));
    vstd::utf8::is_ascii_chars_encode_utf8(value);
    assert(headers::is_visible_ascii(bytes));
    assert(headers::ascii_text(bytes) =~= value);
}

/// Law: the first state of the turn wins. Once one was taken the cell is
/// settled on it, and an offer of another one is given back.
pub proof fn law_first_turn_state_wins(
    cell: Arc<OnceLock<String>>,
    first: Option<Seq<char>>,
    first_outcome: Option<Result<(), String>>,
    later: Option<Seq<char>>,
    later_outcome: Option<Result<(), String>>,
)
    requires
        request::is_offer_outcome(Some(cell), first, first_outcome),
        request::is_offer_outcome(Some(cell), later, later_outcome),
        first_outcome == Some(Ok::<(), String>(())),
    ensures
        first is Some,
        request::settled_text(*cell) == first,
        later is Some && later != first ==> (later_outcome matches Some(Err(back)) && Some(back@)
            == later),
{
}

/// Law: where a state is offered the cell ends up with one: the state that was
/// offered, or the one that the cell was settled on before.
pub proof fn law_offered_cell_is_settled(
    cell: Arc<OnceLock<String>>,
    announced: Option<Seq<char>>,
    outcome: Option<Result<(), String>>,
)
    requires
        request::is_offer_outcome(Some(cell), announced, outcome),
        announced is Some,
    ensures
        request::settled_text(*cell) is Some,
        request::settled_text(*cell) != announced ==> (outcome matches Some(Err(back)) && Some(
            back@,
        ) == announced),
{
}

} // verus!
