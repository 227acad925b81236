//! Tool calls that are still being put together from fragments.
use std::collections::BTreeMap;
use vstd::prelude::*;

use crate::chunk::{ChatCompletionsToolCallDelta, ToolCallDeltaView};
use crate::event::{EventView, ItemView, ResponseEvent, ResponseItem};

verus! {

/// A tool call of which some fragments have arrived.
#[derive(Debug)]
pub struct PendingToolCall {
    pub id: Option<String>,
    pub name: Option<String>,
    pub arguments: String,
}

/// Model of a [`PendingToolCall`].
pub struct PendingView {
    pub id: Option<Seq<char>>,
    pub name: Option<Seq<char>>,
    pub arguments: Seq<char>,
}

impl DeepView for PendingToolCall {
    type V = PendingView;

    open spec fn deep_view(&self) -> PendingView {
        PendingView {
            id: self.id.deep_view(),
            name: self.name.deep_view(),
            arguments: self.arguments@,
        }
    }
}

impl Default for PendingToolCall {
    fn default() -> (call: Self)
        ensures
            call.deep_view() == PendingView::blank(),
    {
        PendingToolCall { id: None, name: None, arguments: String::new() }
    }
}

/// `first`, or `second` where `first` is missing.
pub open spec fn first_of<T>(first: Option<T>, second: Option<T>) -> Option<T> {
    match first {
        Some(_) => first,
        None => second,
    }
}

/// `text`, or `default` where it is missing.
pub open spec fn text_or(text: Option<Seq<char>>, default: Seq<char>) -> Seq<char> {
    match text {
        Some(text) => text,
        None => default,
    }
}

impl PendingView {
    /// A tool call of which nothing is known.
    pub open spec fn blank() -> PendingView {
        PendingView { id: None, name: None, arguments: Seq::empty() }
    }

    /// The tool call once `fragment` has been added: the first identifier and
    /// the first name stay, the arguments grow.
    pub open spec fn plus(self, fragment: ToolCallDeltaView) -> PendingView {
        PendingView {
            id: first_of(self.id, fragment.id),
            name: first_of(self.name, fragment.name()),
            arguments: self.arguments + fragment.arguments(),
        }
    }

    /// The event that reports the tool call as complete.
    pub open spec fn event(self) -> EventView {
        EventView::OutputItemDone(
            ItemView::FunctionCall {
                id: None,
                name: text_or(self.name, "unknown"@),
                namespace: None,
                arguments: self.arguments,
                call_id: text_or(self.id, "call_unknown"@),
            },
        )
    }
}

/// Model of the pending tool calls, by index.
pub open spec fn pending_view(pending: Map<usize, PendingToolCall>) -> Map<usize, PendingView> {
    pending.map_values(|call: PendingToolCall| call.deep_view())
}

/// The call at `index`, or a blank one where there is none.
pub open spec fn call_at(pending: Map<usize, PendingView>, index: usize) -> PendingView {
    if pending.contains_key(index) {
        pending[index]
    } else {
        PendingView::blank()
    }
}

/// The pending calls once `fragment` has been added to the call it belongs to.
pub open spec fn with_fragment(
    pending: Map<usize, PendingView>,
    fragment: ToolCallDeltaView,
) -> Map<usize, PendingView> {
    let index = fragment.target();
    pending.insert(index, call_at(pending, index).plus(fragment))
}

/// The pending calls once all of `fragments` have been added, in order.
pub open spec fn with_fragments(
    pending: Map<usize, PendingView>,
    fragments: Seq<ToolCallDeltaView>,
) -> Map<usize, PendingView>
    decreases fragments.len(),
{
    if fragments.len() == 0 {
        pending
    } else {
        with_fragment(with_fragments(pending, fragments.drop_last()), fragments.last())
    }
}

/// The events for the pending calls with an index below `bound`, by ascending
/// index.
pub open spec fn tool_call_events_below(
    pending: Map<usize, PendingView>,
    bound: nat,
) -> Seq<EventView>
    decreases bound,
{
    if bound == 0 {
        Seq::empty()
    } else {
        let index = (bound - 1) as usize;
        let before = tool_call_events_below(pending, (bound - 1) as nat);
        if pending.contains_key(index) {
            before.push(pending[index].event())
        } else {
            before
        }
    }
}

/// The events for all pending calls, by ascending index.
pub open spec fn tool_call_events(pending: Map<usize, PendingView>) -> Seq<EventView> {
    tool_call_events_below(pending, usize::MAX as nat + 1)
}

/// Indices that hold no call add no event.
proof fn lemma_gap_adds_nothing(pending: Map<usize, PendingView>, low: nat, high: nat)
    requires
        low <= high <= usize::MAX + 1,
        forall|index: usize| low <= index < high ==> !pending.contains_key(index),
    ensures
        tool_call_events_below(pending, low) == tool_call_events_below(pending, high),
    decreases high,
{
    if low < high {
        lemma_gap_adds_nothing(pending, low, (high - 1) as nat);
        assert(!pending.contains_key((high - 1) as usize));
    }
}

/// Adds `fragment` to the pending call it belongs to.
pub fn add_fragment(
    pending: &mut BTreeMap<usize, PendingToolCall>,
    fragment: &ChatCompletionsToolCallDelta,
)
    ensures
        pending_view(final(pending)@) == with_fragment(
            pending_view(old(pending)@),
            fragment.deep_view(),
        ),
{
    let index: usize = fragment.index.unwrap_or(0);
    let mut call = match pending.remove(&index) {
        Some(call) => call,
        None => PendingToolCall::default(),
    };
    if call.id.is_none() {
        call.id = fragment.id.clone();
    }
    if let Some(function) = &fragment.function {
        if call.name.is_none() {
            call.name = function.name.clone();
        }
        if let Some(arguments) = &function.arguments {
            call.arguments.append(arguments.as_str());
        }
    }
    pending.insert(index, call);
    assert(pending_view(pending@) =~= with_fragment(
        pending_view(old(pending)@),
        fragment.deep_view(),
    ));
}

/// Adds `fragments` to the pending calls they belong to, in order.
pub fn add_fragments(
    pending: &mut BTreeMap<usize, PendingToolCall>,
    fragments: &Vec<ChatCompletionsToolCallDelta>,
)
    ensures
        pending_view(final(pending)@) == with_fragments(
            pending_view(old(pending)@),
            fragments.deep_view(),
        ),
{
    let ghost all = fragments.deep_view();
    let mut next: usize = 0;
    assert(all.take(0) =~= Seq::empty());
    while next < fragments.len()
        invariant
            next <= fragments.len(),
            all == fragments.deep_view(),
            pending_view(pending@) == with_fragments(
                pending_view(old(pending)@),
                all.take(next as int),
            ),
        decreases fragments.len() - next,
    {
        add_fragment(pending, &fragments[next]);
        assert(all.take(next + 1).drop_last() =~= all.take(next as int));
        next = next + 1;
    }
    assert(all.take(next as int) =~= all);
}

/// The event that reports `call` as complete.
fn tool_call_done(call: &PendingToolCall) -> (event: ResponseEvent)
    ensures
        event.deep_view() == call.deep_view().event(),
{
    let call_id = match &call.id {
        Some(id) => id.clone(),
        None => "call_unknown".to_owned(),
    };
    let name = match &call.name {
        Some(name) => name.clone(),
        None => "unknown".to_owned(),
    };
    ResponseEvent::OutputItemDone(
        ResponseItem::FunctionCall {
            id: None,
            name,
            namespace: None,
            arguments: call.arguments.clone(),
            call_id,
        },
    )
}

/// Keys that increase in the order of their type increase as numbers.
proof fn lemma_keys_ascend(keys: Seq<usize>)
    requires
        vstd::std_specs::btree::increasing_seq(keys),
    ensures
        forall|i: int, j: int| 0 <= i < j < keys.len() ==> keys[i] < keys[j],
{
    assert forall|i: int, j: int| 0 <= i < j < keys.len() implies keys[i] < keys[j] by {
        assert(vstd::std_specs::cmp::OrdSpec::cmp_spec(&keys[i], &keys[j])
            == core::cmp::Ordering::Less);
    }
}

/// Whether the keys of `entries` are strictly ascending.
spec fn ascending(entries: Seq<(&usize, &PendingToolCall)>) -> bool {
    forall|i: int, j: int| 0 <= i < j < entries.len() ==> *entries[i].0 < *entries[j].0
}

/// The events that report all pending calls as complete, by ascending index.
pub fn emit_pending_tool_calls(pending: &BTreeMap<usize, PendingToolCall>) -> (events: Vec<
    ResponseEvent,
>)
    ensures
        events.deep_view() == tool_call_events(pending_view(pending@)),
{
    let mut events: Vec<ResponseEvent> = Vec::new();
    let ghost calls = pending_view(pending@);
    let ghost mut bound: nat = 0;
    assert(events.deep_view() =~= Seq::<EventView>::empty());
    let entries = pending.iter();
    proof {
        let listed = vstd::std_specs::iter::IteratorSpec::remaining(&entries);
        let keys = listed.map_values(|entry: (&usize, &PendingToolCall)| *entry.0);
        assert(vstd::std_specs::btree::increasing_seq(keys));
        lemma_keys_ascend(keys);
        assert forall|i: int, j: int| 0 <= i < j < listed.len() implies *listed[i].0
            < *listed[j].0 by {
            assert(keys[i] < keys[j]);
        }
    }
    for entry in it: entries
        invariant
            calls == pending_view(pending@),
            it.seq() == vstd::std_specs::iter::IteratorSpec::remaining(&pending.iter()),
            ascending(it.seq()),
            bound <= usize::MAX + 1,
            events.deep_view() == tool_call_events_below(calls, bound),
            it.index() == 0 ==> bound == 0,
            it.index() > 0 ==> bound == *it.seq()[it.index() - 1].0 + 1,
    {
        let ghost before = events.deep_view();
        let ghost index = *entry.0;
        proof {
            assert forall|other: usize| bound <= other < index implies !calls.contains_key(
                other,
            ) by {
                if calls.contains_key(other) {
                    assert(it.seq().contains((&other, &pending@[other])));
                }
            }
            lemma_gap_adds_nothing(calls, bound, index as nat);
        }
        events.push(tool_call_done(entry.1));
        proof {
            assert(events.deep_view() =~= before.push(calls[index].event()));
            bound = (index + 1) as nat;
        }
    }
    proof {
        assert(forall|other: usize| bound <= other ==> !calls.contains_key(other));
        lemma_gap_adds_nothing(calls, bound, usize::MAX as nat + 1);
    }
    events
}

} // verus!
