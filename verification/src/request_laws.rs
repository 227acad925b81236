//! Laws of header fields and requests, stated on single fields.
use std::sync::{Arc, OnceLock};
use vstd::prelude::*;

use crate::headers::{self, HeaderFields, TooManyHeaders};
use crate::laws;
use crate::request::{self, ChatCompletionsOptions, Compression, RequestCompression, StreamRequest};

verus! {

/// Law: a header name is a text of 1 to 65535 letters, digits and the
/// characters that HTTP allows besides.
pub proof fn law_header_names_are_tokens(name: Seq<char>)
    ensures
        headers::is_header_name(name) <==> 1 <= name.len() <= 65535 && forall|i: int|
            0 <= i < name.len() ==> {
                let c = #[trigger] name[i];
                ||| 'a' <= c <= 'z'
                ||| 'A' <= c <= 'Z'
                ||| '0' <= c <= '9'
                ||| "!#$%&'*+-.^_`|~"@.contains(c)
            },
{
    reveal_strlit("!#$%&'*+-.^_`|~");
    let others = "!#$%&'*+-.^_`|~"@;
    assert forall|c: char| #[trigger] others.contains(c) <==> c == '!' || c == '#' || c == '$' || c
        == '%' || c == '&' || c == '\'' || c == '*' || c == '+' || c == '-' || c == '.' || c == '^'
        || c == '_' || c == '`' || c == '|' || c == '~' by {
        assert(others[0] == '!' && others[1] == '#' && others[2] == '$' && others[3] == '%');
        assert(others[4] == '&' && others[5] == '\'' && others[6] == '*' && others[7] == '+');
        assert(others[8] == '-' && others[9] == '.' && others[10] == '^' && others[11] == '_');
        assert(others[12] == '`' && others[13] == '|' && others[14] == '~');
    }
    if headers::is_header_name(name) {
        assert forall|i: int| 0 <= i < name.len() implies {
            let c = #[trigger] name[i];
            ||| 'a' <= c <= 'z'
            ||| 'A' <= c <= 'Z'
            ||| '0' <= c <= '9'
            ||| others.contains(c)
        } by {
            assert(headers::is_token_char(name[i]));
        }
    }
}

/// Law: a header map keeps a name in lower case: letters change their case,
/// and nothing else does.
pub proof fn law_names_are_kept_in_lower_case(name: Seq<char>)
    ensures
        headers::canonical_name(name).len() == name.len(),
        forall|i: int|
            0 <= i < name.len() ==> {
                let kept = #[trigger] headers::canonical_name(name)[i];
                if 'A' <= name[i] <= 'Z' {
                    kept as u32 == name[i] as u32 + 32
                } else {
                    kept == name[i]
                }
            },
{
}

/// Law: names that differ only in case are the same name.
pub proof fn law_case_of_names_does_not_count(
    fields: HeaderFields,
    one: Seq<char>,
    two: Seq<char>,
    value: Seq<char>,
)
    requires
        one.len() == two.len(),
        headers::is_header_name(one),
        headers::is_header_name(two),
        forall|i: int|
            0 <= i < one.len() ==> #[trigger] one[i] == two[i] || ('a' <= one[i] <= 'z' && one[i]
                as u32 == two[i] as u32 + 32) || ('a' <= two[i] <= 'z' && two[i] as u32 == one[i]
                as u32 + 32),
    ensures
        headers::readable_header(fields, one) == headers::readable_header(fields, two),
        headers::with_header(fields, one, value) == headers::with_header(fields, two, value),
{
    assert forall|i: int| 0 <= i < one.len() implies #[trigger] headers::canonical_name(one)[i]
        == headers::canonical_name(two)[i] by {
        assert(one[i] == one[i]);
    }
    assert(headers::canonical_name(one) =~= headers::canonical_name(two));
}

/// Law: a header value has no control bytes but the tab.
pub proof fn law_header_values_have_no_control_bytes(bytes: Seq<u8>)
    ensures
        headers::is_header_value(bytes) <==> forall|i: int|
            0 <= i < bytes.len() ==> #[trigger] bytes[i] == 9 || (bytes[i] >= 32 && bytes[i]
                != 127),
{
}

/// Law: the first value of a field is read as text where it is visible ASCII,
/// spaces or tabs: each byte is one character.
pub proof fn law_first_value_is_read(fields: HeaderFields, name: Seq<char>)
    requires
        headers::is_header_name(name),
        fields.contains_key(headers::canonical_name(name)),
    ensures
        ({
            let bytes = fields[headers::canonical_name(name)][0];
            let read = headers::readable_header(fields, name);
            &&& read is Some <==> forall|i: int|
                0 <= i < bytes.len() ==> #[trigger] bytes[i] == 9 || 32 <= bytes[i] <= 126
            &&& read is Some ==> read->0.len() == bytes.len() && forall|i: int|
                0 <= i < bytes.len() ==> #[trigger] read->0[i] == bytes[i] as char
        }),
{
    let bytes = fields[headers::canonical_name(name)][0];
    assert(bytes == fields[headers::canonical_name(name)].first());
}

/// Law: a field that is not there, or whose name is none, is not read.
pub proof fn law_missing_field_is_not_read(fields: HeaderFields, name: Seq<char>)
    requires
        !headers::is_header_name(name) || !fields.contains_key(headers::canonical_name(name)),
    ensures
        headers::readable_header(fields, name) is None,
{
}

/// Law: a field that is set has the value as its only one, in UTF-8, and every
/// other field stays.
pub proof fn law_set_field_has_one_value(fields: HeaderFields, name: Seq<char>, value: Seq<char>)
    requires
        headers::is_header_name(name),
        headers::is_header_value(vstd::utf8::encode_utf8(value)),
    ensures
        ({
            let after = headers::with_header(fields, name, value);
            let key = headers::canonical_name(name);
            &&& after.contains_key(key)
            &&& after[key] == seq![vstd::utf8::encode_utf8(value)]
            &&& forall|other: Seq<char>|
                #![trigger after.contains_key(other)]
                other != key ==> (after.contains_key(other) <==> fields.contains_key(other))
            &&& forall|other: Seq<char>|
                #![trigger after[other]]
                other != key && fields.contains_key(other) ==> after[other] == fields[other]
        }),
{
}

/// Law: a name or a value that is not valid changes nothing.
pub proof fn law_invalid_field_is_not_set(fields: HeaderFields, name: Seq<char>, value: Seq<char>)
    requires
        !headers::is_header_name(name) || !headers::is_header_value(
            vstd::utf8::encode_utf8(value),
        ),
    ensures
        headers::with_header(fields, name, value) == fields,
{
}

/// The name of the field with the state of the turn is a name, in lower case.
proof fn lemma_turn_state_name()
    ensures
        headers::is_header_name("x-codex-turn-state"@),
        headers::canonical_name("x-codex-turn-state"@) == "x-codex-turn-state"@,
{
    reveal_strlit("x-codex-turn-state");
    assert(headers::canonical_name("x-codex-turn-state"@) =~= "x-codex-turn-state"@);
}

/// Whether `state` is what the field `x-codex-turn-state` of a reply says: its
/// first value as text, where the field is there and that value is visible
/// ASCII, spaces or tabs.
pub open spec fn says_state(fields: HeaderFields, state: Option<Seq<char>>) -> bool {
    let bytes = fields["x-codex-turn-state"@][0];
    if fields.contains_key("x-codex-turn-state"@) && forall|i: int|
        0 <= i < bytes.len() ==> #[trigger] bytes[i] == 9 || 32 <= bytes[i] <= 126 {
        state is Some && state->0.len() == bytes.len() && forall|i: int|
            0 <= i < bytes.len() ==> #[trigger] state->0[i] == bytes[i] as char
    } else {
        state is None
    }
}

/// Law: the state of the turn is the first value of the field
/// `x-codex-turn-state` as text, and there is none without that field.
pub proof fn law_turn_state_is_in_its_field(fields: HeaderFields)
    ensures
        says_state(fields, request::announced_turn_state(fields)),
{
    lemma_turn_state_name();
    if fields.contains_key("x-codex-turn-state"@) {
        law_first_value_is_read(fields, "x-codex-turn-state"@);
    } else {
        law_missing_field_is_not_read(fields, "x-codex-turn-state"@);
    }
}

/// Law: the state of the turn depends on no other field: two replies that agree
/// in the field `x-codex-turn-state` announce the same.
pub proof fn law_turn_state_depends_on_no_other_field(one: HeaderFields, two: HeaderFields)
    requires
        one.contains_key("x-codex-turn-state"@) <==> two.contains_key("x-codex-turn-state"@),
        one.contains_key("x-codex-turn-state"@) ==> one["x-codex-turn-state"@]
            == two["x-codex-turn-state"@],
    ensures
        request::announced_turn_state(one) == request::announced_turn_state(two),
{
    lemma_turn_state_name();
}

/// Law: the state that is read is the one that the reply's own field says.
pub proof fn law_read_state_is_in_its_field(reply: http::HeaderMap, state: Option<String>)
    requires
        call_ensures(request::read_turn_state, (&reply,), state),
    ensures
        says_state(headers::header_fields(reply), state.deep_view()),
{
    law_turn_state_is_in_its_field(headers::header_fields(reply));
}

/// Law: the state that the reply's own field says is offered to the cell, and
/// the cell's answer is the outcome: a state that is taken is the one in the
/// field, one that is not taken comes back.
pub proof fn law_state_in_its_field_is_offered(
    cell: Arc<OnceLock<String>>,
    reply: http::HeaderMap,
    state: Seq<char>,
    outcome: Option<Result<(), String>>,
)
    requires
        call_ensures(request::offer_turn_state, (&Some(cell), &reply), outcome),
        says_state(headers::header_fields(reply), Some(state)),
    ensures
        outcome is Some,
        request::came_of_offering(cell, state, outcome->0),
        request::settled_text(*cell) is Some,
        outcome->0 is Ok ==> request::settled_text(*cell) == Some(state),
        outcome->0 matches Err(back) ==> back@ == state,
{
    let fields = headers::header_fields(reply);
    law_turn_state_is_in_its_field(fields);
    lemma_said_state_is_unique(fields, state, request::announced_turn_state(fields));
}

/// Law: without a cell, or without a state in the field, nothing is offered.
pub proof fn law_nothing_to_offer(
    turn_state: Option<Arc<OnceLock<String>>>,
    reply: http::HeaderMap,
    outcome: Option<Result<(), String>>,
)
    requires
        call_ensures(request::offer_turn_state, (&turn_state, &reply), outcome),
        turn_state is None || says_state(headers::header_fields(reply), None),
    ensures
        outcome is None,
{
    law_turn_state_is_in_its_field(headers::header_fields(reply));
}

/// A field says one state at most.
proof fn lemma_said_state_is_unique(
    fields: HeaderFields,
    state: Seq<char>,
    other: Option<Seq<char>>,
)
    requires
        says_state(fields, Some(state)),
        says_state(fields, other),
    ensures
        other == Some(state),
{
    let bytes = fields["x-codex-turn-state"@][0];
    assert(other is Some);
    assert forall|i: int| 0 <= i < state.len() implies state[i] == other->0[i] by {
        assert(Some(state)->0[i] == bytes[i] as char);
        assert(other->0[i] == bytes[i] as char);
    }
    assert(state =~= other->0);
}

/// Law: reading a field of a header map looks at that field only, and at its
/// first value.
pub proof fn law_read_header_reads_its_field(
    map: http::HeaderMap,
    name: &str,
    text: Option<String>,
)
    requires
        call_ensures(headers::read_header, (&map, name), text),
    ensures
        ({
            let fields = headers::header_fields(map);
            let key = headers::canonical_name(name@);
            let bytes = fields[key][0];
            &&& text is Some <==> headers::is_header_name(name@) && fields.contains_key(key)
                && forall|i: int|
                0 <= i < bytes.len() ==> #[trigger] bytes[i] == 9 || 32 <= bytes[i] <= 126
            &&& text is Some ==> text->0@.len() == bytes.len() && forall|i: int|
                0 <= i < bytes.len() ==> #[trigger] text->0@[i] == bytes[i] as char
        }),
{
    let fields = headers::header_fields(map);
    let key = headers::canonical_name(name@);
    if headers::is_header_name(name@) && fields.contains_key(key) {
        law_first_value_is_read(fields, name@);
    } else {
        law_missing_field_is_not_read(fields, name@);
    }
    assert(text.deep_view() == headers::readable_header(fields, name@));
}

/// Whether every byte of `text` in UTF-8 may stand in a header value.
pub open spec fn may_be_value(text: Seq<char>) -> bool {
    forall|i: int|
        0 <= i < vstd::utf8::encode_utf8(text).len() ==> #[trigger] vstd::utf8::encode_utf8(
            text,
        )[i] == 9 || (vstd::utf8::encode_utf8(text)[i] >= 32 && vstd::utf8::encode_utf8(text)[i]
            != 127)
}

/// Whether `fields` has the field `name` just as `others` has it.
pub open spec fn agree_in(fields: HeaderFields, others: HeaderFields, name: Seq<char>) -> bool {
    &&& fields.contains_key(name) <==> others.contains_key(name)
    &&& fields.contains_key(name) ==> fields[name] == others[name]
}

/// Law: where each field of a request comes from. The subagent's label comes
/// before the fields of the conversation, these before the identifier of the
/// conversation, and that before what the caller gave.
pub proof fn law_request_fields_come_from(
    extra: HeaderFields,
    conversation_id: Option<Seq<char>>,
    conversation: HeaderFields,
    subagent: Option<Seq<char>>,
    name: Seq<char>,
)
    ensures
        ({
            let fields = request::request_fields(extra, conversation_id, conversation, subagent);
            if name == "x-openai-subagent"@ && subagent is Some && may_be_value(subagent->0) {
                fields.contains_key(name) && fields[name] == seq![
                    vstd::utf8::encode_utf8(subagent->0),
                ]
            } else if conversation.contains_key(name) {
                fields.contains_key(name) && fields[name] == conversation[name]
            } else if name == "x-client-request-id"@ && conversation_id is Some && may_be_value(
                conversation_id->0,
            ) {
                fields.contains_key(name) && fields[name] == seq![
                    vstd::utf8::encode_utf8(conversation_id->0),
                ]
            } else {
                agree_in(fields, extra, name)
            }
        }),
{
    if let Some(id) = conversation_id {
        law_header_values_have_no_control_bytes(vstd::utf8::encode_utf8(id));
        assert(may_be_value(id) <==> headers::is_header_value(vstd::utf8::encode_utf8(id)));
    }
    if let Some(label) = subagent {
        law_header_values_have_no_control_bytes(vstd::utf8::encode_utf8(label));
        assert(may_be_value(label) <==> headers::is_header_value(vstd::utf8::encode_utf8(label)));
    }
    if name == "x-openai-subagent"@ && subagent is Some && may_be_value(subagent->0) {
        laws::law_request_names_its_subagent(
            extra,
            conversation_id,
            conversation,
            subagent->0,
        );
    } else if conversation.contains_key(name) {
        laws::law_conversation_headers_win(extra, conversation_id, conversation, subagent, name);
    } else if name == "x-client-request-id"@ && conversation_id is Some && may_be_value(
        conversation_id->0,
    ) {
        laws::law_request_names_its_conversation(
            extra,
            conversation_id->0,
            conversation,
            subagent,
        );
    } else {
        laws::law_other_headers_stay(extra, conversation_id, conversation, subagent, name);
    }
}

/// Law: a request is a post to the endpoint with the fields put together, and
/// with the compression and the cell that the caller chose.
pub proof fn law_request_is_a_post_to_the_endpoint(
    options: ChatCompletionsOptions,
    conversation: http::HeaderMap,
    request: StreamRequest,
)
    requires
        call_ensures(
            request::stream_request,
            (options, conversation),
            Ok::<StreamRequest, TooManyHeaders>(request),
        ),
    ensures
        request::method_name(request.method) == "POST"@,
        request.path@ == "chat/completions"@,
        headers::header_fields(request.headers) == request::request_fields(
            headers::header_fields(options.extra_headers),
            options.conversation_id.deep_view(),
            headers::header_fields(conversation),
            options.subagent.deep_view(),
        ),
        request.compression == options.compression,
        request.turn_state == options.turn_state,
{
}

/// Law: fewer than 6553 fields always make a request, and so does any number
/// of them where nothing is added.
pub proof fn law_few_fields_make_a_request(
    options: ChatCompletionsOptions,
    conversation: http::HeaderMap,
    outcome: Result<StreamRequest, TooManyHeaders>,
)
    requires
        call_ensures(request::stream_request, (options, conversation), outcome),
        ({
            let own = headers::header_fields(options.extra_headers).dom();
            let added = headers::header_fields(conversation).dom();
            ||| own.finite() && added.finite() && own.len() + added.len() < 6553
            ||| options.conversation_id is None && options.subagent is None && added == Set::<
                Seq<char>,
            >::empty()
        }),
    ensures
        outcome is Ok,
{
    let fields = headers::header_fields(conversation);
    if fields.dom() == Set::<Seq<char>>::empty() {
        assert(fields =~= HeaderFields::empty());
    }
}

/// Law: the fields of a request are put together whether or not the rest of
/// it is.
pub proof fn law_request_headers_are_put_together(
    extra: http::HeaderMap,
    conversation_id: Option<String>,
    conversation: http::HeaderMap,
    subagent: Option<String>,
    map: http::HeaderMap,
)
    requires
        call_ensures(
            request::request_headers,
            (extra, &conversation_id, conversation, &subagent),
            Ok::<http::HeaderMap, TooManyHeaders>(map),
        ),
    ensures
        headers::header_fields(map) == request::request_fields(
            headers::header_fields(extra),
            conversation_id.deep_view(),
            headers::header_fields(conversation),
            subagent.deep_view(),
        ),
{
}

/// Law: the path is that of the endpoint.
pub proof fn law_path_is_that_of_the_endpoint(path: &'static str)
    requires
        call_ensures(request::path, (), path),
    ensures
        path@ == "chat/completions"@,
{
}

/// Law: compression is asked for where it is wanted, and never taken back.
pub proof fn law_compression_is_asked_for(compression: Compression)
    ensures
        forall|request: &mut RequestCompression| #[trigger]
            call_ensures(request::configure_compression, (compression, request), ()) ==> {
                &&& compression is Zstd ==> *final(request) is Zstd
                &&& compression is Uncompressed ==> *final(request) == *request
            },
{
}

/// Law: what setting a field does to a header map. A map that has no room for
/// it keeps its fields.
pub proof fn law_insert_header_sets_its_field(name: &str, value: &str)
    ensures
        forall|map: &mut http::HeaderMap, outcome: Result<(), TooManyHeaders>| #[trigger]
            call_ensures(headers::insert_header, (map, name, value), outcome) ==> {
                let fields = headers::header_fields(*map);
                let after = headers::header_fields(*final(map));
                let key = headers::canonical_name(name@);
                &&& outcome is Err || !headers::is_header_name(name@) || !may_be_value(value@)
                    ==> after == fields
                &&& outcome is Ok && headers::is_header_name(name@) && may_be_value(value@)
                    ==> after == fields.insert(key, seq![vstd::utf8::encode_utf8(value@)])
                &&& !headers::is_header_name(name@) || !may_be_value(value@) ==> outcome is Ok
                &&& fields.dom().len() <= 6553 ==> outcome is Ok
            },
{
    assert(may_be_value(value@) <==> headers::is_header_value(vstd::utf8::encode_utf8(value@)))
        by {
        law_header_values_have_no_control_bytes(vstd::utf8::encode_utf8(value@));
    }
}

/// Law: the number of names is that of the different names in the map.
pub proof fn law_header_count_counts_names(map: http::HeaderMap, count: usize)
    requires
        call_ensures(headers::header_count, (&map,), count),
    ensures
        headers::header_fields(map).dom().finite(),
        headers::header_fields(map).dom().len() == count,
{
}

/// Law: joined fields are those of both maps, where the second one wins.
pub proof fn law_join_headers_prefers_the_second(more: http::HeaderMap, name: Seq<char>)
    ensures
        forall|map: &mut http::HeaderMap| #[trigger]
            call_ensures(
                headers::join_headers,
                (map, more),
                Ok::<(), TooManyHeaders>(()),
            ) ==> agree_in(
                headers::header_fields(*final(map)),
                if headers::header_fields(more).contains_key(name) {
                    headers::header_fields(more)
                } else {
                    headers::header_fields(*map)
                },
                name,
            ),
{
}

/// Law: options that nobody chose ask for nothing.
pub proof fn law_default_options_ask_for_nothing(
    options: ChatCompletionsOptions,
    compression: Compression,
)
    requires
        call_ensures(<ChatCompletionsOptions as Default>::default, (), options),
        call_ensures(<Compression as Default>::default, (), compression),
    ensures
        options.conversation_id is None,
        options.subagent is None,
        options.turn_state is None,
        options.compression is Uncompressed,
        headers::header_fields(options.extra_headers).dom() == Set::<Seq<char>>::empty(),
        compression is Uncompressed,
{
}

} // verus!
