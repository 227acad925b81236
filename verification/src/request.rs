//! The request that starts a stream, and what its reply says of the turn.
use std::sync::{Arc, OnceLock};
use vstd::prelude::*;

use crate::headers::{self, HeaderFields, TooManyHeaders};

verus! {

/// The write-once cell of the standard library.
#[verifier::external_type_specification]
#[verifier::external_body]
#[verifier::reject_recursive_types(T)]
pub struct ExOnceLock<T>(std::sync::OnceLock<T>);

/// The request method of the `http` crate.
#[verifier::external_type_specification]
#[verifier::external_body]
pub struct ExMethod(http::Method);

/// The name of a request method.
pub uninterp spec fn method_name(method: http::Method) -> Seq<char>;

/// Whether the body of a request is compressed.
#[derive(Clone, Copy, Debug, PartialEq, Eq)]
pub enum Compression {
    Uncompressed,
    Zstd,
}

/// How a request is compressed on its way.
#[derive(Clone, Copy, Debug, PartialEq, Eq)]
pub enum RequestCompression {
    Uncompressed,
    Zstd,
}

/// What the caller can choose for a request.
pub struct ChatCompletionsOptions {
    pub conversation_id: Option<String>,
    /// The label of the subagent that makes the request, if one does.
    pub subagent: Option<String>,
    pub extra_headers: http::HeaderMap,
    pub compression: Compression,
    pub turn_state: Option<Arc<OnceLock<String>>>,
}

/// The parts of the request that do not depend on its body.
pub struct StreamRequest {
    pub method: http::Method,
    pub path: &'static str,
    pub headers: http::HeaderMap,
    pub compression: Compression,
    pub turn_state: Option<Arc<OnceLock<String>>>,
}

impl Default for Compression {
    fn default() -> (compression: Self)
        ensures
            compression == Compression::Uncompressed,
    {
        Compression::Uncompressed
    }
}

impl Default for ChatCompletionsOptions {
    fn default() -> (options: Self)
        ensures
            options.conversation_id is None,
            options.subagent is None,
            headers::header_fields(options.extra_headers) == HeaderFields::empty(),
            options.compression == Compression::Uncompressed,
            options.turn_state is None,
    {
        ChatCompletionsOptions {
            conversation_id: None,
            subagent: None,
            extra_headers: headers::new_header_map(),
            compression: Compression::Uncompressed,
            turn_state: None,
        }
    }
}

/// The header fields of the request: the caller's, the conversation's number,
/// the fields of the conversation and the subagent's label, where a later one
/// takes the place of an earlier one of the same name.
pub open spec fn request_fields(
    extra: HeaderFields,
    conversation_id: Option<Seq<char>>,
    conversation: HeaderFields,
    subagent: Option<Seq<char>>,
) -> HeaderFields {
    let numbered = match conversation_id {
        Some(id) => headers::with_header(extra, "x-client-request-id"@, id),
        None => extra,
    };
    let joined = numbered.union_prefer_right(conversation);
    match subagent {
        Some(label) => headers::with_header(joined, "x-openai-subagent"@, label),
        None => joined,
    }
}

/// Whether the fields are few enough for every header map that is built from
/// them, whatever the hashes of their names are.
pub open spec fn fields_fit(extra: HeaderFields, conversation: HeaderFields) -> bool {
    &&& extra.dom().finite()
    &&& conversation.dom().finite()
    &&& extra.dom().len() + conversation.dom().len() < headers::SAFE_HEADER_NAMES
}

/// Whether the caller's fields stay as they are.
pub open spec fn adds_nothing(
    conversation_id: Option<Seq<char>>,
    conversation: HeaderFields,
    subagent: Option<Seq<char>>,
) -> bool {
    &&& conversation_id matches Some(id) ==> !headers::is_header_value(
        vstd::utf8::encode_utf8(id),
    )
    &&& conversation == HeaderFields::empty()
    &&& subagent matches Some(label) ==> !headers::is_header_value(
        vstd::utf8::encode_utf8(label),
    )
}

/// `http::Method::POST`: the method with that name.
#[verifier::external_body]
fn post_method() -> (method: http::Method)
    ensures
        method_name(method) == "POST"@,
{
    http::Method::POST
}

/// One more field adds at most one name.
proof fn lemma_one_more_name(fields: HeaderFields, name: Seq<char>, value: Seq<char>)
    requires
        fields.dom().finite(),
    ensures
        headers::with_header(fields, name, value).dom().finite(),
        headers::with_header(fields, name, value).dom().len() <= fields.dom().len() + 1,
{
}

/// Fields that are joined have no more names than both together.
proof fn lemma_joined_names(fields: HeaderFields, more: HeaderFields)
    requires
        fields.dom().finite(),
        more.dom().finite(),
    ensures
        fields.union_prefer_right(more).dom().finite(),
        fields.union_prefer_right(more).dom().len() <= fields.dom().len() + more.dom().len(),
{
    assert(fields.union_prefer_right(more).dom() =~= fields.dom().union(more.dom()));
    vstd::set_lib::lemma_len_union(fields.dom(), more.dom());
}

/// The header fields of the request. There are none where a header map has
/// no room for them.
pub fn request_headers(
    extra: http::HeaderMap,
    conversation_id: &Option<String>,
    conversation: http::HeaderMap,
    subagent: &Option<String>,
) -> (outcome: Result<http::HeaderMap, TooManyHeaders>)
    ensures
        outcome matches Ok(map) ==> headers::header_fields(map) == request_fields(
            headers::header_fields(extra),
            conversation_id.deep_view(),
            headers::header_fields(conversation),
            subagent.deep_view(),
        ),
        outcome matches Err(error) ==> headers::is_refusal(error.refusal),
        fields_fit(headers::header_fields(extra), headers::header_fields(conversation))
            ==> outcome is Ok,
        adds_nothing(
            conversation_id.deep_view(),
            headers::header_fields(conversation),
            subagent.deep_view(),
        ) ==> outcome is Ok,
{
    let mut map = extra;
    if let Some(id) = conversation_id {
        proof {
            if headers::header_fields(map).dom().finite() {
                lemma_one_more_name(headers::header_fields(map), "x-client-request-id"@, id@);
            }
        }
        headers::insert_header(&mut map, "x-client-request-id", id.as_str())?;
    }
    proof {
        if fields_fit(headers::header_fields(extra), headers::header_fields(conversation)) {
            lemma_joined_names(headers::header_fields(map), headers::header_fields(conversation));
        }
    }
    headers::join_headers(&mut map, conversation)?;
    if let Some(label) = subagent {
        headers::insert_header(&mut map, "x-openai-subagent", label.as_str())?;
    }
    Ok(map)
}

/// The path of the endpoint, below the base address of the provider.
pub fn path() -> (path: &'static str)
    ensures
        path@ == "chat/completions"@,
{
    "chat/completions"
}

/// The request for `options`, where `conversation` holds the fields of the
/// conversation. There is none where a header map has no room for the fields:
/// beyond the bound that is up to how their names collide.
pub fn stream_request(options: ChatCompletionsOptions, conversation: http::HeaderMap) -> (outcome:
    Result<StreamRequest, TooManyHeaders>)
    ensures
        outcome matches Ok(request) ==> {
            &&& method_name(request.method) == "POST"@
            &&& request.path@ == "chat/completions"@
            &&& headers::header_fields(request.headers) == request_fields(
                headers::header_fields(options.extra_headers),
                options.conversation_id.deep_view(),
                headers::header_fields(conversation),
                options.subagent.deep_view(),
            )
            &&& request.compression == options.compression
            &&& request.turn_state == options.turn_state
        },
        outcome matches Err(error) ==> headers::is_refusal(error.refusal),
        fields_fit(
            headers::header_fields(options.extra_headers),
            headers::header_fields(conversation),
        ) ==> outcome is Ok,
        adds_nothing(
            options.conversation_id.deep_view(),
            headers::header_fields(conversation),
            options.subagent.deep_view(),
        ) ==> outcome is Ok,
{
    let map = request_headers(
        options.extra_headers,
        &options.conversation_id,
        conversation,
        &options.subagent,
    )?;
    Ok(
        StreamRequest {
            method: post_method(),
            path: path(),
            headers: map,
            compression: options.compression,
            turn_state: options.turn_state,
        },
    )
}

/// Asks for compression where `compression` wants it; else the request stays
/// as it is.
pub fn configure_compression(compression: Compression, request: &mut RequestCompression)
    ensures
        *final(request) == (match compression {
            Compression::Uncompressed => *old(request),
            Compression::Zstd => RequestCompression::Zstd,
        }),
{
    match compression {
        Compression::Uncompressed => {},
        Compression::Zstd => {
            *request = RequestCompression::Zstd;
        },
    }
}

/// The text that a cell is settled on. A cell that is only reached through
/// shared references is written at most once, so there is no second one;
/// there is none while nothing was ever written.
pub uninterp spec fn settled_text(cell: std::sync::OnceLock<String>) -> Option<Seq<char>>;

/// `OnceLock::set`: the cell holds a text when the call returns. It is `value`
/// where the call succeeds; where the cell had one already, `value` comes back
/// and the cell keeps its own. Whether it had one is not stated: the cell is
/// shared, and others may write it first.
#[verifier::external_body]
fn set_once(cell: &Arc<OnceLock<String>>, value: String) -> (outcome: Result<(), String>)
    ensures
        outcome is Ok ==> settled_text(**cell) == Some(value@),
        outcome matches Err(back) ==> back == value && settled_text(**cell) is Some,
{
    cell.set(value)
}

/// The state of the turn that a reply with these header fields announces.
pub open spec fn announced_turn_state(fields: HeaderFields) -> Option<Seq<char>> {
    headers::readable_header(fields, "x-codex-turn-state"@)
}

/// Reads the state of the turn that the reply announces.
pub fn read_turn_state(reply: &http::HeaderMap) -> (state: Option<String>)
    ensures
        state.deep_view() == announced_turn_state(headers::header_fields(*reply)),
{
    headers::read_header(reply, "x-codex-turn-state")
}

/// Whether `given` is what the cell answered when `announced` was offered to
/// it.
pub closed spec fn came_of_offering(
    cell: Arc<OnceLock<String>>,
    announced: Seq<char>,
    given: Result<(), String>,
) -> bool {
    exists|state: String|
        state@ == announced && #[trigger] call_ensures(set_once, (&cell, state), given)
}

/// Whether `outcome` can come of offering the state `announced` to the cell.
/// There is an outcome where there is a cell and a state to offer: the answer
/// of the cell to that very state. The cell then holds a state: the one
/// offered where it was taken, while one that was not taken is given back.
pub open spec fn is_offer_outcome(
    turn_state: Option<Arc<OnceLock<String>>>,
    announced: Option<Seq<char>>,
    outcome: Option<Result<(), String>>,
) -> bool {
    &&& outcome is Some <==> turn_state is Some && announced is Some
    &&& outcome matches Some(given) ==> came_of_offering(turn_state->0, announced->0, given)
    &&& outcome is Some ==> settled_text(*turn_state->0) is Some
    &&& outcome matches Some(Ok(_)) ==> settled_text(*turn_state->0) == announced
    &&& outcome matches Some(Err(back)) ==> Some(back@) == announced
}

/// Offers the state of the turn that the reply announces to the cell, if
/// there is one. An offer that comes too late is given back.
pub fn offer_turn_state(
    turn_state: &Option<Arc<OnceLock<String>>>,
    reply: &http::HeaderMap,
) -> (outcome: Option<Result<(), String>>)
    ensures
        is_offer_outcome(
            *turn_state,
            announced_turn_state(headers::header_fields(*reply)),
            outcome,
        ),
{
    match turn_state {
        Some(cell) => match read_turn_state(reply) {
            Some(state) => Some(set_once(cell, state)),
            None => None,
        },
        None => None,
    }
}

/// Law: what is offered to the cell is the state that the field of the reply
/// says, and the outcome is what the cell answered to that.
proof fn law_cell_is_offered_what_the_reply_says(
    cell: Arc<OnceLock<String>>,
    reply: http::HeaderMap,
    given: Result<(), String>,
)
    requires
        call_ensures(offer_turn_state, (&Some(cell), &reply), Some(given)),
    ensures
        exists|state: String| #[trigger]
            call_ensures(set_once, (&cell, state), given) && Some(state@)
                == headers::readable_header(
                headers::header_fields(reply),
                "x-codex-turn-state"@,
            ),
{
}

} // verus!
