//! HTTP header fields, kept in the header map of the `http` crate.
use vstd::prelude::*;

verus! {

/// The header map of the `http` crate.
#[verifier::external_type_specification]
#[verifier::external_body]
#[verifier::reject_recursive_types(T)]
pub struct ExHeaderMap<T>(http::HeaderMap<T>);

/// The header name of the `http` crate.
#[verifier::external_type_specification]
#[verifier::external_body]
pub struct ExHeaderName(http::header::HeaderName);

/// The header value of the `http` crate.
#[verifier::external_type_specification]
#[verifier::external_body]
pub struct ExHeaderValue(http::header::HeaderValue);

/// What the `http` crate says of a text that is no header name.
#[verifier::external_type_specification]
#[verifier::external_body]
pub struct ExInvalidHeaderName(http::header::InvalidHeaderName);

/// What the `http` crate says of a text that is no header value.
#[verifier::external_type_specification]
#[verifier::external_body]
pub struct ExInvalidHeaderValue(http::header::InvalidHeaderValue);

/// What the `http` crate says of a header value that is no text.
#[verifier::external_type_specification]
#[verifier::external_body]
pub struct ExToStrError(http::header::ToStrError);

/// What a header map of the `http` crate says when it has no room.
#[verifier::external_type_specification]
#[verifier::external_body]
pub struct ExMaxSizeReached(http::header::MaxSizeReached);

/// Header fields: for each name, in lower case, its values in order.
pub type HeaderFields = Map<Seq<char>, Seq<Seq<u8>>>;

/// The fields that a header map holds: for each name, in lower case, its
/// values in order.
pub uninterp spec fn header_fields(map: http::HeaderMap) -> Map<Seq<char>, Seq<Seq<u8>>>;

/// The text of a header name, in lower case.
pub uninterp spec fn header_name_text(name: http::header::HeaderName) -> Seq<char>;

/// The bytes of a header value.
pub uninterp spec fn header_value_bytes(value: http::header::HeaderValue) -> Seq<u8>;

/// The most names that a header map may hold for one more to be taken in,
/// whatever its hashes are. A map has at most `1 << 15` slots, and where names
/// collide it wants twice its slots as soon as a fifth of them is taken.
pub const SAFE_HEADER_NAMES: usize = 6553;

/// A header map had no room for one more field. Only a header map that
/// refused a field can give a `refusal`.
#[derive(Debug)]
pub struct TooManyHeaders {
    pub refusal: http::header::MaxSizeReached,
}

/// Whether `names` has exactly `size` elements.
pub open spec fn has_size(names: Set<Seq<char>>, size: nat) -> bool {
    names.finite() && names.len() == size
}

/// Whether `c` may stand in a header name.
pub open spec fn is_token_char(c: char) -> bool {
    ||| '0' <= c <= '9'
    ||| 'A' <= c <= 'Z'
    ||| 'a' <= c <= 'z'
    ||| c == '!' || c == '#' || c == '$' || c == '%' || c == '&' || c == '\'' || c == '*'
    ||| c == '+' || c == '-' || c == '.' || c == '^' || c == '_' || c == '`' || c == '|'
    ||| c == '~'
}

/// `c` in lower case, where it is an ASCII letter.
pub open spec fn ascii_lower(c: char) -> char {
    if 'A' <= c <= 'Z' {
        (c as u32 + 32) as char
    } else {
        c
    }
}

/// Whether `text` is a header name.
pub open spec fn is_header_name(text: Seq<char>) -> bool {
    &&& 1 <= text.len() <= 0xffff
    &&& forall|i: int| 0 <= i < text.len() ==> is_token_char(#[trigger] text[i])
}

/// The header name `text` as a header map keeps it.
pub open spec fn canonical_name(text: Seq<char>) -> Seq<char> {
    text.map_values(|c: char| ascii_lower(c))
}

/// Whether `bytes` may be a header value: no control bytes but the tab.
pub open spec fn is_header_value(bytes: Seq<u8>) -> bool {
    forall|i: int| 0 <= i < bytes.len() ==> (#[trigger] bytes[i] >= 32 && bytes[i] != 127)
        || bytes[i] == 9
}

/// Whether `bytes` are visible ASCII, spaces or tabs.
pub open spec fn is_visible_ascii(bytes: Seq<u8>) -> bool {
    forall|i: int| 0 <= i < bytes.len() ==> 32 <= #[trigger] bytes[i] < 127 || bytes[i] == 9
}

/// ASCII `bytes` as text.
pub open spec fn ascii_text(bytes: Seq<u8>) -> Seq<char> {
    bytes.map_values(|b: u8| b as char)
}

/// The texts of header names.
pub open spec fn name_texts(names: Seq<http::header::HeaderName>) -> Seq<Seq<char>> {
    names.map_values(|name: http::header::HeaderName| header_name_text(name))
}

/// The bytes of header values.
pub open spec fn value_texts(values: Seq<http::header::HeaderValue>) -> Seq<Seq<u8>> {
    values.map_values(|value: http::header::HeaderValue| header_value_bytes(value))
}

/// The fields `fields` with `value` as the last value of `name`.
pub open spec fn with_last_value(
    fields: HeaderFields,
    name: Seq<char>,
    value: Seq<u8>,
) -> HeaderFields {
    if fields.contains_key(name) {
        fields.insert(name, fields[name].push(value))
    } else {
        fields.insert(name, seq![value])
    }
}

/// `http::HeaderMap::new`: a map without fields.
#[verifier::external_body]
pub(crate) fn new_header_map() -> (map: http::HeaderMap)
    ensures
        header_fields(map) == HeaderFields::empty(),
{
    http::HeaderMap::new()
}

/// `http::HeaderMap::keys_len`: the number of different names.
#[verifier::external_body]
fn keys_len(map: &http::HeaderMap) -> (count: usize)
    ensures
        has_size(header_fields(*map).dom(), count as nat),
{
    map.keys_len()
}

/// `http::HeaderName::from_bytes`: the name in lower case, where `text` is a
/// header name, else an error.
#[verifier::external_body]
fn parse_header_name(text: &str) -> (parsed: Result<
    http::header::HeaderName,
    http::header::InvalidHeaderName,
>)
    ensures
        parsed is Ok <==> is_header_name(text@),
        parsed matches Ok(name) ==> header_name_text(name) == canonical_name(text@),
{
    http::header::HeaderName::from_bytes(text.as_bytes())
}

/// `http::HeaderValue::from_str`: the UTF-8 bytes of `text`, where they may be
/// a header value, else an error.
#[verifier::external_body]
fn parse_header_value(text: &str) -> (parsed: Result<
    http::header::HeaderValue,
    http::header::InvalidHeaderValue,
>)
    ensures
        parsed is Ok <==> is_header_value(vstd::utf8::encode_utf8(text@)),
        parsed matches Ok(value) ==> header_value_bytes(value) == vstd::utf8::encode_utf8(text@),
{
    http::header::HeaderValue::from_str(text)
}

/// `http::HeaderMap::try_insert`: `value` becomes the only value of `name`. A
/// map that refuses keeps its fields, and none refuses up to the bound. Which
/// ones refuse above it is not stated: it is up to how the names collide.
#[verifier::external_body]
fn try_insert_field(
    map: &mut http::HeaderMap,
    name: &http::header::HeaderName,
    value: &http::header::HeaderValue,
) -> (outcome: Result<(), http::header::MaxSizeReached>)
    ensures
        outcome is Ok ==> header_fields(*final(map)) == header_fields(*old(map)).insert(
            header_name_text(*name),
            seq![header_value_bytes(*value)],
        ),
        outcome is Err ==> header_fields(*final(map)) == header_fields(*old(map)),
        header_fields(*old(map)).dom().len() <= SAFE_HEADER_NAMES ==> outcome is Ok,
{
    match map.try_insert(name, value.clone()) {
        Ok(_) => Ok(()),
        Err(refusal) => Err(refusal),
    }
}

/// `http::HeaderMap::try_append`: `value` becomes the last value of `name`. A
/// map that refuses keeps its fields, and none refuses up to the bound. Which
/// ones refuse above it is not stated: it is up to how the names collide.
#[verifier::external_body]
fn try_append_value(
    map: &mut http::HeaderMap,
    name: &http::header::HeaderName,
    value: &http::header::HeaderValue,
) -> (outcome: Result<(), http::header::MaxSizeReached>)
    ensures
        outcome is Ok ==> header_fields(*final(map)) == with_last_value(
            header_fields(*old(map)),
            header_name_text(*name),
            header_value_bytes(*value),
        ),
        outcome is Err ==> header_fields(*final(map)) == header_fields(*old(map)),
        header_fields(*old(map)).dom().len() <= SAFE_HEADER_NAMES ==> outcome is Ok,
{
    match map.try_append(name, value.clone()) {
        Ok(_) => Ok(()),
        Err(refusal) => Err(refusal),
    }
}

/// `http::HeaderMap::keys`: each name once, in no order that is stated.
#[verifier::external_body]
fn field_names(map: &http::HeaderMap) -> (names: Vec<http::header::HeaderName>)
    ensures
        name_texts(names@).no_duplicates(),
        name_texts(names@).to_set() == header_fields(*map).dom(),
{
    map.keys().cloned().collect()
}

/// `http::HeaderMap::get_all`: the values of `name` in order. A name that the
/// map has is never without a value, any other has none.
#[verifier::external_body]
fn field_values(map: &http::HeaderMap, name: &http::header::HeaderName) -> (values: Vec<
    http::header::HeaderValue,
>)
    ensures
        values@.len() > 0 <==> header_fields(*map).contains_key(header_name_text(*name)),
        values@.len() > 0 ==> value_texts(values@) == header_fields(
            *map,
        )[header_name_text(*name)],
{
    map.get_all(name).iter().cloned().collect()
}

/// `Extend::extend` of one `http::HeaderMap` with another: the fields of
/// `more` replace those of the same name. Above the bound the map may be full,
/// and the call may panic.
#[verifier::external_body]
fn extend_fields(map: &mut http::HeaderMap, more: http::HeaderMap)
    requires
        header_fields(*old(map)).dom().len() + header_fields(more).dom().len()
            <= SAFE_HEADER_NAMES,
    ensures
        header_fields(*final(map)) == header_fields(*old(map)).union_prefer_right(
            header_fields(more),
        ),
{
    map.extend(more);
}

/// `http::HeaderMap::get` with a text: the first value of the field of that
/// name, if the map has it.
#[verifier::external_body]
fn first_value<'a>(map: &'a http::HeaderMap, name: &str) -> (value: Option<
    &'a http::header::HeaderValue,
>)
    ensures
        value is Some <==> (is_header_name(name@) && header_fields(*map).contains_key(
            canonical_name(name@),
        )),
        value matches Some(found) ==> header_value_bytes(*found) == header_fields(
            *map,
        )[canonical_name(name@)].first(),
{
    map.get(name)
}

/// `http::HeaderValue::to_str`: the bytes as text, where they are visible
/// ASCII, spaces or tabs, else an error.
#[verifier::external_body]
fn value_to_str(value: &http::header::HeaderValue) -> (text: Result<
    &str,
    http::header::ToStrError,
>)
    ensures
        text is Ok <==> is_visible_ascii(header_value_bytes(*value)),
        text matches Ok(text) ==> text@ == ascii_text(header_value_bytes(*value)),
{
    value.to_str()
}

/// The fields `fields` with `value` as the only value of `name`, where both
/// are valid, else unchanged.
pub open spec fn with_header(
    fields: HeaderFields,
    name: Seq<char>,
    value: Seq<char>,
) -> HeaderFields {
    let bytes = vstd::utf8::encode_utf8(value);
    if is_header_name(name) && is_header_value(bytes) {
        fields.insert(canonical_name(name), seq![bytes])
    } else {
        fields
    }
}

/// The first value of the field `name` as text, where there is one and it can
/// be read as text.
pub open spec fn readable_header(
    fields: HeaderFields,
    name: Seq<char>,
) -> Option<Seq<char>> {
    let key = canonical_name(name);
    if is_header_name(name) && fields.contains_key(key) && is_visible_ascii(fields[key].first()) {
        Some(ascii_text(fields[key].first()))
    } else {
        None
    }
}

/// Whether `refusal` is what a header map said to one more field.
pub closed spec fn is_refusal(refusal: http::header::MaxSizeReached) -> bool {
    ||| exists|
        map: &mut http::HeaderMap,
        name: &http::header::HeaderName,
        value: &http::header::HeaderValue,
    | #[trigger] call_ensures(try_insert_field, (map, name, value), Err(refusal))
    ||| exists|
        map: &mut http::HeaderMap,
        name: &http::header::HeaderName,
        value: &http::header::HeaderValue,
    | #[trigger] call_ensures(try_append_value, (map, name, value), Err(refusal))
}

/// The number of different names in `map`.
pub fn header_count(map: &http::HeaderMap) -> (count: usize)
    ensures
        has_size(header_fields(*map).dom(), count as nat),
{
    keys_len(map)
}

/// Makes `value` the only value of the field `name`. A name or a value that
/// is not valid is passed over. A map without room keeps its fields.
pub fn insert_header(map: &mut http::HeaderMap, name: &str, value: &str) -> (outcome: Result<
    (),
    TooManyHeaders,
>)
    ensures
        outcome is Ok ==> header_fields(*final(map)) == with_header(
            header_fields(*old(map)),
            name@,
            value@,
        ),
        outcome is Err ==> header_fields(*final(map)) == header_fields(*old(map)),
        outcome is Err ==> is_header_name(name@) && is_header_value(
            vstd::utf8::encode_utf8(value@),
        ),
        outcome is Err ==> header_fields(*old(map)).dom().len() > SAFE_HEADER_NAMES,
        outcome matches Err(error) ==> is_refusal(error.refusal),
{
    if let Ok(header_name) = parse_header_name(name) {
        if let Ok(header_value) = parse_header_value(value) {
            if let Err(refusal) = try_insert_field(map, &header_name, &header_value) {
                return Err(TooManyHeaders { refusal });
            }
        }
    }
    Ok(())
}

/// The fields `fields` with those of `more` that have one of the names
/// `names`.
pub open spec fn with_fields(
    fields: HeaderFields,
    more: HeaderFields,
    names: Seq<Seq<char>>,
) -> HeaderFields
    decreases names.len(),
{
    if names.len() == 0 {
        fields
    } else {
        with_fields(fields, more, names.drop_last()).insert(names.last(), more[names.last()])
    }
}

/// A field is of `more` where its name is one of `names`.
proof fn lemma_with_fields(fields: HeaderFields, more: HeaderFields, names: Seq<Seq<char>>)
    requires
        forall|i: int| 0 <= i < names.len() ==> more.contains_key(#[trigger] names[i]),
    ensures
        with_fields(fields, more, names) == fields.union_prefer_right(
            more.restrict(names.to_set()),
        ),
    decreases names.len(),
{
    if names.len() == 0 {
        assert(fields.union_prefer_right(more.restrict(names.to_set())) =~= fields);
    } else {
        let before = names.drop_last();
        lemma_with_fields(fields, more, before);
        assert(names =~= before.push(names.last()));
        assert forall|name: Seq<char>|
            #[trigger] names.to_set().contains(name) <==> before.to_set().contains(name) || name
                == names.last() by {
            if before.contains(name) {
                let i = before.index_of(name);
                assert(names[i] == name);
            }
            if names.contains(name) && name != names.last() {
                let i = names.index_of(name);
                assert(before[i] == name);
            }
        }
        assert(names[names.len() - 1] == names.last());
        assert(with_fields(fields, more, names) =~= fields.union_prefer_right(
            more.restrict(names.to_set()),
        ));
    }
}

/// Makes `values` the values of the field `name`.
fn set_values(
    map: &mut http::HeaderMap,
    name: &http::header::HeaderName,
    values: &Vec<http::header::HeaderValue>,
) -> (outcome: Result<(), http::header::MaxSizeReached>)
    requires
        values@.len() > 0,
    ensures
        outcome is Ok ==> header_fields(*final(map)) == header_fields(*old(map)).insert(
            header_name_text(*name),
            value_texts(values@),
        ),
        outcome matches Err(refusal) ==> is_refusal(refusal),
{
    let ghost before = header_fields(*map);
    let ghost text = header_name_text(*name);
    try_insert_field(map, name, &values[0])?;
    let mut i: usize = 1;
    assert(value_texts(values@.take(1)) =~= seq![header_value_bytes(values@[0])]);
    while i < values.len()
        invariant
            1 <= i <= values@.len(),
            text == header_name_text(*name),
            header_fields(*map) == before.insert(text, value_texts(values@.take(i as int))),
        decreases values@.len() - i,
    {
        try_append_value(map, name, &values[i])?;
        assert(value_texts(values@.take(i as int)).push(header_value_bytes(values@[i as int]))
            =~= value_texts(values@.take(i + 1)));
        i += 1;
        assert(header_fields(*map) =~= before.insert(text, value_texts(values@.take(i as int))));
    }
    assert(values@.take(i as int) =~= values@);
    Ok(())
}

/// Adds the fields of `more`, which replace those of the same name. Where
/// `Extend::extend` might panic for want of room, the values are added one by
/// one, until the map refuses one. A full map refuses a further value of a
/// name that it has, too.
pub fn join_headers(map: &mut http::HeaderMap, more: http::HeaderMap) -> (outcome: Result<
    (),
    TooManyHeaders,
>)
    ensures
        outcome is Ok ==> header_fields(*final(map)) == header_fields(*old(map)).union_prefer_right(
            header_fields(more),
        ),
        outcome is Err ==> header_fields(more) != HeaderFields::empty(),
        outcome is Err ==> header_fields(*old(map)).dom().len() + header_fields(more).dom().len()
            > SAFE_HEADER_NAMES,
        outcome matches Err(error) ==> is_refusal(error.refusal),
{
    let own: usize = keys_len(map);
    let added: usize = keys_len(&more);
    if own <= SAFE_HEADER_NAMES && added <= SAFE_HEADER_NAMES - own {
        extend_fields(map, more);
        return Ok(());
    }
    let ghost before = header_fields(*map);
    let ghost fields = header_fields(more);
    let names = field_names(&more);
    let ghost texts = name_texts(names@);
    let mut i: usize = 0;
    while i < names.len()
        invariant
            i <= names@.len(),
            before == header_fields(*old(map)),
            fields == header_fields(more),
            texts == name_texts(names@),
            texts.to_set() == fields.dom(),
            header_fields(*map) == with_fields(before, fields, texts.take(i as int)),
            before.dom().len() + fields.dom().len() > SAFE_HEADER_NAMES,
        decreases names@.len() - i,
    {
        assert(texts.to_set().contains(texts[i as int]));
        let values = field_values(&more, &names[i]);
        if let Err(refusal) = set_values(map, &names[i], &values) {
            return Err(TooManyHeaders { refusal });
        }
        i += 1;
        assert(texts.take(i as int).drop_last() =~= texts.take(i - 1));
    }
    proof {
        assert(texts.take(i as int) =~= texts);
        assert forall|k: int| 0 <= k < texts.len() implies fields.contains_key(
            #[trigger] texts[k],
        ) by {
            assert(texts.to_set().contains(texts[k]));
        }
        lemma_with_fields(before, fields, texts);
        assert(fields.restrict(texts.to_set()) =~= fields);
    }
    Ok(())
}

/// Reads the first value of the field `name` as text.
pub fn read_header(map: &http::HeaderMap, name: &str) -> (text: Option<String>)
    ensures
        text.deep_view() == readable_header(header_fields(*map), name@),
{
    match first_value(map, name) {
        Some(value) => match value_to_str(value) {
            Ok(text) => Some(text.to_owned()),
            Err(_) => None,
        },
        None => None,
    }
}

} // verus!
