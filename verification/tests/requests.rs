use std::sync::{Arc, OnceLock};

use chat_completions::headers::{
    header_count, insert_header, join_headers, read_header, SAFE_HEADER_NAMES,
};
use chat_completions::request::{
    configure_compression, offer_turn_state, path, read_turn_state, request_headers,
    stream_request, ChatCompletionsOptions, Compression, RequestCompression,
};
use http::header::{HeaderMap, HeaderName, HeaderValue};
use http::Method;

fn map(fields: &[(&str, &str)]) -> HeaderMap {
    let mut map = HeaderMap::new();
    for (name, value) in fields {
        map.append(
            HeaderName::from_bytes(name.as_bytes()).unwrap(),
            HeaderValue::from_str(value).unwrap(),
        );
    }
    map
}

fn values(map: &HeaderMap, name: &str) -> Vec<String> {
    map.get_all(name)
        .iter()
        .map(|value| value.to_str().unwrap().to_string())
        .collect()
}

#[test]
fn request_is_a_post_to_the_endpoint() {
    let request = stream_request(ChatCompletionsOptions::default(), HeaderMap::new()).unwrap();
    assert_eq!(request.method, Method::POST);
    assert_eq!(request.path, "chat/completions");
    assert_eq!(path(), "chat/completions");
    assert!(request.headers.is_empty());
    assert_eq!(request.compression, Compression::Uncompressed);
    assert!(request.turn_state.is_none());
}

#[test]
fn headers_are_put_together_in_order() {
    let headers = request_headers(
        map(&[("X-Client-Request-Id", "old"), ("accept", "a"), ("accept", "b")]),
        &Some("conv".to_string()),
        map(&[("session_id", "conv"), ("x-openai-subagent", "none")]),
        &Some("review".to_string()),
    )
    .unwrap();
    assert_eq!(values(&headers, "x-client-request-id"), vec!["conv"]);
    assert_eq!(values(&headers, "accept"), vec!["a", "b"]);
    assert_eq!(values(&headers, "session_id"), vec!["conv"]);
    assert_eq!(values(&headers, "x-openai-subagent"), vec!["review"]);
    assert_eq!(headers.keys_len(), 4);
}

#[test]
fn conversation_headers_win_over_the_callers() {
    let headers = request_headers(
        map(&[("session_id", "mine"), ("session_id", "also mine")]),
        &None,
        map(&[("session_id", "1"), ("session_id", "2")]),
        &None,
    )
    .unwrap();
    assert_eq!(values(&headers, "session_id"), vec!["1", "2"]);
    assert_eq!(headers.keys_len(), 1);
}

#[test]
fn caller_names_itself_where_nothing_else_does() {
    let headers = request_headers(
        map(&[("x-client-request-id", "mine"), ("x-openai-subagent", "me")]),
        &Some("line\nbreak".to_string()),
        HeaderMap::new(),
        &None,
    )
    .unwrap();
    assert_eq!(values(&headers, "x-client-request-id"), vec!["mine"]);
    assert_eq!(values(&headers, "x-openai-subagent"), vec!["me"]);
    let headers = request_headers(
        HeaderMap::new(),
        &Some("conv".to_string()),
        map(&[("x-client-request-id", "theirs")]),
        &Some("review".to_string()),
    )
    .unwrap();
    assert_eq!(values(&headers, "x-client-request-id"), vec!["theirs"]);
    assert_eq!(values(&headers, "x-openai-subagent"), vec!["review"]);
}

#[test]
fn invalid_conversation_id_is_passed_over() {
    let headers = request_headers(
        HeaderMap::new(),
        &Some("line\nbreak".to_string()),
        HeaderMap::new(),
        &None,
    )
    .unwrap();
    assert!(headers.is_empty());
}

#[test]
fn options_reach_the_request() {
    let cell = Arc::new(OnceLock::new());
    let options = ChatCompletionsOptions {
        conversation_id: Some("c".to_string()),
        subagent: None,
        extra_headers: HeaderMap::new(),
        compression: Compression::Zstd,
        turn_state: Some(cell.clone()),
    };
    let request = stream_request(options, HeaderMap::new()).unwrap();
    assert_eq!(values(&request.headers, "x-client-request-id"), vec!["c"]);
    assert_eq!(request.compression, Compression::Zstd);
    assert!(Arc::ptr_eq(&request.turn_state.unwrap(), &cell));
}

fn many(count: usize) -> HeaderMap {
    let mut map = HeaderMap::new();
    for i in 0..count {
        map.insert(
            HeaderName::from_bytes(format!("x-{}", i).as_bytes()).unwrap(),
            HeaderValue::from_static("v"),
        );
    }
    map
}

fn with_many(count: usize) -> ChatCompletionsOptions {
    ChatCompletionsOptions {
        extra_headers: many(count),
        conversation_id: Some("c".to_string()),
        subagent: Some("s".to_string()),
        ..ChatCompletionsOptions::default()
    }
}

#[test]
fn many_headers_are_handed_over() {
    for count in [SAFE_HEADER_NAMES - 1, SAFE_HEADER_NAMES, 10000, 20000] {
        let conversation = map(&[("x-7", "1"), ("x-7", "2"), ("session_id", "c")]);
        let request = stream_request(with_many(count), conversation).unwrap();
        assert_eq!(header_count(&request.headers), count + 3);
        assert_eq!(values(&request.headers, "x-0"), vec!["v"]);
        assert_eq!(values(&request.headers, "x-7"), vec!["1", "2"]);
        assert_eq!(values(&request.headers, &format!("x-{}", count - 1)), vec!["v"]);
        assert_eq!(values(&request.headers, "session_id"), vec!["c"]);
        assert_eq!(values(&request.headers, "x-client-request-id"), vec!["c"]);
        assert_eq!(values(&request.headers, "x-openai-subagent"), vec!["s"]);
    }
}

#[test]
fn headers_without_room_make_no_request() {
    // A header map holds three quarters of `1 << 15` names.
    assert!(stream_request(with_many(24574), HeaderMap::new()).is_ok());
    assert!(stream_request(with_many(24575), HeaderMap::new()).is_err());
    assert!(stream_request(with_many(24574), map(&[("session_id", "c")])).is_err());
    assert!(insert_header(&mut many(24576), "session_id", "c").is_err());
    assert!(join_headers(&mut many(24575), map(&[("a", "1"), ("b", "2")])).is_err());
}

#[test]
fn full_header_map_keeps_its_fields() {
    let mut full = many(24576);
    assert!(insert_header(&mut full, "session_id", "c").is_err());
    assert_eq!(full, many(24576));
    assert!(insert_header(&mut full, "session_id", "line\nbreak").is_ok());
    assert!(join_headers(&mut full, HeaderMap::new()).is_ok());
    assert_eq!(full, many(24576));
    let options = ChatCompletionsOptions {
        extra_headers: full,
        ..ChatCompletionsOptions::default()
    };
    let request = stream_request(options, HeaderMap::new()).unwrap();
    assert_eq!(request.headers, many(24576));
}

#[test]
fn joined_headers_agree_with_extend() {
    for count in [0, 5, SAFE_HEADER_NAMES, 9000] {
        let more = || map(&[("x-1", "a"), ("y", "1"), ("x-1", "b"), ("y", "2"), ("z", "")]);
        let mut joined = many(count);
        join_headers(&mut joined, more()).unwrap();
        let mut extended = many(count);
        extended.extend(more());
        assert_eq!(joined, extended);
    }
}

#[test]
fn compression_is_asked_for_only_when_wanted() {
    let mut request = RequestCompression::Uncompressed;
    configure_compression(Compression::Uncompressed, &mut request);
    assert_eq!(request, RequestCompression::Uncompressed);
    configure_compression(Compression::Zstd, &mut request);
    assert_eq!(request, RequestCompression::Zstd);
    configure_compression(Compression::Uncompressed, &mut request);
    assert_eq!(request, RequestCompression::Zstd);
}

#[test]
fn header_names_are_tokens() {
    for code in 0..0x180u32 {
        let c = char::from_u32(code).unwrap();
        let token = c.is_ascii_alphanumeric() || "!#$%&'*+-.^_`|~".contains(c);
        let mut map = HeaderMap::new();
        insert_header(&mut map, &format!("a{}b", c), "v").unwrap();
        assert_eq!(header_count(&map), if token { 1 } else { 0 }, "{:?}", c);
        if token {
            let lower = format!("a{}b", c.to_ascii_lowercase());
            assert_eq!(map.keys().next().unwrap().as_str(), lower);
        }
    }
    let mut map = HeaderMap::new();
    insert_header(&mut map, "", "v").unwrap();
    insert_header(&mut map, &"n".repeat(0x10000), "v").unwrap();
    assert_eq!(header_count(&map), 0);
    insert_header(&mut map, &"N".repeat(0xffff), "v").unwrap();
    assert_eq!(header_count(&map), 1);
    assert_eq!(read_header(&map, &"n".repeat(0xffff)), Some("v".to_string()));
    assert_eq!(read_header(&map, &"N".repeat(0xffff)), Some("v".to_string()));
}

#[test]
fn header_values_hold_no_control_characters() {
    for code in 0..0x180u32 {
        let c = char::from_u32(code).unwrap();
        let valid = c == '\t' || !c.is_ascii_control();
        let mut map = HeaderMap::new();
        insert_header(&mut map, "n", &c.to_string()).unwrap();
        assert_eq!(header_count(&map), if valid { 1 } else { 0 }, "{:?}", c);
        if valid {
            assert_eq!(map.get("n").unwrap().as_bytes(), c.to_string().as_bytes());
        }
    }
}

#[test]
fn only_visible_ascii_reads_as_text() {
    for byte in 0..=255u8 {
        if let Ok(value) = HeaderValue::from_bytes(&[byte]) {
            let mut map = HeaderMap::new();
            map.insert("n", value);
            let visible = byte == 9 || (32..127).contains(&byte);
            let expected = if visible {
                Some((byte as char).to_string())
            } else {
                None
            };
            assert_eq!(read_header(&map, "N"), expected);
        }
    }
    assert_eq!(read_header(&map(&[("a", "1"), ("a", "2")]), "a"), Some("1".to_string()));
    assert_eq!(read_header(&map(&[("a", "1")]), "b"), None);
    assert_eq!(read_header(&map(&[("a", "1")]), "not a name"), None);
}

#[test]
fn header_reads_back() {
    let mut map = HeaderMap::new();
    insert_header(&mut map, "X-State", "one two").unwrap();
    assert_eq!(read_header(&map, "x-state"), Some("one two".to_string()));
    insert_header(&mut map, "x-state", "tab\there~").unwrap();
    assert_eq!(read_header(&map, "x-state"), Some("tab\there~".to_string()));
    insert_header(&mut map, "x-state", "three").unwrap();
    assert_eq!(read_header(&map, "X-STATE"), Some("three".to_string()));
}

#[test]
fn turn_state_is_offered_once() {
    let cell = Some(Arc::new(OnceLock::new()));
    let reply = map(&[("x-codex-turn-state", "first")]);
    assert_eq!(read_turn_state(&reply), Some("first".to_string()));
    assert_eq!(offer_turn_state(&cell, &reply), Some(Ok(())));
    let later = map(&[("x-codex-turn-state", "second")]);
    assert_eq!(
        offer_turn_state(&cell, &later),
        Some(Err("second".to_string()))
    );
    assert_eq!(cell.unwrap().get(), Some(&"first".to_string()));
}

#[test]
fn turn_state_that_was_set_elsewhere_stays() {
    let shared = Arc::new(OnceLock::new());
    shared.set("mine".to_string()).unwrap();
    let cell = Some(shared.clone());
    let reply = map(&[("x-codex-turn-state", "theirs")]);
    assert_eq!(
        offer_turn_state(&cell, &reply),
        Some(Err("theirs".to_string()))
    );
    assert_eq!(shared.get(), Some(&"mine".to_string()));
}

#[test]
fn turn_state_needs_a_cell_and_a_readable_header() {
    let reply = map(&[("x-codex-turn-state", "s")]);
    assert_eq!(offer_turn_state(&None, &reply), None);
    let cell = Some(Arc::new(OnceLock::new()));
    assert_eq!(offer_turn_state(&cell, &HeaderMap::new()), None);
    assert_eq!(offer_turn_state(&cell, &map(&[("x-codex-turn-state", "\u{e9}")])), None);
    assert_eq!(cell.unwrap().get(), None);
}
