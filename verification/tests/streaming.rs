use bytes::Bytes;
use chat_completions::chunk::{
    ChatCompletionsChoice, ChatCompletionsDelta, ChatCompletionsPromptTokensDetails,
    ChatCompletionsStreamChunk, ChatCompletionsToolCallDelta, ChatCompletionsToolFunctionDelta,
    ChatCompletionsUsage,
};
use chat_completions::event::{
    ApiError, ContentItem, MessagePhase, ResponseEvent, ResponseItem, TokenUsage,
};
use chat_completions::stream::{ChatCompletionsStream, SseAction, SsePoll};
use eventsource_stream::Eventsource;
use futures::StreamExt;
use serde_json::Value;

type Sent = Vec<Result<ResponseEvent, ApiError>>;

fn text_of(value: &Value, key: &str) -> Option<String> {
    value.get(key).and_then(Value::as_str).map(str::to_string)
}

fn usage_of(value: &Value) -> ChatCompletionsUsage {
    let count = |v: &Value, key: &str| v.get(key).and_then(Value::as_i64);
    ChatCompletionsUsage {
        prompt_tokens: count(value, "prompt_tokens"),
        completion_tokens: count(value, "completion_tokens"),
        total_tokens: count(value, "total_tokens"),
        prompt_tokens_details: value
            .get("prompt_tokens_details")
            .filter(|details| details.is_object())
            .map(|details| ChatCompletionsPromptTokensDetails {
                cached_tokens: count(details, "cached_tokens"),
            }),
    }
}

fn tool_call_of(value: &Value) -> ChatCompletionsToolCallDelta {
    ChatCompletionsToolCallDelta {
        index: value.get("index").and_then(Value::as_u64).map(|n| n as usize),
        id: text_of(value, "id"),
        function: value
            .get("function")
            .map(|function| ChatCompletionsToolFunctionDelta {
                name: text_of(function, "name"),
                arguments: text_of(function, "arguments"),
            }),
    }
}

fn choice_of(value: &Value) -> ChatCompletionsChoice {
    ChatCompletionsChoice {
        delta: value.get("delta").map(|delta| ChatCompletionsDelta {
            role: text_of(delta, "role"),
            content: text_of(delta, "content"),
            tool_calls: delta
                .get("tool_calls")
                .and_then(Value::as_array)
                .map(|calls| calls.iter().map(tool_call_of).collect()),
        }),
        finish_reason: text_of(value, "finish_reason"),
    }
}

fn decode(data: &str) -> Result<ChatCompletionsStreamChunk, String> {
    let value: Value = serde_json::from_str(data).map_err(|err| err.to_string())?;
    Ok(ChatCompletionsStreamChunk {
        id: text_of(&value, "id"),
        choices: value
            .get("choices")
            .and_then(Value::as_array)
            .map(|choices| choices.iter().map(choice_of).collect()),
        usage: value
            .get("usage")
            .filter(|usage| usage.is_object())
            .map(usage_of),
    })
}

/// Runs a stream over the polls, in order, until it stops.
fn run(polls: Vec<SsePoll>) -> Sent {
    let (mut stream, created) = ChatCompletionsStream::open();
    let mut sent: Sent = vec![Ok(created)];
    for poll in polls {
        let mut action = stream.on_poll(poll);
        if let SseAction::Decode { stream, data } = action {
            let decoded = decode(&data);
            if let Ok(chunk) = &decoded {
                assert!(chunk.has_usage_in_range());
            }
            action = stream.on_decoded(decoded);
        }
        match action {
            SseAction::Continue { stream: next, events } => {
                sent.extend(events.into_iter().map(Ok));
                stream = next;
            }
            SseAction::Finish { events } => {
                sent.extend(events.into_iter().map(Ok));
                return sent;
            }
            SseAction::Fail { error } => {
                sent.push(Err(error));
                return sent;
            }
            SseAction::Decode { .. } => unreachable!(),
        }
    }
    sent
}

/// The polls that the given bytes cause.
fn polls_of(bytes: Vec<Bytes>) -> Vec<SsePoll> {
    let source = futures::stream::iter(bytes.into_iter().map(Ok::<Bytes, std::io::Error>));
    let mut polls: Vec<SsePoll> = futures::executor::block_on(
        source
            .eventsource()
            .map(|event| match event {
                Ok(event) => SsePoll::Event(event.data),
                Err(err) => SsePoll::StreamError(err.to_string()),
            })
            .collect::<Vec<SsePoll>>(),
    );
    polls.push(SsePoll::Closed);
    polls
}

fn sse(json: &str) -> Bytes {
    Bytes::from(format!("data: {json}\n\n"))
}

fn run_json(chunks: &[&str]) -> Vec<ResponseEvent> {
    let polls = polls_of(chunks.iter().map(|json| sse(json)).collect());
    run(polls).into_iter().map(Result::unwrap).collect()
}

fn completed(response_id: &str, token_usage: Option<TokenUsage>) -> ResponseEvent {
    ResponseEvent::Completed {
        response_id: response_id.to_string(),
        token_usage,
    }
}

fn message(text: &str, end_turn: Option<bool>, phase: MessagePhase) -> ResponseItem {
    ResponseItem::Message {
        id: Some("msg_1".to_string()),
        role: "assistant".to_string(),
        content: vec![ContentItem::OutputText {
            text: text.to_string(),
        }],
        end_turn,
        phase: Some(phase),
    }
}

fn opened() -> ResponseEvent {
    ResponseEvent::OutputItemAdded(message("", None, MessagePhase::Commentary))
}

fn closed(text: &str) -> ResponseEvent {
    ResponseEvent::OutputItemDone(message(text, Some(true), MessagePhase::FinalAnswer))
}

fn delta(text: &str) -> ResponseEvent {
    ResponseEvent::OutputTextDelta(text.to_string())
}

fn call(name: &str, arguments: &str, call_id: &str) -> ResponseEvent {
    ResponseEvent::OutputItemDone(ResponseItem::FunctionCall {
        id: None,
        name: name.to_string(),
        namespace: None,
        arguments: arguments.to_string(),
        call_id: call_id.to_string(),
    })
}

fn stream_error(message: &str) -> Result<ResponseEvent, ApiError> {
    Err(ApiError::Stream(message.to_string()))
}

#[test]
fn chat_completions_stream_emits_response_events() {
    let bytes = vec![
        sse(
            r#"{"id":"chatcmpl-1","choices":[{"delta":{"role":"assistant","content":"hi"},"finish_reason":null}]}"#,
        ),
        sse(
            r#"{"id":"chatcmpl-1","choices":[{"delta":{"content":" there"},"finish_reason":null}]}"#,
        ),
        sse(
            r#"{"id":"chatcmpl-1","choices":[{"delta":{},"finish_reason":"stop"}],"usage":{"prompt_tokens":1,"completion_tokens":2,"total_tokens":3}}"#,
        ),
        Bytes::from("data: [DONE]\n\n"),
    ];

    let mut events = Vec::new();
    for event in run(polls_of(bytes)) {
        events.push(event.unwrap());
        if matches!(events.last(), Some(ResponseEvent::Completed { .. })) {
            break;
        }
    }

    assert!(matches!(events[0], ResponseEvent::Created));
    assert_eq!(
        events
            .iter()
            .filter(|e| matches!(e, ResponseEvent::OutputTextDelta(_)))
            .count(),
        2
    );
    let usage = TokenUsage {
        input_tokens: 1,
        cached_input_tokens: 0,
        output_tokens: 2,
        reasoning_output_tokens: 0,
        total_tokens: 3,
    };
    assert_eq!(
        events,
        vec![
            ResponseEvent::Created,
            opened(),
            delta("hi"),
            delta(" there"),
            closed("hi there"),
            completed("chatcmpl-1", Some(usage)),
        ]
    );
}

#[test]
fn empty_stream_is_created_and_completed() {
    assert_eq!(
        run_json(&[]),
        vec![ResponseEvent::Created, completed("chatcmpl_unknown", None)]
    );
}

#[test]
fn idle_timeout_is_an_error() {
    assert_eq!(
        run(vec![SsePoll::IdleTimeout, SsePoll::Closed]),
        vec![
            Ok(ResponseEvent::Created),
            stream_error("chat completions SSE idle timeout"),
        ]
    );
}

#[test]
fn stream_error_ends_the_stream_without_closing_events() {
    assert_eq!(
        run(vec![
            SsePoll::Event(r#"{"choices":[{"delta":{"content":"a"}}]}"#.to_string()),
            SsePoll::StreamError("broken pipe".to_string()),
            SsePoll::Event("[DONE]".to_string()),
        ]),
        vec![
            Ok(ResponseEvent::Created),
            Ok(opened()),
            Ok(delta("a")),
            stream_error("chat completions SSE stream error: broken pipe"),
        ]
    );
}

#[test]
fn payload_that_is_no_json_is_an_error() {
    let sent = run(vec![SsePoll::Event("nonsense".to_string()), SsePoll::Closed]);
    assert_eq!(sent.len(), 2);
    match &sent[1] {
        Err(ApiError::Stream(message)) => {
            assert!(message.starts_with("failed to parse chat completions chunk: "));
            assert!(message.len() > "failed to parse chat completions chunk: ".len());
        }
        Ok(_) => panic!("the payload was accepted"),
    }
}

#[test]
fn decoder_error_is_told_in_full() {
    let (stream, _) = ChatCompletionsStream::open();
    match stream.on_decoded(Err("expected value at line 1".to_string())) {
        SseAction::Fail { error } => assert_eq!(
            error,
            ApiError::Stream(
                "failed to parse chat completions chunk: expected value at line 1".to_string()
            )
        ),
        _ => panic!("the error was passed over"),
    }
}

#[test]
fn padded_end_marker_ends_the_stream() {
    let sent = run(vec![
        SsePoll::Event(" \t[DONE]\u{2003}\n".to_string()),
        SsePoll::Event(r#"{"id":"late"}"#.to_string()),
    ]);
    assert_eq!(
        sent,
        vec![
            Ok(ResponseEvent::Created),
            Ok(completed("chatcmpl_unknown", None)),
        ]
    );
}

#[test]
fn end_marker_must_be_exact() {
    let (stream, _) = ChatCompletionsStream::open();
    match stream.on_poll(SsePoll::Event("[DONE] x".to_string())) {
        SseAction::Decode { data, .. } => assert_eq!(data, "[DONE] x"),
        _ => panic!("the payload was taken for the end marker"),
    }
}

#[test]
fn blank_text_is_never_closed() {
    assert_eq!(
        run_json(&[r#"{"id":"r","choices":[{"delta":{"content":" \n"}}]}"#]),
        vec![
            ResponseEvent::Created,
            opened(),
            delta(" \n"),
            completed("r", None),
        ]
    );
}

#[test]
fn empty_content_opens_the_message() {
    assert_eq!(
        run_json(&[
            r#"{"choices":[{"delta":{"content":""}}]}"#,
            r#"{"choices":[{"delta":{"content":"x"}}]}"#,
        ]),
        vec![
            ResponseEvent::Created,
            opened(),
            delta(""),
            delta("x"),
            closed("x"),
            completed("chatcmpl_unknown", None),
        ]
    );
}

#[test]
fn first_id_and_last_usage_win() {
    let usage = TokenUsage {
        input_tokens: 7,
        cached_input_tokens: 4,
        output_tokens: 5,
        reasoning_output_tokens: 0,
        total_tokens: 12,
    };
    assert_eq!(
        run_json(&[
            r#"{"choices":[]}"#,
            r#"{"id":"first","usage":{"total_tokens":99}}"#,
            r#"{"id":"second","usage":{"prompt_tokens":7,"completion_tokens":5,"prompt_tokens_details":{"cached_tokens":4}}}"#,
            r#"{"id":"third","usage":null}"#,
        ]),
        vec![ResponseEvent::Created, completed("first", Some(usage))]
    );
}

#[test]
fn given_total_is_kept() {
    let usage = TokenUsage {
        input_tokens: 0,
        cached_input_tokens: 0,
        output_tokens: 0,
        reasoning_output_tokens: 0,
        total_tokens: 99,
    };
    assert_eq!(
        run_json(&[r#"{"id":"a","usage":{"total_tokens":99}}"#]),
        vec![ResponseEvent::Created, completed("a", Some(usage))]
    );
}

#[test]
fn only_the_first_choice_counts() {
    assert_eq!(
        run_json(&[
            r#"{"choices":[{"finish_reason":null},{"delta":{"content":"b"},"finish_reason":"tool_calls"}]}"#
        ]),
        vec![ResponseEvent::Created, completed("chatcmpl_unknown", None)]
    );
}

#[test]
fn tool_call_is_put_together_from_fragments() {
    assert_eq!(
        run_json(&[
            r#"{"choices":[{"delta":{"tool_calls":[{"index":0,"id":"call_a","function":{"name":"shell","arguments":"{\"cmd\""}}]}}]}"#,
            r#"{"choices":[{"delta":{"tool_calls":[{"index":0,"id":"call_b","function":{"name":"other","arguments":":1}"}}]}}]}"#,
            r#"{"choices":[{"delta":{},"finish_reason":"tool_calls"}]}"#,
        ]),
        vec![
            ResponseEvent::Created,
            call("shell", "{\"cmd\":1}", "call_a"),
            completed("chatcmpl_unknown", None),
        ]
    );
}

#[test]
fn tool_calls_come_by_ascending_index() {
    assert_eq!(
        run_json(&[
            r#"{"choices":[{"delta":{"tool_calls":[{"index":12,"id":"z","function":{"name":"f12"}},{"index":3,"id":"y","function":{"name":"f3","arguments":"b"}},{"index":12,"function":{"arguments":"c"}},{"id":"x","function":{"name":"f0"}}]},"finish_reason":"tool_calls"}]}"#,
        ]),
        vec![
            ResponseEvent::Created,
            call("f0", "", "x"),
            call("f3", "b", "y"),
            call("f12", "c", "z"),
            completed("chatcmpl_unknown", None),
        ]
    );
}

#[test]
fn pending_tool_calls_are_reported_at_the_end() {
    assert_eq!(
        run_json(&[
            r#"{"choices":[{"delta":{"content":"ok","tool_calls":[{"index":1}]},"finish_reason":"stop"}]}"#,
        ]),
        vec![
            ResponseEvent::Created,
            opened(),
            delta("ok"),
            call("unknown", "", "call_unknown"),
            closed("ok"),
            completed("chatcmpl_unknown", None),
        ]
    );
}

#[test]
fn reported_tool_calls_are_not_reported_again() {
    assert_eq!(
        run_json(&[
            r#"{"choices":[{"delta":{"tool_calls":[{"index":0,"id":"a","function":{"name":"f","arguments":"1"}}]},"finish_reason":"tool_calls"}]}"#,
            r#"{"choices":[{"delta":{"tool_calls":[{"index":0,"id":"b","function":{"name":"g","arguments":"2"}}]}}]}"#,
        ]),
        vec![
            ResponseEvent::Created,
            call("f", "1", "a"),
            call("g", "2", "b"),
            completed("chatcmpl_unknown", None),
        ]
    );
}

#[test]
fn usage_out_of_range_is_told_apart() {
    let usage = |prompt: i64, completion: i64, total: Option<i64>| ChatCompletionsStreamChunk {
        id: None,
        choices: None,
        usage: Some(ChatCompletionsUsage {
            prompt_tokens: Some(prompt),
            completion_tokens: Some(completion),
            total_tokens: total,
            prompt_tokens_details: None,
        }),
    };
    assert!(usage(i64::MAX, 0, None).has_usage_in_range());
    assert!(!usage(i64::MAX, 1, None).has_usage_in_range());
    assert!(usage(i64::MAX, 1, Some(5)).has_usage_in_range());
    assert!(!usage(i64::MIN, -1, None).has_usage_in_range());
    let none = ChatCompletionsStreamChunk {
        id: None,
        choices: None,
        usage: None,
    };
    assert!(none.has_usage_in_range());
}
