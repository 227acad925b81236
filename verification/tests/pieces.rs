use std::collections::BTreeMap;

use chat_completions::chunk::{ChatCompletionsToolCallDelta, ChatCompletionsToolFunctionDelta};
use chat_completions::event::{ResponseEvent, ResponseItem};
use chat_completions::pending::{add_fragment, emit_pending_tool_calls, PendingToolCall};
use chat_completions::text::{is_blank, is_done_marker, message_id};

fn is_white_space(c: char) -> bool {
    matches!(
        c,
        '\u{9}'..='\u{d}'
            | ' '
            | '\u{85}'
            | '\u{a0}'
            | '\u{1680}'
            | '\u{2000}'..='\u{200a}'
            | '\u{2028}'
            | '\u{2029}'
            | '\u{202f}'
            | '\u{205f}'
            | '\u{3000}'
    )
}

#[test]
fn every_character_is_blank_or_not() {
    let mut count = 0;
    for c in '\u{0}'..=char::MAX {
        let blank = is_blank(&c.to_string());
        assert_eq!(blank, is_white_space(c), "{:?}", c);
        if blank {
            count += 1;
        }
    }
    assert_eq!(count, 25);
}

#[test]
fn white_space_inside_does_not_make_blank() {
    assert!(is_blank(""));
    assert!(is_blank(" \u{3000}\r\n"));
    assert!(!is_blank("  a  "));
}

#[test]
fn end_marker_may_be_padded() {
    assert!(is_done_marker("[DONE]"));
    assert!(is_done_marker("\u{2028} [DONE]\t"));
    assert!(!is_done_marker(""));
    assert!(!is_done_marker("[done]"));
    assert!(!is_done_marker("[ DONE]"));
    assert!(!is_done_marker("[DONE][DONE]"));
    assert!(!is_done_marker("\u{200b}[DONE]"));
}

#[test]
fn message_ids_are_decimal() {
    assert_eq!(message_id(0), "msg_0");
    assert_eq!(message_id(1), "msg_1");
    assert_eq!(message_id(10), "msg_10");
    assert_eq!(message_id(u64::MAX), "msg_18446744073709551615");
}

#[test]
fn fragments_join_by_index() {
    let fragment = |index: Option<usize>, id: Option<&str>, arguments: &str| {
        ChatCompletionsToolCallDelta {
            index,
            id: id.map(str::to_string),
            function: Some(ChatCompletionsToolFunctionDelta {
                name: None,
                arguments: Some(arguments.to_string()),
            }),
        }
    };
    let mut pending: BTreeMap<usize, PendingToolCall> = BTreeMap::new();
    add_fragment(&mut pending, &fragment(Some(usize::MAX), None, "a"));
    add_fragment(&mut pending, &fragment(None, Some("zero"), "x"));
    add_fragment(&mut pending, &fragment(Some(usize::MAX), Some("top"), "b"));
    assert_eq!(pending.len(), 2);
    assert_eq!(pending[&0].arguments, "x");
    assert_eq!(pending[&usize::MAX].arguments, "ab");
    assert_eq!(pending[&usize::MAX].id, Some("top".to_string()));
    let ids: Vec<String> = emit_pending_tool_calls(&pending)
        .into_iter()
        .map(|event| match event {
            ResponseEvent::OutputItemDone(ResponseItem::FunctionCall { call_id, .. }) => call_id,
            _ => panic!("not a tool call"),
        })
        .collect();
    assert_eq!(ids, vec!["zero".to_string(), "top".to_string()]);
}
