use ecodex::cif::{FinishReason, StreamEvent, ToolCall};
use ecodex::responses::{encode_event, encode_events, EncoderState};

fn text(frames: &[Vec<u8>]) -> Vec<String> {
    frames.iter().map(|f| String::from_utf8(f.clone()).unwrap()).collect()
}

#[test]
fn encodes_text_delta_as_responses_sse() {
    let bytes = encode_event(&StreamEvent::TextDelta { text: "Hi".into() }).unwrap();
    let s = String::from_utf8(bytes).unwrap();
    assert!(s.starts_with("event: response.output_text.delta\n"));
    assert!(s.contains("\"delta\":\"Hi\""));
}

#[test]
fn encodes_completed_event() {
    let bytes = encode_event(&StreamEvent::Completed {
        text: "done".into(),
        tool_calls: vec![],
        finish_reason: FinishReason::Stop,
        response_id: Some("r_1".into()),
    })
    .unwrap();
    let s = String::from_utf8(bytes).unwrap();
    assert!(s.contains("response.completed"));
    assert!(s.contains("\"finish_reason\":\"stop\""));
    assert!(s.contains("\"id\":\"r_1\""));
}

#[test]
fn encode_events_wraps_text_deltas_with_open_close_item_envelope() {
    let mut state = EncoderState::default();

    let frames_a = encode_events(&StreamEvent::TextDelta { text: "Hello".into() }, &mut state);
    let frames_b = encode_events(&StreamEvent::TextDelta { text: " world".into() }, &mut state);
    let frames_c = encode_events(
        &StreamEvent::Completed {
            text: "Hello world".into(),
            tool_calls: vec![],
            finish_reason: FinishReason::Stop,
            response_id: Some("r-1".into()),
        },
        &mut state,
    );
    let a = text(&frames_a);
    let b = text(&frames_b);
    let c = text(&frames_c);

    assert_eq!(a.len(), 2, "first text-delta must emit item.added + delta");
    assert!(a[0].starts_with("event: response.output_item.added\n"), "first frame must be item.added; got: {}", a[0]);
    assert!(
        a[0].contains("\"type\":\"message\"") && a[0].contains("\"role\":\"assistant\""),
        "item.added must declare an assistant message item; got: {}",
        a[0]
    );
    assert!(a[1].starts_with("event: response.output_text.delta\n"), "second frame must be text.delta; got: {}", a[1]);

    assert_eq!(b.len(), 1, "subsequent text-delta must emit only the delta");
    assert!(b[0].starts_with("event: response.output_text.delta\n"));

    assert_eq!(c.len(), 2, "completed must emit item.done + response.completed");
    assert!(c[0].starts_with("event: response.output_item.done\n"), "first frame must be item.done; got: {}", c[0]);
    assert!(c[0].contains("\"text\":\"Hello world\""), "item.done must carry the full accumulated text; got: {}", c[0]);
    assert!(c[1].starts_with("event: response.completed\n"), "second frame must be response.completed; got: {}", c[1]);

    assert!(state.open_item_id().is_none(), "Completed must close out the message item from state");
}

#[test]
fn encode_events_no_orphan_item_done_when_no_text() {
    let mut state = EncoderState::default();
    let frames = encode_events(
        &StreamEvent::Completed {
            text: "".into(),
            tool_calls: vec![],
            finish_reason: FinishReason::Stop,
            response_id: Some("r-2".into()),
        },
        &mut state,
    );
    assert_eq!(frames.len(), 1);
    let s = String::from_utf8(frames[0].clone()).unwrap();
    assert!(s.starts_with("event: response.completed\n"));
}

#[test]
fn encode_events_emits_lifecycle_for_each_tool_call_before_completed() {
    let mut state = EncoderState::default();
    let frames = encode_events(
        &StreamEvent::Completed {
            text: "".into(),
            tool_calls: vec![
                ToolCall { id: "tool_aaa".into(), name: "exec_command".into(), arguments: "{\"cmd\":\"ls\"}".into() },
                ToolCall { id: "tool_bbb".into(), name: "exec_command".into(), arguments: "{\"cmd\":\"pwd\"}".into() },
            ],
            finish_reason: FinishReason::ToolCalls,
            response_id: Some("r-3".into()),
        },
        &mut state,
    );
    let s = text(&frames);
    assert_eq!(s.len(), 5, "tool-only stream with 2 tool_calls must emit 5 frames (added+done per call + completed); got {}", s.len());
    assert!(s[0].starts_with("event: response.output_item.added\n"), "frame 0 must be added; got: {}", s[0]);
    assert!(s[0].contains("\"type\":\"function_call\""), "frame 0 must declare function_call item; got: {}", s[0]);
    assert!(s[0].contains("\"call_id\":\"tool_aaa\""), "frame 0 must carry call_id; got: {}", s[0]);
    assert!(s[0].contains("\"name\":\"exec_command\""), "frame 0 must carry name; got: {}", s[0]);
    assert!(s[1].starts_with("event: response.output_item.done\n"), "frame 1 must be done; got: {}", s[1]);
    assert!(s[1].contains("\"call_id\":\"tool_aaa\""));
    assert!(s[1].contains("\"arguments\":\"{\\\"cmd\\\":\\\"ls\\\"}\""), "frame 1 must carry full arguments; got: {}", s[1]);
    assert!(s[2].starts_with("event: response.output_item.added\n") && s[2].contains("tool_bbb"));
    assert!(s[3].starts_with("event: response.output_item.done\n") && s[3].contains("tool_bbb") && s[3].contains("pwd"));
    assert!(s[4].starts_with("event: response.completed\n"), "frame 4 must be response.completed; got: {}", s[4]);
    assert!(s[4].contains("\"finish_reason\":\"tool_calls\""));
}

#[test]
fn encode_events_mixed_text_and_tools_orders_message_first_then_tools() {
    let mut state = EncoderState::default();
    let _ = encode_events(&StreamEvent::TextDelta { text: "Running...".into() }, &mut state);
    let frames = encode_events(
        &StreamEvent::Completed {
            text: "Running...".into(),
            tool_calls: vec![ToolCall {
                id: "tool_ccc".into(),
                name: "shell".into(),
                arguments: "{\"cmd\":\"echo hi\"}".into(),
            }],
            finish_reason: FinishReason::ToolCalls,
            response_id: Some("r-4".into()),
        },
        &mut state,
    );
    let s = text(&frames);
    assert_eq!(s.len(), 4, "expected 4 frames (msg.done + tool.added + tool.done + completed); got {}", s.len());
    assert!(s[0].starts_with("event: response.output_item.done\n") && s[0].contains("\"type\":\"message\""), "frame 0 must close the message item: {}", s[0]);
    assert!(s[1].starts_with("event: response.output_item.added\n") && s[1].contains("\"type\":\"function_call\""), "frame 1 must open the tool: {}", s[1]);
    assert!(s[2].starts_with("event: response.output_item.done\n") && s[2].contains("\"type\":\"function_call\""), "frame 2 must close the tool: {}", s[2]);
    assert!(s[3].starts_with("event: response.completed\n"), "frame 3 must be completed: {}", s[3]);
}

#[test]
fn empty_text_delta_emits_nothing_and_opens_nothing() {
    let mut state = EncoderState::default();
    let frames = encode_events(&StreamEvent::TextDelta { text: "".into() }, &mut state);
    assert!(frames.is_empty());
    assert!(state.open_item_id().is_none());
    assert!(encode_event(&StreamEvent::TextDelta { text: "".into() }).is_none());
}

#[test]
fn message_ids_count_up_per_opened_item() {
    let mut state = EncoderState::default();
    let first = text(&encode_events(&StreamEvent::TextDelta { text: "a".into() }, &mut state));
    assert!(first[0].contains("\"id\":\"msg-1\""), "{}", first[0]);
    assert_eq!(state.open_item_id().map(String::as_str), Some("msg-1"));
    let _ = encode_events(
        &StreamEvent::Completed { text: "".into(), tool_calls: vec![], finish_reason: FinishReason::Stop, response_id: None },
        &mut state,
    );
    let second = text(&encode_events(&StreamEvent::TextDelta { text: "b".into() }, &mut state));
    assert!(second[0].contains("\"id\":\"msg-2\""), "{}", second[0]);
    assert_eq!(state.message_seq(), 2);
}

#[test]
fn completed_without_text_closes_with_streamed_text() {
    let mut state = EncoderState::default();
    let _ = encode_events(&StreamEvent::TextDelta { text: "part one".into() }, &mut state);
    let done = text(&encode_events(
        &StreamEvent::Completed { text: "".into(), tool_calls: vec![], finish_reason: FinishReason::Length, response_id: None },
        &mut state,
    ));
    assert!(done[0].contains("\"text\":\"part one\""), "{}", done[0]);
    assert!(done[1].contains("\"finish_reason\":\"length\""), "{}", done[1]);
    assert!(done[1].contains("\"id\":\"\""), "{}", done[1]);
}

#[test]
fn tool_call_delta_carries_only_present_fields() {
    let s = String::from_utf8(
        encode_event(&StreamEvent::ToolCallDelta {
            index: 3,
            id: Some("call_1".into()),
            name: None,
            arguments_delta: Some("{\"a\"".into()),
        })
        .unwrap(),
    )
    .unwrap();
    assert!(s.starts_with("event: response.function_call.delta\n"));
    assert!(s.contains("\"index\":3"));
    assert!(s.contains("\"id\":\"call_1\""));
    assert!(!s.contains("\"name\""));
    assert!(s.contains("\"arguments_delta\":\"{\\\"a\\\"\""));
}

#[test]
fn reasoning_and_error_events_each_emit_one_frame() {
    let r = String::from_utf8(encode_event(&StreamEvent::ReasoningDelta { text: "think".into() }).unwrap()).unwrap();
    assert_eq!(r, "event: response.reasoning.delta\ndata: {\"delta\":\"think\",\"type\":\"response.reasoning.delta\"}\n\n");
    let e = String::from_utf8(encode_event(&StreamEvent::Error { message: "boom".into() }).unwrap()).unwrap();
    assert_eq!(e, "event: response.error\ndata: {\"message\":\"boom\",\"type\":\"response.error\"}\n\n");
}

#[test]
fn other_finish_reason_is_written_verbatim() {
    let s = String::from_utf8(
        encode_event(&StreamEvent::Completed {
            text: "x".into(),
            tool_calls: vec![],
            finish_reason: FinishReason::from_chat_str("end_turn"),
            response_id: None,
        })
        .unwrap(),
    )
    .unwrap();
    assert!(s.contains("\"finish_reason\":\"end_turn\""));
}

#[test]
fn second_message_item_closes_with_its_own_text() {
    let mut state = EncoderState::default();
    let completed = |text: &str| StreamEvent::Completed {
        text: text.into(),
        tool_calls: vec![],
        finish_reason: FinishReason::Stop,
        response_id: None,
    };
    encode_events(&StreamEvent::TextDelta { text: "Hello".into() }, &mut state);
    encode_events(&StreamEvent::TextDelta { text: " world".into() }, &mut state);
    encode_events(&completed("Hello world"), &mut state);
    encode_events(&StreamEvent::TextDelta { text: "a".into() }, &mut state);
    let frames = text(&encode_events(&completed(""), &mut state));
    assert_eq!(frames.len(), 2);
    assert!(frames[0].starts_with("event: response.output_item.done\n"));
    assert!(frames[0].contains("\"id\":\"msg-2\""));
    assert!(frames[0].contains("\"text\":\"a\""));
    assert!(!frames[0].contains("Hello"));
    assert!(frames[1].starts_with("event: response.completed\n"));
}
