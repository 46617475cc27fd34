use ecodex::cif::{Content, FinishReason, Message, Request, StreamEvent, Tool, ToolCall};
use ecodex::json::Json;
use ecodex::json_serde::{parse_json, serialize_json};
use ecodex::{anthropic, chat, responses};
use serde_json::Value;

fn json(s: &str) -> Json {
    parse_json(s).expect("valid JSON")
}

fn value(j: &Json) -> Value {
    serde_json::from_str(&serialize_json(j).unwrap()).unwrap()
}

fn request(messages: Vec<Message>, tools: Vec<Tool>) -> Request {
    Request {
        model: "x".into(),
        system: None,
        messages,
        tools,
        temperature: None,
        max_output_tokens: None,
        stream: true,
    }
}

// ── Responses request parsing ──

#[test]
fn parses_basic_user_message() {
    let req = json(
        r#"{"model":"deepseek-chat","instructions":"be helpful","input":[{"type":"message","role":"user","content":[{"type":"input_text","text":"hello"}]}]}"#,
    );
    let cif = responses::parse_request(&req).unwrap();
    assert_eq!(cif.model, "deepseek-chat");
    assert_eq!(cif.system.as_deref(), Some("be helpful"));
    assert_eq!(cif.messages.len(), 1);
    match &cif.messages[0] {
        Message::User { content } => match &content[0] {
            Content::Text { text } => assert_eq!(text, "hello"),
            _ => panic!("expected text content"),
        },
        _ => panic!("expected user message"),
    }
}

#[test]
fn parses_function_call_output_to_tool_message() {
    let req = json(r#"{"model":"x","input":[{"type":"function_call_output","call_id":"c_1","output":"result"}]}"#);
    let cif = responses::parse_request(&req).unwrap();
    assert!(matches!(cif.messages[0], Message::Tool { .. }));
}

#[test]
fn request_without_model_or_input_is_refused() {
    assert_eq!(responses::parse_request(&json(r#"{"input":[]}"#)).unwrap_err(), responses::RequestError::MissingModel);
    assert_eq!(
        responses::parse_request(&json(r#"{"model":"m","input":{}}"#)).unwrap_err(),
        responses::RequestError::MissingInput
    );
    assert_eq!(
        responses::RequestError::MissingInput.message(),
        "Responses request missing or non-array 'input'"
    );
}

#[test]
fn request_fields_and_defaults() {
    let req = json(
        r#"{"model":"m","instructions":"","input":[{"type":"function_call","call_id":"c","name":"shell"},{"type":"reasoning","content":"r","summary":"s"},{"type":"other"},{"type":"function_call_output","call_id":"c","output":{"ok":true}}],"tools":[{"name":"t","parameters":{"type":"object"}},{"description":"no name"}],"temperature":0.5,"max_output_tokens":4294967297}"#,
    );
    let cif = responses::parse_request(&req).unwrap();
    assert!(cif.system.is_none());
    assert!(cif.stream);
    assert_eq!(cif.max_output_tokens, Some(1));
    assert_eq!(cif.messages.len(), 3);
    match &cif.messages[0] {
        Message::Assistant { tool_calls, content } => {
            assert!(content.is_empty());
            assert_eq!(tool_calls[0].arguments, "{}");
            assert_eq!(tool_calls[0].name, "shell");
        },
        _ => panic!("expected assistant"),
    }
    match &cif.messages[2] {
        Message::Tool { content, .. } => assert_eq!(content, "{\"ok\":true}"),
        _ => panic!("expected tool"),
    }
    assert_eq!(cif.tools.len(), 1);
    assert_eq!(value(cif.temperature.as_ref().unwrap()), Value::from(0.5));
}

// ── Chat Completions adapter ──

#[test]
fn encodes_system_and_user() {
    let mut req = request(vec![Message::User { content: vec![Content::Text { text: "hi".into() }] }], vec![]);
    req.system = Some("you are helpful".into());
    let body = value(&chat::encode_request(&req));
    assert_eq!(body["messages"][0]["role"], "system");
    assert_eq!(body["messages"][0]["content"], "you are helpful");
    assert_eq!(body["messages"][1]["role"], "user");
    assert_eq!(body["messages"][1]["content"], "hi");
    assert_eq!(body["stream"], true);
}

#[test]
fn encodes_tool_message_correctly() {
    let req = request(vec![Message::Tool { tool_call_id: "c_1".into(), content: "result".into() }], vec![]);
    let body = value(&chat::encode_request(&req));
    assert_eq!(body["messages"][0]["role"], "tool");
    assert_eq!(body["messages"][0]["tool_call_id"], "c_1");
    assert_eq!(body["messages"][0]["content"], "result");
}

#[test]
fn encodes_tools_array() {
    let req = request(
        vec![],
        vec![Tool { name: "shell".into(), description: Some("run shell".into()), parameters: json(r#"{"type":"object"}"#) }],
    );
    let body = value(&chat::encode_request(&req));
    assert_eq!(body["tools"][0]["type"], "function");
    assert_eq!(body["tools"][0]["function"]["name"], "shell");
}

#[test]
fn chat_assistant_with_tool_calls_and_no_text_has_null_content() {
    let req = request(
        vec![
            Message::Assistant {
                content: vec![Content::Text { text: "".into() }],
                tool_calls: vec![ToolCall { id: "a".into(), name: "exec".into(), arguments: "{}".into() }],
            },
            Message::Reasoning { content: "dropped".into(), summary: None },
        ],
        vec![],
    );
    let body = value(&chat::encode_request(&req));
    let msgs = body["messages"].as_array().unwrap();
    assert_eq!(msgs.len(), 1);
    assert!(msgs[0]["content"].is_null());
    assert_eq!(msgs[0]["tool_calls"][0]["function"]["name"], "exec");
    assert_eq!(msgs[0]["tool_calls"][0]["type"], "function");
}

#[test]
fn parses_text_delta_chunk() {
    let mut state = chat::ChunkState::default();
    let data = r#"{"id":"abc","choices":[{"delta":{"content":"Hi"}}]}"#;
    let events = chat::parse_chunk(data, &mut state).unwrap();
    assert_eq!(events.len(), 1);
    match &events[0] {
        StreamEvent::TextDelta { text } => assert_eq!(text, "Hi"),
        _ => panic!("expected text delta"),
    }
    assert_eq!(state.response_id.as_deref(), Some("abc"));
    assert_eq!(state.text, "Hi");
}

#[test]
fn assembles_tool_call_across_chunks() {
    let mut state = chat::ChunkState::default();
    let _ = chat::parse_chunk(
        r#"{"choices":[{"delta":{"tool_calls":[{"index":0,"id":"t_1","function":{"name":"shell"}}]}}]}"#,
        &mut state,
    )
    .unwrap();
    let _ = chat::parse_chunk(
        r#"{"choices":[{"delta":{"tool_calls":[{"index":0,"function":{"arguments":"{\"cmd\":\"ls"}}]}}]}"#,
        &mut state,
    )
    .unwrap();
    let _ = chat::parse_chunk(
        r#"{"choices":[{"delta":{"tool_calls":[{"index":0,"function":{"arguments":"\"}"}}]},"finish_reason":"tool_calls"}]}"#,
        &mut state,
    )
    .unwrap();
    let final_events = chat::parse_chunk("[DONE]", &mut state).unwrap();
    match &final_events[0] {
        StreamEvent::Completed { tool_calls, finish_reason, .. } => {
            assert_eq!(tool_calls.len(), 1);
            assert_eq!(tool_calls[0].id, "t_1");
            assert_eq!(tool_calls[0].name, "shell");
            assert_eq!(tool_calls[0].arguments, r#"{"cmd":"ls"}"#);
            assert!(matches!(finish_reason, FinishReason::ToolCalls));
        },
        _ => panic!("expected completed event"),
    }
}

#[test]
fn done_emits_completed_with_accumulated_text() {
    let mut state = chat::ChunkState {
        response_id: Some("r_1".into()),
        text: "hello world".into(),
        tool_calls: vec![],
        finish_reason: Some(FinishReason::Stop),
    };
    let events = chat::parse_chunk("[DONE]", &mut state).unwrap();
    match &events[0] {
        StreamEvent::Completed { text, response_id, .. } => {
            assert_eq!(text, "hello world");
            assert_eq!(response_id.as_deref(), Some("r_1"));
        },
        _ => panic!("expected completed event"),
    }
    assert!(state.text.is_empty());
}

#[test]
fn malformed_chat_chunk_is_refused_and_state_kept() {
    let mut state = chat::ChunkState::default();
    let err = chat::parse_chunk("  not json  ", &mut state).unwrap_err();
    assert_eq!(err, chat::ChunkError::Malformed("not json".into()));
    assert_eq!(err.message(), "malformed chat completion chunk: not json");
    assert!(state.response_id.is_none());
}

// ── Anthropic adapter ──

#[test]
fn encodes_system_separately_not_as_message() {
    let mut req = request(vec![Message::User { content: vec![Content::Text { text: "hi".into() }] }], vec![]);
    req.system = Some("be helpful".into());
    req.max_output_tokens = Some(1024);
    let body = value(&anthropic::encode_request(&req));
    assert_eq!(body["system"], "be helpful");
    assert_eq!(body["max_tokens"], 1024);
    assert_eq!(body["messages"].as_array().unwrap().len(), 1);
    assert_eq!(body["messages"][0]["role"], "user");
    assert_eq!(body["messages"][0]["content"][0]["type"], "text");
}

#[test]
fn encodes_tools_with_input_schema() {
    let req = request(
        vec![],
        vec![Tool {
            name: "shell".into(),
            description: Some("run shell".into()),
            parameters: json(r#"{"type":"object","properties":{}}"#),
        }],
    );
    let body = value(&anthropic::encode_request(&req));
    assert_eq!(body["tools"][0]["name"], "shell");
    assert_eq!(body["tools"][0]["input_schema"]["type"], "object");
    assert!(body["tools"][0].get("parameters").is_none());
    assert_eq!(body["max_tokens"], 4096);
}

#[test]
fn tool_message_becomes_user_with_tool_result_block() {
    let req = request(vec![Message::Tool { tool_call_id: "t_1".into(), content: "result".into() }], vec![]);
    let body = value(&anthropic::encode_request(&req));
    assert_eq!(body["messages"][0]["role"], "user");
    assert_eq!(body["messages"][0]["content"][0]["type"], "tool_result");
    assert_eq!(body["messages"][0]["content"][0]["tool_use_id"], "t_1");
    assert_eq!(body["messages"][0]["content"][0]["content"], "result");
}

#[test]
fn parallel_tool_calls_merge_into_one_assistant_then_one_user() {
    let mut req = request(
        vec![
            Message::User { content: vec![Content::Text { text: "do two things".into() }] },
            Message::Assistant {
                content: vec![],
                tool_calls: vec![ToolCall { id: "tool_a".into(), name: "exec".into(), arguments: "{}".into() }],
            },
            Message::Assistant {
                content: vec![],
                tool_calls: vec![ToolCall { id: "tool_b".into(), name: "exec".into(), arguments: "{}".into() }],
            },
            Message::Tool { tool_call_id: "tool_a".into(), content: "result-a".into() },
            Message::Tool { tool_call_id: "tool_b".into(), content: "result-b".into() },
        ],
        vec![],
    );
    req.stream = false;
    let body = value(&anthropic::encode_request(&req));
    let messages = body["messages"].as_array().expect("messages array");
    assert_eq!(messages.len(), 3, "merge must collapse consecutive same-role messages; got {} messages", messages.len());
    assert_eq!(messages[0]["role"], "user");
    assert_eq!(messages[0]["content"][0]["type"], "text");
    assert_eq!(messages[1]["role"], "assistant");
    let asst_blocks = messages[1]["content"].as_array().unwrap();
    assert_eq!(asst_blocks.len(), 2, "merged assistant must hold both tool_use blocks");
    assert_eq!(asst_blocks[0]["type"], "tool_use");
    assert_eq!(asst_blocks[0]["id"], "tool_a");
    assert_eq!(asst_blocks[1]["type"], "tool_use");
    assert_eq!(asst_blocks[1]["id"], "tool_b");
    assert_eq!(messages[2]["role"], "user");
    let user_blocks = messages[2]["content"].as_array().unwrap();
    assert_eq!(user_blocks.len(), 2, "merged user must hold both tool_result blocks");
    assert_eq!(user_blocks[0]["type"], "tool_result");
    assert_eq!(user_blocks[0]["tool_use_id"], "tool_a");
    assert_eq!(user_blocks[0]["content"], "result-a");
    assert_eq!(user_blocks[1]["type"], "tool_result");
    assert_eq!(user_blocks[1]["tool_use_id"], "tool_b");
    assert_eq!(user_blocks[1]["content"], "result-b");
}

#[test]
fn merge_does_not_collapse_across_role_boundaries() {
    let req = request(
        vec![
            Message::User { content: vec![Content::Text { text: "hi".into() }] },
            Message::Assistant { content: vec![Content::Text { text: "hello".into() }], tool_calls: vec![] },
            Message::User { content: vec![Content::Text { text: "more".into() }] },
            Message::Assistant { content: vec![Content::Text { text: "ok".into() }], tool_calls: vec![] },
        ],
        vec![],
    );
    let body = value(&anthropic::encode_request(&req));
    let messages = body["messages"].as_array().unwrap();
    assert_eq!(messages.len(), 4, "no merging when roles alternate");
    assert_eq!(messages[0]["role"], "user");
    assert_eq!(messages[1]["role"], "assistant");
    assert_eq!(messages[2]["role"], "user");
    assert_eq!(messages[3]["role"], "assistant");
}

#[test]
fn empty_assistant_turn_is_dropped_and_tool_arguments_become_input() {
    let req = request(
        vec![
            Message::User { content: vec![Content::Text { text: "a".into() }] },
            Message::Assistant { content: vec![Content::Text { text: "".into() }], tool_calls: vec![] },
            Message::User { content: vec![Content::Text { text: "b".into() }] },
            Message::Assistant {
                content: vec![],
                tool_calls: vec![ToolCall { id: "t".into(), name: "n".into(), arguments: "not json".into() }],
            },
            Message::Reasoning { content: "think".into(), summary: None },
        ],
        vec![],
    );
    let body = value(&anthropic::encode_request(&req));
    let messages = body["messages"].as_array().unwrap();
    assert_eq!(messages.len(), 2);
    assert_eq!(messages[0]["content"].as_array().unwrap().len(), 2);
    assert_eq!(messages[1]["content"][0]["input"], serde_json::Value::Object(serde_json::Map::new()));
    assert_eq!(messages[1]["content"][1]["type"], "thinking");
}

#[test]
fn parses_message_start_captures_id() {
    let mut state = anthropic::ChunkState::default();
    let _ = anthropic::parse_chunk(r#"{"type":"message_start","message":{"id":"msg_abc"}}"#, &mut state).unwrap();
    assert_eq!(state.response_id.as_deref(), Some("msg_abc"));
}

#[test]
fn parses_text_delta_stream() {
    let mut state = anthropic::ChunkState::default();
    let _ = anthropic::parse_chunk(
        r#"{"type":"content_block_start","index":0,"content_block":{"type":"text","text":""}}"#,
        &mut state,
    )
    .unwrap();
    let events = anthropic::parse_chunk(
        r#"{"type":"content_block_delta","index":0,"delta":{"type":"text_delta","text":"Hi"}}"#,
        &mut state,
    )
    .unwrap();
    match &events[0] {
        StreamEvent::TextDelta { text } => assert_eq!(text, "Hi"),
        _ => panic!("expected text delta"),
    }
    assert_eq!(state.text, "Hi");
}

#[test]
fn assembles_tool_use_block_across_chunks() {
    let mut state = anthropic::ChunkState::default();
    let _ = anthropic::parse_chunk(
        r#"{"type":"content_block_start","index":0,"content_block":{"type":"tool_use","id":"t_1","name":"shell"}}"#,
        &mut state,
    )
    .unwrap();
    let _ = anthropic::parse_chunk(
        r#"{"type":"content_block_delta","index":0,"delta":{"type":"input_json_delta","partial_json":"{\"cmd\":\"l"}}"#,
        &mut state,
    )
    .unwrap();
    let _ = anthropic::parse_chunk(
        r#"{"type":"content_block_delta","index":0,"delta":{"type":"input_json_delta","partial_json":"s\"}"}}"#,
        &mut state,
    )
    .unwrap();
    let _ = anthropic::parse_chunk(r#"{"type":"message_delta","delta":{"stop_reason":"tool_use"}}"#, &mut state).unwrap();
    let final_events = anthropic::parse_chunk(r#"{"type":"message_stop"}"#, &mut state).unwrap();
    match &final_events[0] {
        StreamEvent::Completed { tool_calls, finish_reason, .. } => {
            assert_eq!(tool_calls.len(), 1);
            assert_eq!(tool_calls[0].id, "t_1");
            assert_eq!(tool_calls[0].name, "shell");
            assert_eq!(tool_calls[0].arguments, r#"{"cmd":"ls"}"#);
            assert!(matches!(finish_reason, FinishReason::ToolCalls));
        },
        _ => panic!("expected completed event"),
    }
}

#[test]
fn thinking_delta_emits_reasoning_event() {
    let mut state = anthropic::ChunkState::default();
    let _ = anthropic::parse_chunk(
        r#"{"type":"content_block_start","index":0,"content_block":{"type":"thinking","thinking":""}}"#,
        &mut state,
    )
    .unwrap();
    let events = anthropic::parse_chunk(
        r#"{"type":"content_block_delta","index":0,"delta":{"type":"thinking_delta","thinking":"hmm"}}"#,
        &mut state,
    )
    .unwrap();
    match &events[0] {
        StreamEvent::ReasoningDelta { text } => assert_eq!(text, "hmm"),
        _ => panic!("expected reasoning delta"),
    }
}

#[test]
fn anthropic_errors_and_stop_reasons() {
    let mut state = anthropic::ChunkState::default();
    assert_eq!(anthropic::parse_chunk("{oops", &mut state).unwrap_err(), anthropic::ChunkError::Malformed("{oops".into()));
    assert_eq!(anthropic::parse_chunk(r#"{"x":1}"#, &mut state).unwrap_err(), anthropic::ChunkError::MissingType);
    let events = anthropic::parse_chunk(r#"{"type":"error","error":{"message":"overloaded"}}"#, &mut state).unwrap();
    assert!(matches!(&events[0], StreamEvent::Error { message } if message == "overloaded"));
    let events = anthropic::parse_chunk(r#"{"type":"error"}"#, &mut state).unwrap();
    assert!(matches!(&events[0], StreamEvent::Error { message } if message == "anthropic stream error"));
    assert!(anthropic::parse_chunk(r#"{"type":"ping"}"#, &mut state).unwrap().is_empty());
    assert!(matches!(anthropic::map_anthropic_stop_reason("end_turn"), FinishReason::Stop));
    assert!(matches!(anthropic::map_anthropic_stop_reason("max_tokens"), FinishReason::Length));
    assert!(matches!(anthropic::map_anthropic_stop_reason("pause"), FinishReason::Other(s) if s == "pause"));
}

#[test]
fn anthropic_completed_text_is_all_streamed_text() {
    let mut state = anthropic::ChunkState::default();
    for t in ["Hel", "lo"] {
        let payload = format!(r#"{{"type":"content_block_delta","index":0,"delta":{{"type":"text_delta","text":"{t}"}}}}"#);
        let _ = anthropic::parse_chunk(&payload, &mut state).unwrap();
    }
    let events = anthropic::parse_chunk(r#"{"type":"message_stop"}"#, &mut state).unwrap();
    match &events[0] {
        StreamEvent::Completed { text, tool_calls, finish_reason, .. } => {
            assert_eq!(text, "Hello");
            assert!(tool_calls.is_empty());
            assert!(matches!(finish_reason, FinishReason::Stop));
        },
        _ => panic!("expected completed"),
    }
    assert!(state.text.is_empty());
}
