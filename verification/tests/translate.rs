use ecodex::json::Json;
use ecodex::json_serde::{parse_json, serialize_json};
use ecodex::translate::{chat_chunk_to_responses_sse, responses_to_chat_request, translate_input_item, StreamState, TranslateError};

fn json(s: &str) -> Json {
    parse_json(s).expect("valid json")
}

fn member<'a>(j: &'a Json, k: &str) -> &'a Json {
    j.get(k).expect("member")
}

fn string(j: &Json) -> &str {
    match j {
        Json::Str(s) => s.as_str(),
        other => panic!("not a string: {other:?}"),
    }
}

fn items(j: &Json) -> &Vec<Json> {
    match j {
        Json::Array(v) => v,
        other => panic!("not an array: {other:?}"),
    }
}

#[test]
fn instructions_become_system_message() {
    let req = json(
        r#"{"model":"deepseek-chat","instructions":"you are helpful","input":[{"type":"message","role":"user","content":[{"type":"input_text","text":"hi"}]}]}"#,
    );
    let chat = responses_to_chat_request(&req).unwrap();
    let messages = items(member(&chat, "messages"));
    assert_eq!(string(member(&messages[0], "role")), "system");
    assert_eq!(string(member(&messages[0], "content")), "you are helpful");
    assert_eq!(string(member(&messages[1], "role")), "user");
    assert_eq!(string(member(&messages[1], "content")), "hi");
}

#[test]
fn function_call_output_maps_to_tool_message() {
    let req = json(r#"{"model":"x","input":[{"type":"function_call_output","call_id":"c_42","output":"result"}]}"#);
    let chat = responses_to_chat_request(&req).unwrap();
    let m = &items(member(&chat, "messages"))[0];
    assert_eq!(string(member(m, "role")), "tool");
    assert_eq!(string(member(m, "tool_call_id")), "c_42");
    assert_eq!(string(member(m, "content")), "result");
}

#[test]
fn text_delta_chunk_translates() {
    let mut state = StreamState::default();
    let chunk = r#"{"id":"abc","choices":[{"delta":{"content":"Hel"}}]}"#;
    let bytes = chat_chunk_to_responses_sse(chunk, &mut state).unwrap();
    let s = String::from_utf8(bytes).unwrap();
    assert!(s.contains("response.output_text.delta"));
    assert!(s.contains("\"delta\":\"Hel\""));
    assert_eq!(state.response_id, "abc");
    assert_eq!(state.accumulated_text, "Hel");
}

#[test]
fn done_sentinel_emits_completed_event() {
    let mut state = StreamState { response_id: "xyz".into(), accumulated_text: "hello world".into() };
    let bytes = chat_chunk_to_responses_sse("[DONE]", &mut state).unwrap();
    let s = String::from_utf8(bytes).unwrap();
    assert!(s.contains("response.completed"));
    assert!(s.contains("hello world"));
}

#[test]
fn request_fields_pass_through_and_errors() {
    let req = json(r#"{"model":"m","input":[{"type":"reasoning"},{"type":"function_call","call_id":"c","name":"f"}],"stream":false,"tools":[],"max_output_tokens":9}"#);
    let chat = responses_to_chat_request(&req).unwrap();
    let text = serialize_json(&chat).unwrap();
    assert!(text.contains("\"stream\":false"));
    assert!(text.contains("\"max_tokens\":9"));
    assert!(text.contains("\"tools\":[]"));
    assert!(text.contains("\"arguments\":\"{}\""));
    assert_eq!(items(member(&chat, "messages")).len(), 1);
    assert_eq!(responses_to_chat_request(&json(r#"{"input":[]}"#)).unwrap_err(), TranslateError::MissingModel);
    assert_eq!(responses_to_chat_request(&json(r#"{"model":"m"}"#)).unwrap_err(), TranslateError::MissingInput);
    assert_eq!(TranslateError::MissingInput.message(), "Responses request missing or non-array 'input'");
    let out = translate_input_item(&json(r#"{"type":"function_call_output","output":{"a":1}}"#)).unwrap();
    assert_eq!(string(member(&out, "content")), "{\"a\":1}");
}

#[test]
fn malformed_chunk_and_tool_deltas() {
    let mut state = StreamState::default();
    let err = chat_chunk_to_responses_sse("{oops", &mut state).unwrap_err();
    assert_eq!(err.message(), "malformed chat completion chunk: {oops");
    let bytes = chat_chunk_to_responses_sse(r#"{"choices":[{"delta":{"tool_calls":[{"index":0},{"index":1}]}}]}"#, &mut state).unwrap();
    let s = String::from_utf8(bytes).unwrap();
    assert_eq!(s.matches("event: response.function_call.delta\n").count(), 2);
    assert_eq!(state.response_id, "");
}
