use ecodex::cif::StreamEvent;
use ecodex::json::Json;
use ecodex::json_serde::serialize_json;
use ecodex::relay::{
    chunk_frame, classify_request, healthz_body, last_chunk, request_model, unmatched_model_message, upstream_auth,
    RelayError, RelaySession, RequestKind, UpstreamAuth,
};
use ecodex::server::UpstreamProtocol;
use ecodex::upstreams::{Upstream, UpstreamRouter};

fn upstream(name: &str, pattern: &str, protocol: UpstreamProtocol) -> Upstream {
    Upstream {
        name: name.to_string(),
        model_match: pattern.to_string(),
        base_url: "https://example.test/v1/".to_string(),
        protocol,
        api_key: Some("k".to_string()),
    }
}

#[test]
fn requests_are_classified() {
    assert_eq!(classify_request("GET", "/healthz"), RequestKind::Healthz);
    assert_eq!(classify_request("POST", "/v1/responses"), RequestKind::Translate);
    assert_eq!(classify_request("POST", "/responses"), RequestKind::Translate);
    assert_eq!(classify_request("GET", "/v1/responses"), RequestKind::NotFound);
    assert_eq!(classify_request("POST", "/healthz"), RequestKind::NotFound);
}

#[test]
fn healthz_lists_upstreams() {
    let router = UpstreamRouter::new(vec![
        upstream("kimi", "kimi-*", UpstreamProtocol::Anthropic),
        upstream("default", "*", UpstreamProtocol::Chat),
    ]);
    let text = serialize_json(&healthz_body(&router)).unwrap();
    assert_eq!(
        text,
        r#"{"status":"ok","upstreams":[{"model_match":"kimi-*","name":"kimi","protocol":"anthropic"},{"model_match":"*","name":"default","protocol":"chat"}]}"#
    );
}

#[test]
fn model_defaults_to_empty() {
    let body = Json::Object(vec![("model".to_string(), Json::Str("gpt-x".to_string()))]);
    assert_eq!(request_model(&body), "gpt-x");
    assert_eq!(request_model(&Json::Object(vec![])), "");
    let numeric = Json::Object(vec![("model".to_string(), Json::Int(3))]);
    assert_eq!(request_model(&numeric), "");
}

#[test]
fn unmatched_model_names_the_upstreams() {
    let router = UpstreamRouter::new(vec![
        upstream("a", "a-*", UpstreamProtocol::Chat),
        upstream("b", "b-*", UpstreamProtocol::Chat),
    ]);
    assert_eq!(
        unmatched_model_message("zzz", &router),
        "no upstream matches model `zzz` — configured upstreams: [\"a\", \"b\"]"
    );
}

#[test]
fn auth_follows_protocol() {
    let key = Some("sk".to_string());
    assert_eq!(upstream_auth(UpstreamProtocol::Chat, &key), Some(UpstreamAuth::Bearer("sk".to_string())));
    assert_eq!(
        upstream_auth(UpstreamProtocol::Anthropic, &key),
        Some(UpstreamAuth::ApiKey { key: "sk".to_string(), version: "2023-06-01".to_string() })
    );
    assert_eq!(upstream_auth(UpstreamProtocol::Chat, &None), None);
}

#[test]
fn chunks_are_framed_in_uppercase_hex() {
    assert_eq!(chunk_frame(b"hello"), b"5\r\nhello\r\n".to_vec());
    let data = vec![b'x'; 26];
    let framed = chunk_frame(&data);
    assert!(framed.starts_with(b"1A\r\n"));
    assert!(framed.ends_with(b"x\r\n"));
    assert_eq!(framed.len(), 4 + 26 + 2);
    assert_eq!(chunk_frame(b""), b"0\r\n\r\n".to_vec());
    assert_eq!(last_chunk(), b"0\r\n\r\n".to_vec());
}

#[test]
fn chat_stream_is_relayed() {
    let mut s = RelaySession::new(UpstreamProtocol::Chat);
    let skip = s.relay_line(": keep-alive").unwrap();
    assert!(skip.events.is_empty() && skip.frames.is_empty());
    let out = s.relay_line(r#"data:{"id":"r1","choices":[{"delta":{"content":"Hé!"}}]}"#).unwrap();
    assert_eq!(out.events.len(), 1);
    assert_eq!(out.frames.len(), 2);
    let added = String::from_utf8(out.frames[0].clone()).unwrap();
    assert!(added.starts_with("event: response.output_item.added\n"));
    assert_eq!(s.text_chars(), 3);
    let done = s.relay_line("data: [DONE]").unwrap();
    assert!(matches!(done.events.last(), Some(StreamEvent::Completed { .. })));
    let last = String::from_utf8(done.frames.last().unwrap().clone()).unwrap();
    assert!(last.starts_with("event: response.completed\n"));
    assert_eq!(s.tool_calls_count(), 0);
}

#[test]
fn malformed_payload_is_refused() {
    let mut s = RelaySession::new(UpstreamProtocol::Chat);
    assert!(matches!(s.relay_line("data: {not json"), Err(RelayError::Chat(_))));
    let mut a = RelaySession::new(UpstreamProtocol::Anthropic);
    assert!(matches!(a.relay_line("data: {\"x\":1}"), Err(RelayError::Anthropic(_))));
}
