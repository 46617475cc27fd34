use ecodex::server::{ProtocolError, ServerConfig, UpstreamProtocol};
use ecodex::upstreams::{glob_match, resolve_all, RawUpstream, Upstream, UpstreamConfigError, UpstreamRouter};

fn upstream(name: &str, model_match: &str, base_url: &str, protocol: UpstreamProtocol) -> Upstream {
    Upstream {
        name: name.into(),
        model_match: model_match.into(),
        base_url: base_url.into(),
        protocol,
        api_key: None,
    }
}

#[test]
fn glob_matches_exact() {
    assert!(glob_match("kimi-for-coding", "kimi-for-coding"));
    assert!(!glob_match("kimi-for-coding", "deepseek-chat"));
}

#[test]
fn glob_matches_prefix_wildcard() {
    assert!(glob_match("kimi-*", "kimi-for-coding"));
    assert!(glob_match("kimi-*", "kimi-anything"));
    assert!(!glob_match("kimi-*", "deepseek-chat"));
    assert!(!glob_match("kimi-*", "ki"));
}

#[test]
fn glob_matches_full_wildcard() {
    assert!(glob_match("*", "anything"));
    assert!(glob_match("*", ""));
}

#[test]
fn router_first_match_wins() {
    let router = UpstreamRouter::new(vec![
        upstream("kimi", "kimi-*", "https://api.kimi.com/coding/v1", UpstreamProtocol::Anthropic),
        upstream("deepseek", "deepseek-*", "https://api.deepseek.com/v1", UpstreamProtocol::Chat),
    ]);

    assert_eq!(router.route("kimi-for-coding").unwrap().name, "kimi");
    assert_eq!(router.route("deepseek-chat").unwrap().name, "deepseek");
    assert!(router.route("openai/gpt-5").is_none());
}

#[test]
fn router_catchall_last() {
    let router = UpstreamRouter::new(vec![
        upstream("kimi", "kimi-*", "https://api.kimi.com/coding/v1", UpstreamProtocol::Anthropic),
        upstream("openrouter", "*", "https://openrouter.ai/api/v1", UpstreamProtocol::Chat),
    ]);

    assert_eq!(router.route("kimi-for-coding").unwrap().name, "kimi");
    assert_eq!(router.route("openai/gpt-5").unwrap().name, "openrouter");
    assert_eq!(router.route("deepseek-chat").unwrap().name, "openrouter");
}

#[test]
fn catchall_first_shadows_later_upstreams() {
    let router = UpstreamRouter::new(vec![
        upstream("openrouter", "*", "https://openrouter.ai/api/v1", UpstreamProtocol::Chat),
        upstream("kimi", "kimi-*", "https://api.kimi.com/coding/v1", UpstreamProtocol::Anthropic),
    ]);
    assert_eq!(router.route("kimi-for-coding").unwrap().name, "openrouter");
    assert_eq!(router.upstreams().len(), 2);
    assert_eq!(router.upstreams()[1].name, "kimi");
}

#[test]
fn empty_router_routes_nothing() {
    let router = UpstreamRouter::new(vec![]);
    assert!(router.route("anything").is_none());
    assert!(router.upstreams().is_empty());
}

#[test]
fn protocol_names_parse_case_insensitively() {
    assert_eq!(UpstreamProtocol::parse("chat"), Ok(UpstreamProtocol::Chat));
    assert_eq!(UpstreamProtocol::parse("OpenAI"), Ok(UpstreamProtocol::Chat));
    assert_eq!(UpstreamProtocol::parse("chat-completions"), Ok(UpstreamProtocol::Chat));
    assert_eq!(UpstreamProtocol::parse("Anthropic"), Ok(UpstreamProtocol::Anthropic));
    assert_eq!(UpstreamProtocol::parse("MESSAGES"), Ok(UpstreamProtocol::Anthropic));
}

#[test]
fn unknown_protocol_is_refused_with_lowercased_name() {
    let err = UpstreamProtocol::parse("Vllm").unwrap_err();
    assert_eq!(err, ProtocolError::Unknown("vllm".to_string()));
    assert_eq!(err.message(), "unknown upstream protocol `vllm` — expected `chat` or `anthropic`");
}

#[test]
fn server_config_new_is_a_single_catch_all_chat_upstream() {
    let cfg = ServerConfig::new("http://localhost:11434/v1".into(), Some("k".into()), "127.0.0.1:18080".into());
    assert_eq!(cfg.bind_addr, "127.0.0.1:18080");
    let ups = cfg.router.upstreams();
    assert_eq!(ups.len(), 1);
    assert_eq!(ups[0].name, "default");
    assert_eq!(ups[0].model_match, "*");
    assert_eq!(ups[0].base_url, "http://localhost:11434/v1");
    assert_eq!(ups[0].protocol, UpstreamProtocol::Chat);
    assert_eq!(ups[0].api_key.as_deref(), Some("k"));
    assert_eq!(cfg.router.route("any-model").unwrap().name, "default");
}

fn raw(name: &str, protocol: &str, key_env: Option<&str>) -> RawUpstream {
    RawUpstream {
        name: name.into(),
        model_match: "*".into(),
        base_url: "http://localhost".into(),
        protocol: protocol.into(),
        api_key_env: key_env.map(|s| s.to_string()),
    }
}

#[test]
fn resolve_all_refuses_an_empty_config() {
    assert!(matches!(resolve_all(vec![], vec![]), Err(UpstreamConfigError::Empty)));
}

#[test]
fn resolve_all_reports_the_first_unresolvable_upstream() {
    let raws = vec![raw("a", "chat", None), raw("b", "anthropic", Some("B_KEY")), raw("c", "bogus", None)];
    let err = resolve_all(raws, vec![None, None, None]).unwrap_err();
    assert_eq!(err, UpstreamConfigError::MissingKey { name: "b".into(), var: "B_KEY".into() });
}

#[test]
fn resolve_all_keeps_declaration_order() {
    let raws = vec![raw("a", "chat", None), raw("b", "ANTHROPIC", Some("B_KEY"))];
    let router = resolve_all(raws, vec![None, Some("sk".into())]).unwrap();
    let names: Vec<&str> = router.upstreams().iter().map(|u| u.name.as_str()).collect();
    assert_eq!(names, vec!["a", "b"]);
    assert_eq!(router.upstreams()[1].api_key.as_deref(), Some("sk"));
    assert_eq!(router.upstreams()[1].protocol, UpstreamProtocol::Anthropic);
}
