use ecodex::ntfy::{
    auth_header, build_subscribe_url, default_credentials_path, load_config_from, resolve_ai_id_from, NtfyConfigError, NtfyListenerConfig,
    NtfySettings,
};

fn cfg() -> NtfyListenerConfig {
    NtfyListenerConfig {
        url: "https://ntfy.getempirica.com".to_string(),
        topic: "orchestration-events".to_string(),
        token: Some("tk_abc123".to_string()),
        user: None,
        password: None,
        ai_id: "ecodex".to_string(),
    }
}

#[test]
fn subscribe_url_has_tag_filter_and_json_endpoint() {
    assert_eq!(build_subscribe_url(&cfg()), "https://ntfy.getempirica.com/orchestration-events/json?tags=ecodex");
}

#[test]
fn subscribe_url_trims_trailing_slash_on_base() {
    let mut c = cfg();
    c.url = "https://ntfy.getempirica.com/".to_string();
    assert_eq!(build_subscribe_url(&c), "https://ntfy.getempirica.com/orchestration-events/json?tags=ecodex");
}

#[test]
fn subscribe_url_percent_encodes_topic_and_tag() {
    let mut c = cfg();
    c.url = "https://ntfy.example//".to_string();
    c.topic = "a b/c".to_string();
    c.ai_id = "é&x".to_string();
    assert_eq!(build_subscribe_url(&c), "https://ntfy.example/a%20b%2Fc/json?tags=%C3%A9%26x");
}

#[test]
fn auth_header_prefers_bearer_token() {
    assert_eq!(auth_header(&cfg()), Some(("Authorization".to_string(), "Bearer tk_abc123".to_string())));
}

#[test]
fn auth_header_falls_back_to_basic() {
    let mut c = cfg();
    c.token = None;
    c.user = Some("alice".to_string());
    c.password = Some("pw".to_string());
    let (name, value) = auth_header(&c).expect("basic auth header");
    assert_eq!(name, "Authorization");
    assert_eq!(value, "Basic YWxpY2U6cHc=");
}

#[test]
fn auth_header_none_when_no_credentials() {
    let mut c = cfg();
    c.token = None;
    assert_eq!(auth_header(&c), None);
}

#[test]
fn auth_header_empty_token_falls_through_to_basic_with_missing_password() {
    let mut c = cfg();
    c.token = Some(String::new());
    c.user = Some("bob".to_string());
    let (_, value) = auth_header(&c).unwrap();
    assert_eq!(value, "Basic Ym9iOg==");
}

fn file(url: &str, topic: &str, token: Option<&str>) -> NtfySettings {
    NtfySettings {
        url: Some(url.to_string()),
        topic: Some(topic.to_string()),
        token: token.map(str::to_string),
        user: None,
        password: None,
    }
}

#[test]
fn config_takes_file_values_when_no_env() {
    let c = load_config_from(
        &file("https://ntfy.getempirica.com", "orchestration-events", Some("tk_xyz")),
        &NtfySettings::default(),
        "ecodex".to_string(),
    )
    .expect("config");
    assert_eq!(c.url, "https://ntfy.getempirica.com");
    assert_eq!(c.topic, "orchestration-events");
    assert_eq!(c.token.as_deref(), Some("tk_xyz"));
    assert_eq!(c.ai_id, "ecodex");
}

#[test]
fn env_overrides_win_over_file() {
    let env = NtfySettings { topic: Some("other".to_string()), ..NtfySettings::default() };
    let c = load_config_from(&file("https://a", "t", Some("tk")), &env, "x".to_string()).unwrap();
    assert_eq!(c.topic, "other");
}

#[test]
fn config_errors_when_auth_missing() {
    let err = load_config_from(&file("https://a", "t", None), &NtfySettings::default(), "x".to_string()).unwrap_err();
    assert_eq!(err, NtfyConfigError::Incomplete("token (or user+password)".to_string()));
}

#[test]
fn config_lists_every_missing_setting() {
    let err = load_config_from(&NtfySettings::default(), &NtfySettings::default(), "x".to_string()).unwrap_err();
    assert_eq!(err, NtfyConfigError::Incomplete("url, topic, token (or user+password)".to_string()));
}

#[test]
fn ai_id_precedence_and_prefix_stripping() {
    assert_eq!(resolve_ai_id_from(Some(" ecodex ".into()), Some("env".into()), None), Ok("ecodex".to_string()));
    assert_eq!(resolve_ai_id_from(Some("  ".into()), Some("env-id".into()), None), Ok("env-id".to_string()));
    assert_eq!(resolve_ai_id_from(None, None, Some("empirica-outreach".into())), Ok("outreach".to_string()));
    assert_eq!(resolve_ai_id_from(None, None, Some("plain".into())), Ok("plain".to_string()));
    assert_eq!(resolve_ai_id_from(None, None, Some("empirica-".into())), Err(NtfyConfigError::UnresolvedAiId));
    assert_eq!(resolve_ai_id_from(None, None, None), Err(NtfyConfigError::UnresolvedAiId));
}

#[test]
fn credentials_live_under_the_home_directory() {
    assert_eq!(
        default_credentials_path(Some("/home/u")),
        Some("/home/u/.empirica/credentials.yaml".to_string())
    );
    assert_eq!(default_credentials_path(None), None);
}
