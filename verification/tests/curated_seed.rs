use ecodex::curated_seed::{collapse_to_latest_per_line, discovery_keeps, lookup, user_models_path};

#[test]
fn bundled_seed_parses_and_is_nonempty() {
    assert!(
        lookup("moonshotai/kimi-k2.6", &[]).is_some(),
        "bundled curated seed failed to load or is missing the Kimi K2.6 anchor"
    );
}

#[test]
fn non_thinking_curated_model_reflects_reasoning_false() {
    let entry = lookup("qwen3-coder:30b", &[]).expect("seeded");
    assert_eq!(entry.reasoning.as_ref().map(|r| r.supported), Some(false));
}

#[test]
fn eu_sovereignty_entry_is_tagged() {
    let entry = lookup("mistralai/devstral-small", &[]).expect("seeded");
    let j = entry.jurisdiction.expect("devstral has jurisdiction");
    assert!(j.eu_data_residency);
    assert_eq!(j.country.as_deref(), Some("FR"));
}

#[test]
fn discovery_filter_keeps_curated_families_and_drops_noise() {
    assert!(discovery_keeps("deepseek/deepseek-r1", &[]));
    assert!(discovery_keeps("qwen/qwen3-coder-480b", &[]));
    assert!(discovery_keeps("moonshotai/kimi-k2.7", &[]));
    assert!(discovery_keeps("mistralai/devstral-2512", &[]));
    assert!(discovery_keeps("moonshotai/kimi-k2.6", &[]));
    assert!(!discovery_keeps("google/gemma-2-27b-it", &[]));
    assert!(!discovery_keeps("meta-llama/llama-3.3-70b", &[]));
    assert!(!discovery_keeps("microsoft/phi-4", &[]));
    assert!(!discovery_keeps("glm-ocr:latest", &[]));
    assert!(!discovery_keeps("qwen/qwen2.5-vl-72b", &[]));
    assert!(!discovery_keeps("qwen/qwen3-embedding", &[]));
}

#[test]
fn discovery_drops_unstable_and_dated_variants() {
    assert!(!discovery_keeps("deepseek/deepseek-v3.2-exp", &[]));
    assert!(!discovery_keeps("deepseek/deepseek-r1-distill-qwen-32b", &[]));
    assert!(!discovery_keeps("deepseek/deepseek-v3.1-terminus", &[]));
    assert!(!discovery_keeps("qwen/qwen3-coder-preview", &[]));
    assert!(!discovery_keeps("mistralai/mistral-small-24b-instruct-2501", &[]));
    assert!(!discovery_keeps("deepseek/deepseek-chat-v3-0324", &[]));
    assert!(discovery_keeps("deepseek/deepseek-v4-pro", &[]));
    assert!(discovery_keeps("deepseek/deepseek-v4-flash", &[]));
    assert!(discovery_keeps("qwen/qwen3-coder-480b", &[]));
    assert!(discovery_keeps("mistralai/devstral-2512", &[]));
}

#[test]
fn collapse_keeps_latest_per_line_and_splits_distinct_lines() {
    let slugs: Vec<String> = [
        "minimax/minimax-m1",
        "minimax/minimax-m2",
        "minimax/minimax-m2.1",
        "minimax/minimax-m2.5",
        "minimax/minimax-m3",
        "deepseek/deepseek-r1",
        "deepseek/deepseek-r1-0528",
        "deepseek/deepseek-v3.1",
        "deepseek/deepseek-v3.2",
    ]
    .iter()
    .map(std::string::ToString::to_string)
    .collect();

    let out = collapse_to_latest_per_line(&slugs);
    assert!(out.contains(&"minimax/minimax-m3".to_string()));
    assert!(!out.contains(&"minimax/minimax-m1".to_string()));
    assert!(!out.contains(&"minimax/minimax-m2.5".to_string()));
    let has_r1 = out.iter().any(|s| s.contains("deepseek-r1"));
    let has_v3 = out.iter().any(|s| s.contains("deepseek-v3"));
    assert!(has_r1, "deepseek-r1 (reasoning) line must survive: {out:?}");
    assert!(has_v3, "deepseek-v3 (chat) line must survive: {out:?}");
    assert!(out.iter().any(|s| s.contains("v3.2")));
    assert!(!out.iter().any(|s| s.contains("v3.1")));
}

#[test]
fn collapse_keeps_unversioned_slugs_as_own_lines() {
    let slugs: Vec<String> = ["qwen/qwen3-coder", "moonshotai/kimi-k2"]
        .iter()
        .map(std::string::ToString::to_string)
        .collect();
    let out = collapse_to_latest_per_line(&slugs);
    assert_eq!(out.len(), 2, "distinct unversioned slugs both kept: {out:?}");
}

#[test]
fn collapse_output_is_sorted_and_duplicate_free() {
    let slugs: Vec<String> = ["b/x-v2", "a/y-v1", "b/x-v2", "a/y-v3", "c/z"]
        .iter()
        .map(std::string::ToString::to_string)
        .collect();
    let out = collapse_to_latest_per_line(&slugs);
    assert_eq!(out, vec!["a/y-v3".to_string(), "b/x-v2".to_string(), "c/z".to_string()]);
}

#[test]
fn unknown_slug_is_not_seeded() {
    assert!(lookup("some-unknown-model-xyz:7b", &[]).is_none());
}

#[test]
fn user_models_path_resolution() {
    assert_eq!(
        user_models_path(Some("/srv/codex"), Some("/home/u")),
        Some("/srv/codex/models.user.json".to_string())
    );
    assert_eq!(
        user_models_path(Some(""), Some("/home/u")),
        Some("/home/u/.codex/models.user.json".to_string())
    );
    assert_eq!(
        user_models_path(None, Some("/home/u")),
        Some("/home/u/.codex/models.user.json".to_string())
    );
    assert_eq!(user_models_path(None, None), None);
    assert_eq!(user_models_path(Some(""), None), None);
}

#[test]
fn collapse_ignores_order_and_is_idempotent() {
    let slugs: Vec<String> = ["qwen/qwen3-coder", "kimi-k2.5", "kimi-k2.6", "deepseek-v3.1", "deepseek-v3.2", "kimi-k2.6"]
        .iter()
        .map(|s| s.to_string())
        .collect();
    let mut reversed = slugs.clone();
    reversed.reverse();
    let out = collapse_to_latest_per_line(&slugs);
    assert_eq!(collapse_to_latest_per_line(&reversed), out);
    assert_eq!(collapse_to_latest_per_line(&out), out);
}
