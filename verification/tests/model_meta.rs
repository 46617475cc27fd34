use ecodex::curated_seed::CuratedEntry;
use ecodex::model_meta::{
    build_fallback_model_info, enrich, is_h1_heading, model_info_from_slug, strip_personality_section,
    with_config_overrides, ModelsManagerConfig, Personality, TruncationMode, TruncationPolicyConfig,
};

const BASE: &str = "# Identity\nYou help.\n# Personality\nBe warm.\n\n## Tone\nKind.\n# Tools\nUse them.\n";

#[test]
fn reasoning_summaries_override_true_enables_support() {
    let model = model_info_from_slug("unknown-model", BASE, &[]);
    let config = ModelsManagerConfig { model_supports_reasoning_summaries: Some(true), ..Default::default() };
    let updated = with_config_overrides(model.clone(), &config);
    let mut expected = model;
    expected.supports_reasoning_summaries = true;
    assert_eq!(updated, expected);
}

#[test]
fn reasoning_summaries_override_false_does_not_disable_support() {
    let mut model = model_info_from_slug("unknown-model", BASE, &[]);
    model.supports_reasoning_summaries = true;
    let config = ModelsManagerConfig { model_supports_reasoning_summaries: Some(false), ..Default::default() };
    let updated = with_config_overrides(model.clone(), &config);
    assert_eq!(updated, model);
}

#[test]
fn reasoning_summaries_override_false_is_noop_when_model_is_false() {
    let model = model_info_from_slug("unknown-model", BASE, &[]);
    let config = ModelsManagerConfig { model_supports_reasoning_summaries: Some(false), ..Default::default() };
    let updated = with_config_overrides(model.clone(), &config);
    assert_eq!(updated, model);
}

#[test]
fn model_context_window_override_clamps_to_max_context_window() {
    let mut model = model_info_from_slug("unknown-model", BASE, &[]);
    model.context_window = Some(273_000);
    model.max_context_window = Some(400_000);
    let config = ModelsManagerConfig { model_context_window: Some(500_000), ..Default::default() };
    let updated = with_config_overrides(model.clone(), &config);
    let mut expected = model;
    expected.context_window = Some(400_000);
    assert_eq!(updated, expected);
}

#[test]
fn model_context_window_uses_model_value_without_override() {
    let mut model = model_info_from_slug("unknown-model", BASE, &[]);
    model.context_window = Some(273_000);
    model.max_context_window = Some(400_000);
    let config = ModelsManagerConfig::default();
    let updated = with_config_overrides(model.clone(), &config);
    assert_eq!(updated, model);
}

#[test]
fn open_weights_recognizer_distinguishes_qwen_coder_from_generic_qwen() {
    for slug in [
        "qwen3-coder:latest",
        "qwen3-coder",
        "qwen-coder",
        "qwen2.5-coder",
        "qwen3-coder-30b-a3b",
        "qwencoder",
        "ollama/qwen3-coder:30b-q4",
    ] {
        let model = model_info_from_slug(slug, BASE, &[]);
        assert_eq!(
            model.context_window,
            Some(262_144),
            "expected 256K context for slug `{slug}`, got {:?}",
            model.context_window
        );
        assert!(!model.used_fallback_model_metadata, "qwen-coder slug `{slug}` should be recognized (no fallback warning)");
    }
    assert_eq!(model_info_from_slug("qwen3-next:latest", BASE, &[]).context_window, Some(262_144));
    assert_eq!(model_info_from_slug("qwen2.5:14b", BASE, &[]).context_window, Some(131_072));
    for slug in ["qwen3:8b", "qwen3.5:latest", "qwopus:27b-q4"] {
        let model = model_info_from_slug(slug, BASE, &[]);
        assert_eq!(model.context_window, Some(32_768), "expected 32K conservative default for generic qwen slug `{slug}`");
    }
}

#[test]
fn curated_exact_slug_overrides_family_fallback() {
    let info = model_info_from_slug("qwen3-coder:30b", BASE, &[]);
    assert_eq!(info.context_window, Some(262_144));
    assert!(!info.used_fallback_model_metadata, "curated entry must suppress the fallback-metadata warning");
    assert_eq!(info.display_name, "Qwen3-Coder 30B-A3B (Alibaba)");
}

#[test]
fn picker_curated_slugs_are_seeded_not_fallback() {
    let cases: &[(&str, i64)] = &[
        ("z-ai/glm-5.2", 1_000_000),
        ("openrouter/auto", 200_000),
        ("openai/gpt-5.2-codex", 400_000),
        ("x-ai/grok-code-fast-1", 256_000),
        ("google/gemini-2.5-pro", 1_000_000),
    ];
    for (slug, expected_ctx) in cases {
        let info = model_info_from_slug(slug, BASE, &[]);
        assert!(!info.used_fallback_model_metadata, "{slug} must be seeded, not fallback");
        assert_eq!(info.context_window, Some(*expected_ctx), "{slug} context_window drifted from the seeded value");
    }
}

#[test]
fn curated_entry_inherits_runtime_template_fields() {
    let info = model_info_from_slug("moonshotai/kimi-k2.6", BASE, &[]);
    assert!(!info.base_instructions.is_empty(), "curated entry must inherit base_instructions from the runtime template");
    assert_eq!(info.context_window, Some(262_144));
}

#[test]
fn unseeded_slug_still_falls_through_to_family_or_fallback() {
    let info = model_info_from_slug("some-unknown-model-xyz:7b", BASE, &[]);
    assert_eq!(info.slug, "some-unknown-model-xyz:7b");
    assert!(info.used_fallback_model_metadata);
    assert_eq!(info.context_window, Some(272_000));
}

#[test]
fn user_entry_overrides_seed() {
    let mut e = CuratedEntry {
        slug: "z-ai/glm-5.2".to_string(),
        display_name: Some("GLM mine".to_string()),
        description: None,
        context_window: Some(64_000),
        supports_tools: Some(true),
        reasoning: None,
        routes: vec![],
        jurisdiction: None,
        calibration_tier: None,
        last_verified: None,
        evidence: None,
    };
    let info = model_info_from_slug("z-ai/glm-5.2", BASE, std::slice::from_ref(&e));
    assert_eq!(info.context_window, Some(64_000));
    assert_eq!(info.display_name, "GLM mine");
    assert!(info.supports_parallel_tool_calls);
    e.slug = "brand-new".to_string();
    let t = build_fallback_model_info("x", BASE);
    let r = enrich(t.clone(), &e);
    assert_eq!(r.slug, "brand-new");
    assert_eq!(r.base_instructions, t.base_instructions);
    assert_eq!(r.max_context_window, Some(64_000));
}

#[test]
fn personality_section_is_stripped_up_to_next_h1() {
    assert_eq!(
        strip_personality_section(BASE.to_string()),
        "# Identity\nYou help.\n# Tools\nUse them.\n"
    );
    assert_eq!(strip_personality_section("# Personality\r\nx\r\n".to_string()), "");
    assert_eq!(strip_personality_section("no section".to_string()), "no section");
    assert_eq!(strip_personality_section("a\n# Personality".to_string()), "a\n");
    assert!(is_h1_heading("#"));
    assert!(is_h1_heading("# x"));
    assert!(is_h1_heading("#\tx"));
    assert!(!is_h1_heading("## x"));
    assert!(!is_h1_heading("#x"));
}

#[test]
fn overrides_follow_configuration() {
    let model = model_info_from_slug("gpt-5.2-codex", BASE, &[]);
    assert!(model.model_messages.is_some());
    let config = ModelsManagerConfig { personality_enabled: true, personality: Some(Personality::NoPersonality), ..Default::default() };
    let updated = with_config_overrides(model.clone(), &config);
    assert_eq!(updated.base_instructions, "# Identity\nYou help.\n# Tools\nUse them.\n");
    let template = updated.model_messages.as_ref().unwrap().instructions_template.clone().unwrap();
    assert!(!template.contains("Be warm."));
    assert!(template.contains("{{ personality }}"));
    let disabled = with_config_overrides(model.clone(), &ModelsManagerConfig::default());
    assert_eq!(disabled.model_messages, None);
    let replaced = with_config_overrides(
        model.clone(),
        &ModelsManagerConfig { base_instructions: Some("custom".to_string()), personality_enabled: true, ..Default::default() },
    );
    assert_eq!(replaced.base_instructions, "custom");
    assert_eq!(replaced.model_messages, None);
    let bytes = with_config_overrides(model.clone(), &ModelsManagerConfig { tool_output_token_limit: Some(100), ..Default::default() });
    assert_eq!(bytes.truncation_policy, TruncationPolicyConfig { mode: TruncationMode::Bytes, limit: 400 });
    let mut tok = model.clone();
    tok.truncation_policy = TruncationPolicyConfig { mode: TruncationMode::Tokens, limit: 5 };
    let tokens = with_config_overrides(tok, &ModelsManagerConfig { tool_output_token_limit: Some(100), ..Default::default() });
    assert_eq!(tokens.truncation_policy, TruncationPolicyConfig { mode: TruncationMode::Tokens, limit: 100 });
}
