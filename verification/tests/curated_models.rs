use ecodex::curated_models::{curated_models, curated_presets, provider_for_slug, to_preset, EcodexModelCategory};

#[test]
fn provider_for_slug_resolves_curated_entries() {
    assert_eq!(provider_for_slug("kimi-for-coding"), Some("kimi"));
    assert_eq!(provider_for_slug("qwen3-coder:latest"), Some("empirica-local"));
    assert_eq!(provider_for_slug("openrouter/auto"), Some("openrouter"));
    assert_eq!(provider_for_slug("devstral-2-latest"), Some("mistral"));
    assert_eq!(provider_for_slug("not-in-curated"), None);
}

#[test]
fn curated_presets_are_unique_by_id() {
    let presets = curated_presets();
    let mut ids: Vec<_> = presets.iter().map(|p| p.id.as_str()).collect();
    ids.sort_unstable();
    let original_len = ids.len();
    ids.dedup();
    assert_eq!(ids.len(), original_len, "curated preset ids must be unique");
}

#[test]
fn curated_presets_show_in_picker() {
    for preset in curated_presets() {
        assert!(preset.show_in_picker, "curated preset {} must show in picker", preset.id);
    }
}

#[test]
fn preset_display_name_carries_category() {
    let models = curated_models();
    let first = &models[0];
    assert_eq!(first.category, EcodexModelCategory::CloudCoding);
    let p = to_preset(first);
    assert_eq!(p.id, "kimi-for-coding");
    assert_eq!(p.model, "kimi-for-coding");
    assert!(p.display_name.ends_with(" \u{2014} Kimi K2.6 (Moonshot)"));
    assert!(p.display_name.starts_with(first.category.label()));
    assert!(!p.is_default);
}
