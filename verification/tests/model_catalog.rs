use ecodex::curated_models::{curated_presets, ModelPreset};
use ecodex::model_catalog::{model_display_name, ModelCatalog};

fn preset(id: &str, display: &str) -> ModelPreset {
    ModelPreset {
        id: id.to_string(),
        model: id.to_string(),
        display_name: display.to_string(),
        description: String::new(),
        supports_personality: true,
        is_default: false,
        show_in_picker: true,
        supported_in_api: true,
    }
}

#[test]
fn reserve_model_has_a_friendly_name() {
    assert_eq!(model_display_name("gpt-reserve"), "Luna Reserve");
    assert_eq!(model_display_name("GPT-Reserve"), "Luna Reserve");
    assert_eq!(model_display_name("gpt-5"), "gpt-5");
}

#[test]
fn curated_presets_come_first_and_registry_wins_on_id() {
    let curated = curated_presets();
    let first = curated[0].id.clone();
    let upstream = vec![preset(&first, "Registry name"), preset("gpt-5", "GPT-5")];
    let catalog = ModelCatalog::new(upstream);
    assert_eq!(catalog.models.len(), curated.len() + 1);
    assert_eq!(catalog.models[0].id, curated[1].id);
    let tail = &catalog.models[catalog.models.len() - 2..];
    assert_eq!(tail[0].display_name, "Registry name");
    assert_eq!(tail[1].id, "gpt-5");
    assert_eq!(catalog.models.iter().filter(|p| p.id == first).count(), 1);
}

#[test]
fn display_name_prefers_the_catalog() {
    let catalog = ModelCatalog::new(vec![preset("gpt-5", "GPT-5")]);
    assert_eq!(catalog.display_name("gpt-5"), "GPT-5");
    assert_eq!(catalog.display_name("gpt-reserve"), "Luna Reserve");
    assert_eq!(catalog.display_name("unknown-model"), "unknown-model");
}
