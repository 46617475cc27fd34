//! The curated model picker entries: the recommended models that surface
//! at the top of `/model`, each with the provider it routes through.

use vstd::prelude::*;

use crate::text::{concat3, str_eq};

verus! {

/// Where a curated model runs, for grouping in the picker.
#[derive(Debug, Clone, Copy, PartialEq, Eq, Structural)]
pub enum EcodexModelCategory {
    /// Cloud-hosted, coding-tuned, frontier capability.
    CloudCoding,
    /// Cloud-hosted, reasoning-tuned, frontier capability.
    CloudReasoning,
    /// Local open-weights served via Ollama / vLLM / empirica-server.
    LocalOpenWeights,
    /// Cloud router: one key, many models behind it.
    CloudRouter,
}

/// The section header of a category.
pub open spec fn category_label(c: EcodexModelCategory) -> Seq<char> {
    match c {
        EcodexModelCategory::CloudCoding => "Cloud \u{2014} coding-strong"@,
        EcodexModelCategory::CloudReasoning => "Cloud \u{2014} reasoning-strong"@,
        EcodexModelCategory::LocalOpenWeights => "Local \u{2014} open-weights"@,
        EcodexModelCategory::CloudRouter => "Cloud \u{2014} router (catchall)"@,
    }
}

impl EcodexModelCategory {
    /// The section header of this category in the picker.
    pub fn label(self) -> (s: &'static str)
        ensures
            s@ == category_label(self),
    {
        match self {
            EcodexModelCategory::CloudCoding => "Cloud \u{2014} coding-strong",
            EcodexModelCategory::CloudReasoning => "Cloud \u{2014} reasoning-strong",
            EcodexModelCategory::LocalOpenWeights => "Local \u{2014} open-weights",
            EcodexModelCategory::CloudRouter => "Cloud \u{2014} router (catchall)",
        }
    }
}

/// One curated entry: the slug, its display name and description, the
/// `model_providers.<id>` key it routes through, and its category.
#[derive(Debug, Clone, PartialEq, Eq)]
pub struct EcodexCuratedModel {
    pub slug: &'static str,
    pub display_name: &'static str,
    pub description: &'static str,
    pub provider: &'static str,
    pub category: EcodexModelCategory,
}

/// The value of a curated entry.
pub struct CuratedModelV {
    pub slug: Seq<char>,
    pub display_name: Seq<char>,
    pub description: Seq<char>,
    pub provider: Seq<char>,
    pub category: EcodexModelCategory,
}

impl View for EcodexCuratedModel {
    type V = CuratedModelV;

    open spec fn view(&self) -> CuratedModelV {
        CuratedModelV {
            slug: self.slug@,
            display_name: self.display_name@,
            description: self.description@,
            provider: self.provider@,
            category: self.category,
        }
    }
}

/// A row of the curated table.
pub open spec fn row(
    slug: Seq<char>,
    display_name: Seq<char>,
    description: Seq<char>,
    provider: Seq<char>,
    category: EcodexModelCategory,
) -> CuratedModelV {
    CuratedModelV { slug, display_name, description, provider, category }
}

/// The curated list, in picker order.
pub open spec fn curated_table() -> Seq<CuratedModelV> {
    seq![
        row("kimi-for-coding"@, "Kimi K2.6 (Moonshot)"@, "256K MoE, agent-tuned, strong tool-calling reliability. Routed via local translator (anthropic protocol). Subscription gated."@, "kimi"@, EcodexModelCategory::CloudCoding),
        row("devstral-2-latest"@, "Devstral 2 (Mistral \u{2014} EU sovereign)"@, "EU-hosted agentic-coding flagship (Mistral AI, Paris). Multi-file edits, dependency tracking. The data-sovereignty pick: code stays in the EU \u{2014} for users who cannot route to US/CN providers. Also open-weights (self-hostable for full air-gap)."@, "mistral"@, EcodexModelCategory::CloudCoding),
        row("deepseek-reasoner"@, "DeepSeek R1 / V3 (DeepSeek)"@, "Strong reasoning trace, 128K context, very competitive pricing. OpenAI-compat chat completions via translator."@, "deepseek"@, EcodexModelCategory::CloudReasoning),
        row("qwen3-coder:latest"@, "Qwen3-Coder 30B-A3B (local)"@, "256K native context, MoE arch (~3B active), purpose-built for coding agents. Excellent for codebase work that exceeds cloud context budgets."@, "empirica-local"@, EcodexModelCategory::LocalOpenWeights),
        row("deepseek-r1:32b"@, "DeepSeek-R1 32B (local)"@, "Distilled reasoning model, 128K context, strong on chain-of-thought tasks. Local inference via Ollama."@, "empirica-local"@, EcodexModelCategory::LocalOpenWeights),
        row("llama3.1:70b"@, "Llama 3.1 70B (local)"@, "128K context, generalist baseline. Local inference; weaker at agent-loop coding than qwen3-coder, included as a control."@, "empirica-local"@, EcodexModelCategory::LocalOpenWeights),
        row("openrouter/auto"@, "OpenRouter \u{2014} auto (best-of)"@, "OpenRouter's auto-routing \u{2014} sends each request to whichever frontier model wins for the prompt. Single key, many models. Pay-as-you-go, mark-up over direct provider rates."@, "openrouter"@, EcodexModelCategory::CloudRouter),
        row("openai/gpt-5.2-codex"@, "GPT-5.2 Codex (via OpenRouter)"@, "OpenAI's codex-tuned tier \u{2014} purpose-built for coding agents, 400K context. Reach GPT-5 family without OpenAI direct provider setup."@, "openrouter"@, EcodexModelCategory::CloudRouter),
        row("x-ai/grok-code-fast-1"@, "Grok Code Fast 1 (via OpenRouter)"@, "xAI's fast coding tier \u{2014} high throughput, 256K context, competitive on tool-use. The cheap-and-fast option when latency dominates quality."@, "openrouter"@, EcodexModelCategory::CloudRouter),
        row("google/gemini-2.5-pro"@, "Gemini 2.5 Pro (via OpenRouter)"@, "Google's flagship general model, 1M context. Strong on long-document analysis. Reach Gemini without separate Google Cloud setup."@, "openrouter"@, EcodexModelCategory::CloudRouter),
    ]
}

/// The views of a list of curated entries.
pub open spec fn models_view(v: Seq<EcodexCuratedModel>) -> Seq<CuratedModelV> {
    v.map_values(|m: EcodexCuratedModel| m@)
}

/// The curated list.
pub fn curated_models() -> (v: Vec<EcodexCuratedModel>)
    ensures
        models_view(v@) == curated_table(),
{
    let mut v: Vec<EcodexCuratedModel> = Vec::new();
    v.push(EcodexCuratedModel {
        slug: "kimi-for-coding",
        display_name: "Kimi K2.6 (Moonshot)",
        description: "256K MoE, agent-tuned, strong tool-calling reliability. Routed via local translator (anthropic protocol). Subscription gated.",
        provider: "kimi",
        category: EcodexModelCategory::CloudCoding,
    });
    v.push(EcodexCuratedModel {
        slug: "devstral-2-latest",
        display_name: "Devstral 2 (Mistral \u{2014} EU sovereign)",
        description: "EU-hosted agentic-coding flagship (Mistral AI, Paris). Multi-file edits, dependency tracking. The data-sovereignty pick: code stays in the EU \u{2014} for users who cannot route to US/CN providers. Also open-weights (self-hostable for full air-gap).",
        provider: "mistral",
        category: EcodexModelCategory::CloudCoding,
    });
    v.push(EcodexCuratedModel {
        slug: "deepseek-reasoner",
        display_name: "DeepSeek R1 / V3 (DeepSeek)",
        description: "Strong reasoning trace, 128K context, very competitive pricing. OpenAI-compat chat completions via translator.",
        provider: "deepseek",
        category: EcodexModelCategory::CloudReasoning,
    });
    v.push(EcodexCuratedModel {
        slug: "qwen3-coder:latest",
        display_name: "Qwen3-Coder 30B-A3B (local)",
        description: "256K native context, MoE arch (~3B active), purpose-built for coding agents. Excellent for codebase work that exceeds cloud context budgets.",
        provider: "empirica-local",
        category: EcodexModelCategory::LocalOpenWeights,
    });
    v.push(EcodexCuratedModel {
        slug: "deepseek-r1:32b",
        display_name: "DeepSeek-R1 32B (local)",
        description: "Distilled reasoning model, 128K context, strong on chain-of-thought tasks. Local inference via Ollama.",
        provider: "empirica-local",
        category: EcodexModelCategory::LocalOpenWeights,
    });
    v.push(EcodexCuratedModel {
        slug: "llama3.1:70b",
        display_name: "Llama 3.1 70B (local)",
        description: "128K context, generalist baseline. Local inference; weaker at agent-loop coding than qwen3-coder, included as a control.",
        provider: "empirica-local",
        category: EcodexModelCategory::LocalOpenWeights,
    });
    v.push(EcodexCuratedModel {
        slug: "openrouter/auto",
        display_name: "OpenRouter \u{2014} auto (best-of)",
        description: "OpenRouter's auto-routing \u{2014} sends each request to whichever frontier model wins for the prompt. Single key, many models. Pay-as-you-go, mark-up over direct provider rates.",
        provider: "openrouter",
        category: EcodexModelCategory::CloudRouter,
    });
    v.push(EcodexCuratedModel {
        slug: "openai/gpt-5.2-codex",
        display_name: "GPT-5.2 Codex (via OpenRouter)",
        description: "OpenAI's codex-tuned tier \u{2014} purpose-built for coding agents, 400K context. Reach GPT-5 family without OpenAI direct provider setup.",
        provider: "openrouter",
        category: EcodexModelCategory::CloudRouter,
    });
    v.push(EcodexCuratedModel {
        slug: "x-ai/grok-code-fast-1",
        display_name: "Grok Code Fast 1 (via OpenRouter)",
        description: "xAI's fast coding tier \u{2014} high throughput, 256K context, competitive on tool-use. The cheap-and-fast option when latency dominates quality.",
        provider: "openrouter",
        category: EcodexModelCategory::CloudRouter,
    });
    v.push(EcodexCuratedModel {
        slug: "google/gemini-2.5-pro",
        display_name: "Gemini 2.5 Pro (via OpenRouter)",
        description: "Google's flagship general model, 1M context. Strong on long-document analysis. Reach Gemini without separate Google Cloud setup.",
        provider: "openrouter",
        category: EcodexModelCategory::CloudRouter,
    });
    assert(models_view(v@) =~= curated_table());
    v
}

/// The provider of the first entry of `t` whose slug is `slug`.
pub open spec fn provider_in(t: Seq<CuratedModelV>, slug: Seq<char>) -> Option<Seq<char>>
    decreases t.len(),
{
    if t.len() == 0 {
        None
    } else if t[0].slug == slug {
        Some(t[0].provider)
    } else {
        provider_in(t.drop_first(), slug)
    }
}

/// The provider a curated slug routes through; `None` when the slug is not
/// curated (the picker then sends no provider override).
pub fn provider_for_slug(slug: &str) -> (r: Option<&'static str>)
    ensures
        match provider_in(curated_table(), slug@) {
            Some(p) => r matches Some(s) && s@ == p,
            None => r is None,
        },
{
    let models = curated_models();
    let ghost t = curated_table();
    let mut i: usize = 0;
    assert(t.subrange(0, t.len() as int) =~= t);
    while i < models.len()
        invariant
            i <= models.len(),
            models_view(models@) == t,
            t == curated_table(),
            provider_in(t, slug@) == provider_in(t.subrange(i as int, t.len() as int), slug@),
        decreases models.len() - i,
    {
        let ghost rest = t.subrange(i as int, t.len() as int);
        assert(rest[0] == models@[i as int]@);
        assert(rest.drop_first() =~= t.subrange(i + 1, t.len() as int));
        if str_eq(models[i].slug, slug) {
            assert(provider_in(rest, slug@) == Some(models@[i as int].provider@));
            return Some(models[i].provider);
        }
        i += 1;
    }
    None
}

/// A picker preset made from a curated entry.
#[derive(Debug, Clone, PartialEq, Eq)]
pub struct ModelPreset {
    pub id: String,
    pub model: String,
    pub display_name: String,
    pub description: String,
    pub supports_personality: bool,
    pub is_default: bool,
    pub show_in_picker: bool,
    pub supported_in_api: bool,
}

/// The value of a picker preset.
pub struct ModelPresetV {
    pub id: Seq<char>,
    pub model: Seq<char>,
    pub display_name: Seq<char>,
    pub description: Seq<char>,
    pub supports_personality: bool,
    pub is_default: bool,
    pub show_in_picker: bool,
    pub supported_in_api: bool,
}

impl View for ModelPreset {
    type V = ModelPresetV;

    open spec fn view(&self) -> ModelPresetV {
        ModelPresetV {
            id: self.id@,
            model: self.model@,
            display_name: self.display_name@,
            description: self.description@,
            supports_personality: self.supports_personality,
            is_default: self.is_default,
            show_in_picker: self.show_in_picker,
            supported_in_api: self.supported_in_api,
        }
    }
}

/// The values of a list of presets.
pub open spec fn presets_view(v: Seq<ModelPreset>) -> Seq<ModelPresetV> {
    v.map_values(|p: ModelPreset| p@)
}

/// The picker preset of a curated entry (see [`to_preset`]).
pub open spec fn preset_of(e: CuratedModelV) -> ModelPresetV {
    ModelPresetV {
        id: e.slug,
        model: e.slug,
        display_name: category_label(e.category) + " \u{2014} "@ + e.display_name,
        description: e.description,
        supports_personality: false,
        is_default: false,
        show_in_picker: true,
        supported_in_api: true,
    }
}

/// The picker preset of a curated entry: id and model are the slug, the
/// display name is `<category label> — <display name>`, and it shows in
/// the picker.
pub fn to_preset(entry: &EcodexCuratedModel) -> (p: ModelPreset)
    ensures
        p.id@ == entry.slug@,
        p.model@ == entry.slug@,
        p.display_name@ == category_label(entry.category) + " \u{2014} "@ + entry.display_name@,
        p.description@ == entry.description@,
        !p.supports_personality,
        !p.is_default,
        p.show_in_picker,
        p.supported_in_api,
{
    ModelPreset {
        id: entry.slug.to_string(),
        model: entry.slug.to_string(),
        display_name: concat3(entry.category.label(), " \u{2014} ", entry.display_name),
        description: entry.description.to_string(),
        supports_personality: false,
        is_default: false,
        show_in_picker: true,
        supported_in_api: true,
    }
}

/// All curated entries as picker presets, in picker order.
pub fn curated_presets() -> (v: Vec<ModelPreset>)
    ensures
        v@.len() == curated_table().len(),
        forall|i: int| 0 <= i < v@.len() ==> (#[trigger] v@[i]).id@ == curated_table()[i].slug && v@[i].show_in_picker,
        presets_view(v@) == curated_table().map_values(|e: CuratedModelV| preset_of(e)),
{
    let models = curated_models();
    let mut v: Vec<ModelPreset> = Vec::new();
    let mut i: usize = 0;
    while i < models.len()
        invariant
            i <= models.len(),
            models_view(models@) == curated_table(),
            v@.len() == i,
            forall|k: int| 0 <= k < i ==> (#[trigger] v@[k]).id@ == curated_table()[k].slug && v@[k].show_in_picker,
            presets_view(v@) == curated_table().map_values(|e: CuratedModelV| preset_of(e)).take(i as int),
        decreases models.len() - i,
    {
        assert(models@[i as int]@ == curated_table()[i as int]);
        v.push(to_preset(&models[i]));
        assert(presets_view(v@) =~= curated_table().map_values(|e: CuratedModelV| preset_of(e)).take(i + 1));
        i += 1;
    }
    assert(curated_table().map_values(|e: CuratedModelV| preset_of(e)).take(i as int) =~= curated_table().map_values(
        |e: CuratedModelV| preset_of(e),
    ));
    v
}

} // verus!
