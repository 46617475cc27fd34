//! Model metadata for slugs that no registry describes: recognition of the
//! open-weights families the product targets, and the instruction-text
//! edits that configuration asks for.

use vstd::prelude::*;

use crate::curated_seed::{curated_rows, entries_view, lookup, normalize_slug, normalized_slug, table_lookup, CuratedEntry};
use crate::text::{chars_of, concat3, seq_starts_with, starts_with_chars, string_from_chars};

verus! {

/// One row of the family table: a normalized slug starting with any of
/// `prefixes` belongs to the family.
pub struct FamilyRuleV {
    pub prefixes: Seq<Seq<char>>,
    pub display: Seq<char>,
    pub family: Seq<char>,
    pub context_window: int,
}

/// The family table, most specific first (`qwen3-coder` before `qwen`).
pub open spec fn family_rules() -> Seq<FamilyRuleV> {
    seq![
        FamilyRuleV { prefixes: seq!["qwen3-coder"@, "qwen-coder"@, "qwen2.5-coder"@, "qwencoder"@], display: "Qwen Coder"@, family: "Qwen-Coder open-weights model (Alibaba) \u{2014} purpose-built for coding agents, 256K native context"@, context_window: 262144 },
        FamilyRuleV { prefixes: seq!["qwen3-next"@], display: "Qwen3-Next"@, family: "Qwen3-Next open-weights model (Alibaba) \u{2014} extended-context variant, 256K native"@, context_window: 262144 },
        FamilyRuleV { prefixes: seq!["qwen2.5"@], display: "Qwen2.5"@, family: "Qwen2.5-family open-weights model (Alibaba) \u{2014} 128K native context"@, context_window: 131072 },
        FamilyRuleV { prefixes: seq!["qwen"@, "qwopus"@], display: "Qwen / Qwopus"@, family: "Qwen-family open-weights model (Alibaba)"@, context_window: 32768 },
        FamilyRuleV { prefixes: seq!["llama"@], display: "Llama"@, family: "Llama-family open-weights model (Meta)"@, context_window: 128000 },
        FamilyRuleV { prefixes: seq!["mistral"@, "mixtral"@], display: "Mistral / Mixtral"@, family: "Mistral-family open-weights model"@, context_window: 32768 },
        FamilyRuleV { prefixes: seq!["gemma"@], display: "Gemma"@, family: "Gemma open-weights model (Google)"@, context_window: 8192 },
        FamilyRuleV { prefixes: seq!["deepseek"@], display: "DeepSeek"@, family: "DeepSeek open-weights model"@, context_window: 128000 },
        FamilyRuleV { prefixes: seq!["gpt-oss"@], display: "GPT-OSS"@, family: "GPT-OSS open-weights model"@, context_window: 32768 },
        FamilyRuleV { prefixes: seq!["mirothinker"@, "huihui"@], display: "MiroThinker"@, family: "MiroThinker reasoning open-weights model"@, context_window: 32768 },
        FamilyRuleV { prefixes: seq!["kimi"@], display: "Kimi"@, family: "Moonshot Kimi open-weights model"@, context_window: 200000 },
        FamilyRuleV { prefixes: seq!["glm"@], display: "GLM"@, family: "Zhipu GLM open-weights model"@, context_window: 32768 },
        FamilyRuleV { prefixes: seq!["phi"@], display: "Phi"@, family: "Phi open-weights model (Microsoft)"@, context_window: 16384 },
    ]
}

/// Whether `n` starts with one of `ps`.
pub open spec fn starts_with_any(n: Seq<char>, ps: Seq<Seq<char>>) -> bool {
    exists|i: int| 0 <= i < ps.len() && seq_starts_with(n, #[trigger] ps[i])
}

/// The first rule of `rules` that the normalized slug `n` matches.
pub open spec fn first_rule(rules: Seq<FamilyRuleV>, n: Seq<char>) -> Option<FamilyRuleV>
    decreases rules.len(),
{
    if rules.len() == 0 {
        None
    } else if starts_with_any(n, rules[0].prefixes) {
        Some(rules[0])
    } else {
        first_rule(rules.drop_first(), n)
    }
}

/// A recognized open-weights family: the name shown for the slug, a short
/// description, and a conservative context window.
#[derive(Debug, Clone, PartialEq, Eq)]
pub struct KnownOpenWeightsFamily {
    pub display_name: String,
    pub family_description: String,
    pub context_window: i64,
}

/// The family `slug` belongs to, if any: the first rule its normalized form
/// matches; the display name is `<family display> (<slug>)`.
pub open spec fn recognized_family(slug: Seq<char>) -> Option<(Seq<char>, Seq<char>, int)> {
    match first_rule(family_rules(), normalized_slug(slug)) {
        Some(r) => Some((r.display + " ("@ + slug + ")"@, r.family, r.context_window)),
        None => None,
    }
}

struct FamilyRule {
    prefixes: Vec<&'static str>,
    display: &'static str,
    family: &'static str,
    context_window: i64,
}

spec fn rule_view(r: FamilyRule) -> FamilyRuleV {
    FamilyRuleV {
        prefixes: r.prefixes@.map_values(|p: &str| p@),
        display: r.display@,
        family: r.family@,
        context_window: r.context_window as int,
    }
}

fn family_rules_exec() -> (v: Vec<FamilyRule>)
    ensures
        v@.map_values(|r: FamilyRule| rule_view(r)) == family_rules(),
{
    let mut v: Vec<FamilyRule> = Vec::new();
    v.push(FamilyRule { prefixes: vec!["qwen3-coder", "qwen-coder", "qwen2.5-coder", "qwencoder"], display: "Qwen Coder", family: "Qwen-Coder open-weights model (Alibaba) \u{2014} purpose-built for coding agents, 256K native context", context_window: 262144 });
    v.push(FamilyRule { prefixes: vec!["qwen3-next"], display: "Qwen3-Next", family: "Qwen3-Next open-weights model (Alibaba) \u{2014} extended-context variant, 256K native", context_window: 262144 });
    v.push(FamilyRule { prefixes: vec!["qwen2.5"], display: "Qwen2.5", family: "Qwen2.5-family open-weights model (Alibaba) \u{2014} 128K native context", context_window: 131072 });
    v.push(FamilyRule { prefixes: vec!["qwen", "qwopus"], display: "Qwen / Qwopus", family: "Qwen-family open-weights model (Alibaba)", context_window: 32768 });
    v.push(FamilyRule { prefixes: vec!["llama"], display: "Llama", family: "Llama-family open-weights model (Meta)", context_window: 128000 });
    v.push(FamilyRule { prefixes: vec!["mistral", "mixtral"], display: "Mistral / Mixtral", family: "Mistral-family open-weights model", context_window: 32768 });
    v.push(FamilyRule { prefixes: vec!["gemma"], display: "Gemma", family: "Gemma open-weights model (Google)", context_window: 8192 });
    v.push(FamilyRule { prefixes: vec!["deepseek"], display: "DeepSeek", family: "DeepSeek open-weights model", context_window: 128000 });
    v.push(FamilyRule { prefixes: vec!["gpt-oss"], display: "GPT-OSS", family: "GPT-OSS open-weights model", context_window: 32768 });
    v.push(FamilyRule { prefixes: vec!["mirothinker", "huihui"], display: "MiroThinker", family: "MiroThinker reasoning open-weights model", context_window: 32768 });
    v.push(FamilyRule { prefixes: vec!["kimi"], display: "Kimi", family: "Moonshot Kimi open-weights model", context_window: 200000 });
    v.push(FamilyRule { prefixes: vec!["glm"], display: "GLM", family: "Zhipu GLM open-weights model", context_window: 32768 });
    v.push(FamilyRule { prefixes: vec!["phi"], display: "Phi", family: "Phi open-weights model (Microsoft)", context_window: 16384 });
    proof {
        let vs = v@.map_values(|r: FamilyRule| rule_view(r));
        assert forall|i: int| 0 <= i < vs.len() implies #[trigger] vs[i] == family_rules()[i] by {
            assert(v@[i].prefixes@.map_values(|p: &str| p@) =~= family_rules()[i].prefixes);
        }
        assert(vs =~= family_rules());
    }
    v
}

fn starts_with_any_exec(n: &[char], ps: &Vec<&'static str>) -> (b: bool)
    ensures
        b == starts_with_any(n@, ps@.map_values(|p: &str| p@)),
{
    let ghost pv = ps@.map_values(|p: &str| p@);
    let mut i: usize = 0;
    while i < ps.len()
        invariant
            i <= ps.len(),
            pv == ps@.map_values(|p: &str| p@),
            forall|k: int| 0 <= k < i ==> !seq_starts_with(n@, #[trigger] pv[k]),
        decreases ps.len() - i,
    {
        let p = chars_of(ps[i]);
        if starts_with_chars(n, p.as_slice()) {
            assert(pv[i as int] == p@);
            return true;
        }
        i += 1;
    }
    false
}

/// Recognize the open-weights family of `slug`.
pub fn recognize_open_weights_family(slug: &str) -> (r: Option<KnownOpenWeightsFamily>)
    ensures
        match recognized_family(slug@) {
            Some((d, f, c)) => r matches Some(k) && k.display_name@ == d && k.family_description@ == f
                && k.context_window == c,
            None => r is None,
        },
{
    let normalized = normalize_slug(slug);
    let n = chars_of(normalized.as_str());
    let rules = family_rules_exec();
    let ghost t = family_rules();
    let mut i: usize = 0;
    assert(t.subrange(0, t.len() as int) =~= t);
    while i < rules.len()
        invariant
            i <= rules.len(),
            t == family_rules(),
            rules@.map_values(|r: FamilyRule| rule_view(r)) == t,
            n@ == normalized_slug(slug@),
            first_rule(t, n@) == first_rule(t.subrange(i as int, t.len() as int), n@),
        decreases rules.len() - i,
    {
        let ghost rest = t.subrange(i as int, t.len() as int);
        assert(rest[0] == rule_view(rules@[i as int]));
        assert(rest.drop_first() =~= t.subrange(i + 1, t.len() as int));
        let rule = &rules[i];
        if starts_with_any_exec(n.as_slice(), &rule.prefixes) {
            proof {
                reveal_strlit(" (");
                reveal_strlit(")");
            }
            let display = concat3(rule.display, " (", slug);
            let display_name = crate::text::concat_str(display.as_str(), ")");
            return Some(KnownOpenWeightsFamily {
                display_name,
                family_description: rule.family.to_string(),
                context_window: rule.context_window,
            });
        }
        i += 1;
    }
    None
}

/// Whether `slug` is an exact entry of the curated table in effect (the
/// bundled seed overlaid by `user`) or belongs to a known coding /
/// open-weights family. Discovery keeps only such slugs.
pub fn is_recognized_coding_model(slug: &str, user: &[CuratedEntry]) -> (b: bool)
    ensures
        b == (table_lookup(curated_rows(entries_view(user@)), slug@) is Some || recognized_family(slug@) is Some),
{
    lookup(slug, user).is_some() || recognize_open_weights_family(slug).is_some()
}

} // verus!
