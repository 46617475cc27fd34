use ecodex::curated_seed::{all_entries, bundled_slugs, discovery_keeps, lookup, CuratedEntry};
use ecodex::models_cmd::{list_heading, list_line, models_url, provider_selected, route_for_provider, synthesize_entry, RefreshArgs};
use ecodex::registry::{refresh_provider, table_of, SlugTable};

fn entry(slug: &str, ctx: Option<i64>) -> CuratedEntry {
    CuratedEntry {
        slug: slug.to_string(),
        display_name: None,
        description: None,
        context_window: ctx,
        supports_tools: None,
        reasoning: None,
        routes: vec![],
        jurisdiction: None,
        calibration_tier: None,
        last_verified: None,
        evidence: None,
    }
}

#[test]
fn all_entries_are_sorted_and_user_wins() {
    let user = vec![entry("z-ai/glm-5.2", Some(1)), entry("aaa/new", None)];
    let all = all_entries(&user);
    let slugs: Vec<&str> = all.iter().map(|e| e.slug.as_str()).collect();
    let mut sorted = slugs.clone();
    sorted.sort();
    sorted.dedup();
    assert_eq!(slugs, sorted);
    assert_eq!(all.len(), bundled_slugs().len() + 1);
    assert_eq!(all[0].slug, "aaa/new");
    let glm = all.iter().find(|e| e.slug == "z-ai/glm-5.2").unwrap();
    assert_eq!(glm.context_window, Some(1));
}

#[test]
fn slug_table_replaces_and_orders() {
    let mut t = SlugTable::new();
    t.insert(entry("b", None));
    t.insert(entry("a", None));
    t.insert(entry("b", Some(7)));
    assert_eq!(t.len(), 2);
    assert!(t.contains("a"));
    assert!(!t.contains("c"));
    let es = t.into_entries();
    assert_eq!(es[0].slug, "a");
    assert_eq!(es[1].context_window, Some(7));
}

#[test]
fn refresh_adds_new_coding_models_only() {
    let bundled = bundled_slugs();
    let mut acc = table_of(&[entry("deepseek-coder-v2", None)]);
    let ids: Vec<String> = ["qwen3-coder:30b", "deepseek-coder-v2", "text-embedding-3-large", "qwen3-coder-next", "kimi-k2-0905"]
        .iter()
        .map(|s| s.to_string())
        .collect();
    let kept = refresh_provider(&mut acc, &bundled, &[], &ids, false, "openrouter");
    assert!(kept >= 1);
    assert_eq!(acc.len(), 1 + kept);
    assert!(!acc.contains("qwen3-coder:30b"));
    assert!(!acc.contains("text-embedding-3-large"));
    let es = acc.into_entries();
    let added = es.iter().find(|e| e.slug != "deepseek-coder-v2").unwrap();
    assert_eq!(added.routes, vec!["openrouter".to_string()]);
    assert_eq!(added.evidence.as_deref(), Some("discovered: openrouter"));
    let mut again = table_of(&es);
    assert_eq!(refresh_provider(&mut again, &bundled, &[], &ids, false, "openrouter"), 0);
}

#[test]
fn refresh_without_filter_keeps_everything_new_once() {
    let mut acc = SlugTable::new();
    let ids: Vec<String> = ["x", "y", "x"].iter().map(|s| s.to_string()).collect();
    assert_eq!(refresh_provider(&mut acc, &[], &[], &ids, true, "my-ollama"), 2);
    assert_eq!(acc.into_entries()[0].routes, vec!["local".to_string()]);
}

#[test]
fn routes_and_synthesized_entries() {
    assert_eq!(route_for_provider("OpenRouter"), "openrouter");
    assert_eq!(route_for_provider("ollama"), "local");
    assert_eq!(route_for_provider("oss"), "local");
    assert_eq!(route_for_provider("mistral"), "direct");
    let e = synthesize_entry("m", "vllm-box");
    assert_eq!(e.supports_tools, Some(true));
    assert_eq!(e.calibration_tier.as_deref(), Some("unmeasured"));
    assert_eq!(e.routes, vec!["local".to_string()]);
}

#[test]
fn provider_selection() {
    let all = RefreshArgs::default();
    assert!(provider_selected(&all, "x"));
    let some = RefreshArgs { providers: vec!["a".to_string()], dry_run: false, no_filter: false };
    assert!(provider_selected(&some, "a"));
    assert!(!provider_selected(&some, "b"));
}

#[test]
fn list_lines_have_fixed_columns() {
    let mut e = entry("qwen", Some(262_144));
    e.supports_tools = Some(true);
    e.routes = vec!["local".to_string(), "direct".to_string()];
    let line = list_line(&e);
    assert_eq!(line, format!("  {:<34} {:>6}  {:<5} {:<5} {}{}", "qwen", "262k", "tools", "", "local,direct", ""));
    let bare = entry("b", None);
    assert_eq!(list_line(&bare), format!("  {:<34} {:>6}  {:<5} {:<5} {}{}", "b", "?", "", "", "-", ""));
    let neg = entry("n", Some(-1500));
    assert!(list_line(&neg).contains("-1k"));
    assert_eq!(list_heading(3), "Resolved model registry (3 entries):\n");
}

#[test]
fn lookup_and_discovery_consult_the_user_overlay() {
    let user = vec![entry("acme/special-coder", Some(64000)), entry("moonshotai/kimi-k2.6", Some(1))];
    assert!(lookup("acme/special-coder", &[]).is_none());
    assert_eq!(lookup("acme/special-coder", &user).unwrap().context_window, Some(64000));
    assert_eq!(lookup("moonshotai/kimi-k2.6", &user).unwrap().context_window, Some(1));
    assert!(!discovery_keeps("acme/special-coder", &[]));
    assert!(discovery_keeps("acme/special-coder", &user));
}

#[test]
fn all_entries_lists_every_curated_slug_once_in_order() {
    let user = vec![entry("acme/special-coder", Some(64000))];
    let all = all_entries(&user);
    for w in all.windows(2) {
        assert!(w[0].slug < w[1].slug);
    }
    for e in &all {
        assert_eq!(lookup(&e.slug, &user).unwrap().slug, e.slug);
    }
    for s in bundled_slugs() {
        assert!(all.iter().any(|e| e.slug == s));
    }
    assert!(all.iter().any(|e| e.slug == "acme/special-coder"));
}

#[test]
fn refresh_probes_the_models_endpoint_of_http_providers() {
    assert_eq!(models_url(Some("https://api.deepseek.com/v1/")), Some("https://api.deepseek.com/v1/models".to_string()));
    assert_eq!(models_url(Some("http://localhost:11434/v1")), Some("http://localhost:11434/v1/models".to_string()));
    assert_eq!(models_url(None), None);
}
