use ecodex::manifest::{
    load_plugin_manifest, resolve_default_prompt_str, resolve_manifest_path, resolve_runtime_path, PluginManifest,
    PluginManifestHooks,
};

const ROOT: &str = "/plugins/demo-plugin";
const HOME: &str = "/home/u";

fn manifest_with_interface(version: Option<&str>, interface: &str) -> String {
    let version = version.map(|version| format!("  \"version\": \"{version}\",\n")).unwrap_or_default();
    format!("{{\n  \"name\": \"demo-plugin\",\n{version}\n  \"interface\": {interface}\n}}")
}

fn load(contents: &str) -> PluginManifest {
    load_plugin_manifest(ROOT, Some("demo-plugin"), Some(HOME), contents).expect("load plugin manifest")
}

#[test]
fn plugin_interface_accepts_legacy_default_prompt_string() {
    let m = load(&manifest_with_interface(
        None,
        r#"{
    "displayName": "Demo Plugin",
    "defaultPrompt": "  Summarize   my inbox  "
  }"#,
    ));
    let interface = m.interface.expect("plugin interface");
    assert_eq!(interface.default_prompt, Some(vec!["Summarize my inbox".to_string()]));
}

#[test]
fn plugin_interface_normalizes_default_prompt_array() {
    let too_long = "x".repeat(128 + 1);
    let m = load(&manifest_with_interface(
        None,
        &format!(
            r#"{{
    "displayName": "Demo Plugin",
    "defaultPrompt": [
      " Summarize my inbox ",
      123,
      "{too_long}",
      "   ",
      "Draft the reply  ",
      "Find   my next action",
      "Archive old mail"
    ]
  }}"#
        ),
    ));
    let interface = m.interface.expect("plugin interface");
    assert_eq!(
        interface.default_prompt,
        Some(vec!["Summarize my inbox".to_string(), "Draft the reply".to_string(), "Find my next action".to_string()])
    );
}

#[test]
fn plugin_interface_ignores_invalid_default_prompt_shape() {
    let m = load(&manifest_with_interface(
        None,
        r#"{
    "displayName": "Demo Plugin",
    "defaultPrompt": { "text": "Summarize my inbox" }
  }"#,
    ));
    let interface = m.interface.expect("plugin interface");
    assert_eq!(interface.default_prompt, None);
}

#[test]
fn plugin_manifest_reads_trimmed_version() {
    let m = load(&manifest_with_interface(Some(" 1.2.3-beta+7 "), r#"{ "displayName": "Demo Plugin" }"#));
    assert_eq!(m.version, Some("1.2.3-beta+7".to_string()));
}

#[test]
fn plugin_manifest_reads_keywords() {
    let m = load(r#"{ "name": "demo-plugin", "keywords": ["api-key", "developer tools"] }"#);
    assert_eq!(m.keywords, vec!["api-key".to_string(), "developer tools".to_string()]);
}

#[test]
fn plugin_manifest_uses_alternate_discoverable_path() {
    let m = load(
        r#"{
  "name": "demo-plugin",
  "version": " 2.0.0 ",
  "interface": {
    "displayName": "Fallback Plugin"
  }
}"#,
    );
    assert_eq!(m.version, Some("2.0.0".to_string()));
    assert_eq!(m.interface.as_ref().and_then(|i| i.display_name.as_deref()), Some("Fallback Plugin"));
}

#[test]
fn plugin_manifest_resolves_statusline_path() {
    let m = load(r#"{ "name": "demo-plugin", "statusline": "./scripts/statusline.sh" }"#);
    let statusline = m.paths.statusline.as_ref().expect("statusline resolved");
    assert!(statusline.ends_with("scripts/statusline.sh"));
    assert_eq!(statusline, "/plugins/demo-plugin/scripts/statusline.sh");
}

#[test]
fn plugin_manifest_statusline_absent_when_unset() {
    let m = load(r#"{ "name": "demo-plugin" }"#);
    assert!(m.paths.statusline.is_none());
}

#[test]
fn plugin_manifest_statusline_rejects_non_relative_path() {
    let m = load(r#"{ "name": "demo-plugin", "statusline": "/etc/passwd" }"#);
    assert!(m.paths.statusline.is_none());
}

#[test]
fn plugin_manifest_resolves_writable_roots_tilde_and_absolute() {
    let m = load(r#"{ "name": "demo-plugin", "writableRoots": ["~/.empirica", "/var/lib/demo-plugin"] }"#);
    assert_eq!(m.paths.writable_roots, vec!["/home/u/.empirica".to_string(), "/var/lib/demo-plugin".to_string()]);
}

#[test]
fn plugin_manifest_writable_roots_rejects_relative_paths() {
    let m = load(r#"{ "name": "demo-plugin", "writableRoots": ["./scoped", "../escape", ".", "..", "relative/path"] }"#);
    assert!(m.paths.writable_roots.is_empty());
}

#[test]
fn plugin_manifest_writable_roots_rejects_parent_dir_components() {
    let m = load(r#"{ "name": "demo-plugin", "writableRoots": ["~/foo/../bar", "/etc/../passwd"] }"#);
    assert!(m.paths.writable_roots.is_empty());
}

#[test]
fn plugin_manifest_writable_roots_absent_when_unset() {
    let m = load(r#"{ "name": "demo-plugin" }"#);
    assert!(m.paths.writable_roots.is_empty(), "expected empty Vec when field is absent");
}

#[test]
fn plugin_manifest_writable_roots_skips_empty_strings() {
    let m = load(r#"{ "name": "demo-plugin", "writableRoots": ["", "   ", "/var/valid"] }"#);
    assert_eq!(m.paths.writable_roots, vec!["/var/valid".to_string()]);
}

#[test]
fn plugin_manifest_writable_roots_handles_bare_tilde() {
    let m = load(r#"{ "name": "demo-plugin", "writableRoots": ["~"] }"#);
    assert_eq!(m.paths.writable_roots, vec![HOME.to_string()]);
}

#[test]
fn blank_name_falls_back_to_directory_and_bad_types_refuse() {
    let m = load(r#"{ "name": "  ", "skills": "./skills/" }"#);
    assert_eq!(m.name, "demo-plugin");
    assert_eq!(m.paths.skills.as_deref(), Some("/plugins/demo-plugin/skills"));
    assert!(load_plugin_manifest(ROOT, None, None, r#"{ "name": 5 }"#).is_none());
    assert!(load_plugin_manifest(ROOT, None, None, r#"{ "interface": "x" }"#).is_none());
    assert!(load_plugin_manifest(ROOT, None, None, "not json").is_none());
    assert!(load_plugin_manifest(ROOT, None, None, r#"{ "interface": { "websiteUrl": "a", "websiteURL": "b" } }"#).is_none());
    let empty_interface = load(r#"{ "name": "p", "interface": {} }"#);
    assert!(empty_interface.interface.is_none());
}

#[test]
fn hooks_shapes_resolve() {
    let m = load(r#"{ "name": "p", "hooks": "./hooks.json" }"#);
    assert!(matches!(m.paths.hooks, Some(PluginManifestHooks::Paths(ref p)) if p == &vec!["/plugins/demo-plugin/hooks.json".to_string()]));
    let m = load(r#"{ "name": "p", "hooks": ["/abs", "./a/../b"] }"#);
    assert!(m.paths.hooks.is_none());
    let m = load(r#"{ "name": "p", "hooks": {"PreToolUse": []} }"#);
    assert!(matches!(m.paths.hooks, Some(PluginManifestHooks::Inline(ref v)) if v.len() == 1));
    let m = load(r#"{ "name": "p", "hooks": 3 }"#);
    assert!(m.paths.hooks.is_none());
}

#[test]
fn manifest_paths_must_stay_inside() {
    assert_eq!(resolve_manifest_path(ROOT, Some("./a//./b/")), Some("/plugins/demo-plugin/a/b".to_string()));
    assert_eq!(resolve_manifest_path(ROOT, Some("./")), None);
    assert_eq!(resolve_manifest_path(ROOT, Some("././a")), None);
    assert_eq!(resolve_manifest_path(ROOT, Some(".//a")), None);
    assert_eq!(resolve_manifest_path(ROOT, Some("a")), None);
    assert_eq!(resolve_manifest_path(ROOT, None), None);
    assert_eq!(resolve_runtime_path("  /x/./y ", None), Some("/x/./y".to_string()));
    assert_eq!(resolve_runtime_path("~/x", None), None);
    assert_eq!(resolve_default_prompt_str("  a \t b  "), Some("a b".to_string()));
    assert_eq!(resolve_default_prompt_str(" \n "), None);
}
