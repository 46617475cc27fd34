use ecodex::empirica_cli::{expand_tilde, extract_session_id_from_input, hook_env, hooks_dir, join_path};

#[test]
fn explicit_override_wins() {
    assert_eq!(
        hooks_dir(Some("/tmp/manual/hooks"), Some("/should/be/ignored"), None),
        Some("/tmp/manual/hooks".to_string())
    );
}

#[test]
fn plugin_root_used_when_override_absent() {
    assert_eq!(
        hooks_dir(None, Some("/var/codex/plugin/install"), None),
        Some("/var/codex/plugin/install/hooks_scripts/hooks".to_string())
    );
}

#[test]
fn override_path_with_tilde_expands() {
    assert_eq!(hooks_dir(Some("~/custom/hooks"), None, Some("/home/foo")), Some("/home/foo/custom/hooks".to_string()));
}

#[test]
fn nothing_set_gives_no_directory() {
    assert_eq!(hooks_dir(None, None, Some("/home/test")), None);
}

#[test]
fn paths_join_like_pathbuf_push() {
    assert_eq!(join_path("/a", "b"), "/a/b");
    assert_eq!(join_path("/a/", "b"), "/a/b");
    assert_eq!(join_path("/a", "/b"), "/b");
    assert_eq!(join_path("", "b"), "b");
    assert_eq!(expand_tilde("~/x", None), "~/x");
    assert_eq!(expand_tilde("/abs", Some("/h")), "/abs");
}

#[test]
fn session_id_comes_from_input() {
    assert_eq!(extract_session_id_from_input(r#"{"session_id":"abc"}"#), Some("abc".to_string()));
    assert_eq!(extract_session_id_from_input(r#"{"session_id":""}"#), None);
    assert_eq!(extract_session_id_from_input(r#"{"session_id":3}"#), None);
    assert_eq!(extract_session_id_from_input("not json"), None);
    let env = hook_env(r#"{"session_id":"s1"}"#);
    assert_eq!(
        env,
        vec![
            ("EMPIRICA_INSTANCE_ID".to_string(), "s1".to_string()),
            ("EMPIRICA_CWD_RELIABLE".to_string(), "true".to_string()),
            ("EMPIRICA_HARNESS".to_string(), "codex".to_string()),
        ]
    );
    assert_eq!(hook_env("{}").len(), 2);
}
