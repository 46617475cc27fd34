use ecodex::firewall::HookOutput;
use ecodex::hook_output::relay_hook_run;
use ecodex::statusline::{sync_sources, 
    build_statusline_stdin_payload, instance_file_candidates, read_instance_binding, read_session_id, session_for_cwd,
    InstanceEntry,
};

#[test]
fn candidates_follow_priority_order() {
    assert_eq!(
        instance_file_candidates(Some("abc"), Some("%%12"), Some("w0t0p0:A/B"), Some("77")),
        vec!["abc.json", "tmux_12.json", "term_w0t0p0:A_B.json", "wid_77.json"]
    );
    assert_eq!(instance_file_candidates(Some(""), None, None, None), Vec::<String>::new());
}

#[test]
fn instance_files_name_sessions() {
    assert_eq!(read_session_id(r#"{"empirica_session_id":"e1","session_id":"s1"}"#), Some("e1".to_string()));
    assert_eq!(read_session_id(r#"{"session_id":"s1"}"#), Some("s1".to_string()));
    assert_eq!(read_session_id(r#"{"empirica_session_id":null,"session_id":"s1"}"#), None);
    assert_eq!(read_session_id("garbage"), None);
    assert_eq!(
        read_instance_binding(r#"{"project_path":"/p","empirica_session_id":3,"session_id":"s"}"#),
        Some(("/p".to_string(), "s".to_string()))
    );
    assert_eq!(read_instance_binding(r#"{"session_id":"s"}"#), None);
}

#[test]
fn newest_prefix_match_wins() {
    let entries = vec![
        InstanceEntry { modified: 5, binding: Some(("/p".to_string(), "old".to_string())) },
        InstanceEntry { modified: 9, binding: Some(("/p/sub".to_string(), "new".to_string())) },
        InstanceEntry { modified: 9, binding: Some(("/p".to_string(), "tie".to_string())) },
        InstanceEntry { modified: 20, binding: Some(("/elsewhere".to_string(), "no".to_string())) },
        InstanceEntry { modified: 30, binding: None },
    ];
    assert_eq!(session_for_cwd(&entries, "/p/sub/x"), Some("new".to_string()));
    assert_eq!(session_for_cwd(&entries, "/q"), None);
}

#[test]
fn stdin_payload_is_valid_json() {
    assert_eq!(build_statusline_stdin_payload(None, None), "{}");
    assert_eq!(build_statusline_stdin_payload(Some("s"), Some("/c")), r#"{"cwd":"/c","session_id":"s"}"#);
    assert_eq!(build_statusline_stdin_payload(None, Some("/c")), r#"{"cwd":"/c"}"#);
}

#[test]
fn hook_runs_are_relayed_fail_open() {
    let ok: Result<HookOutput, String> =
        Ok(HookOutput { stdout: "not json".to_string(), stderr: "warn".to_string(), exit_code: 258 });
    let reply = relay_hook_run("SessionStart", &ok);
    assert_eq!(reply.exit_status, 2);
    assert_eq!(reply.stderr, "warn");
    assert!(reply.stdout.contains("continue"));
    let failed: Result<HookOutput, String> = Err("spawn".to_string());
    let reply = relay_hook_run("Stop", &failed);
    assert_eq!(reply.exit_status, 0);
    assert!(reply.stdout.is_empty());
}

fn strs(v: &[&str]) -> Vec<String> {
    v.iter().map(|s| s.to_string()).collect()
}

#[test]
fn sync_aborts_stale_and_spawns_new_sources_once() {
    let running = strs(&["empirica@local", "old@local"]);
    let wanted = strs(&["empirica@local", "fresh@local", "fresh@local"]);
    let plan = sync_sources(&running, &wanted);
    assert_eq!(plan.abort, strs(&["old@local"]));
    assert_eq!(plan.spawn, strs(&["fresh@local"]));
}

#[test]
fn sync_leaves_exactly_the_wanted_sources_running() {
    let running = strs(&["a", "b", "c"]);
    let wanted = strs(&["c", "d", "a"]);
    let plan = sync_sources(&running, &wanted);
    let mut after: Vec<String> = running
        .iter()
        .filter(|r| !plan.abort.contains(r))
        .cloned()
        .chain(plan.spawn.iter().cloned())
        .collect();
    after.sort();
    let mut expected = wanted.clone();
    expected.sort();
    assert_eq!(after, expected);
}

#[test]
fn sync_with_nothing_wanted_aborts_everything() {
    let plan = sync_sources(&strs(&["a", "b"]), &[]);
    assert_eq!(plan.abort, strs(&["a", "b"]));
    assert!(plan.spawn.is_empty());
}
