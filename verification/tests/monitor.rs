use ecodex::json::Json;
use ecodex::monitor::{
    arm_failed_message, arm_reply, invalid_arguments_message, kill_reply, list_reply, monitor_tool_spec,
    notification, prepare_monitor, unsupported_payload_message, ArmMonitorOptions, CompiledPattern, MonitorArmError,
    MonitorEntryInfo, MonitorHandler, MonitorStream, MonitorToolOutput, MonitorWatch,
};

fn options(command: &[&str], pattern: &str, persistent: bool) -> ArmMonitorOptions {
    ArmMonitorOptions {
        command: command.iter().map(|s| s.to_string()).collect(),
        pattern: pattern.to_string(),
        persistent,
        stream: MonitorStream::default(),
        cwd: None,
    }
}

#[test]
fn empty_command_is_refused() {
    match prepare_monitor(&options(&[], "x", false)) {
        Err(e) => {
            assert_eq!(e, MonitorArmError::EmptyCommand);
            assert_eq!(e.message(), "monitor command must have at least one element");
        }
        Ok(_) => panic!("empty command accepted"),
    }
}

#[test]
fn invalid_pattern_is_refused() {
    match prepare_monitor(&options(&["tail", "-f", "log"], "foo(bar", false)) {
        Err(MonitorArmError::InvalidPattern(m)) => {
            assert!(!m.is_empty());
            let full = arm_failed_message(&MonitorArmError::InvalidPattern(m.clone()));
            assert_eq!(full, format!("monitor arm failed: invalid regex pattern: {m}"));
        }
        _ => panic!("invalid pattern accepted"),
    }
}

#[test]
fn valid_request_joins_command_for_display() {
    match prepare_monitor(&options(&["tail", "-f", "log"], "ERROR", true)) {
        Ok(p) => {
            assert_eq!(p.command_display, "tail -f log");
            assert!(p.persistent);
            assert_eq!(p.stream, MonitorStream::Stdout);
        }
        Err(e) => panic!("refused: {}", e.message()),
    }
}

#[test]
fn one_shot_watch_notifies_once() {
    let pattern = match CompiledPattern::compile("ERR") {
        Ok(p) => p,
        Err(m) => panic!("{m}"),
    };
    let mut w = MonitorWatch::new("m1".to_string(), "tail -f log".to_string(), false);
    assert_eq!(w.on_line(&pattern, "all good"), None);
    assert!(w.is_armed());
    assert_eq!(
        w.on_line(&pattern, "ERR disk"),
        Some(
            "<task-notification>\n<monitor-id>m1</monitor-id>\n<command>tail -f log</command>\n<matched-line>ERR disk</matched-line>\n</task-notification>"
                .to_string()
        )
    );
    assert!(!w.is_armed());
    assert_eq!(w.on_line(&pattern, "ERR again"), None);
}

#[test]
fn persistent_watch_notifies_each_match() {
    let pattern = match CompiledPattern::compile("^event: ") {
        Ok(p) => p,
        Err(m) => panic!("{m}"),
    };
    let mut w = MonitorWatch::new("m2".to_string(), "curl".to_string(), true);
    let lines = ["event: a", "noise", "event: b"];
    let notes: Vec<String> = lines.iter().filter_map(|l| w.on_line(&pattern, l)).collect();
    assert_eq!(notes.len(), 2);
    assert_eq!(notes[1], notification("m2", "curl", "event: b"));
    assert!(w.is_armed());
}

#[test]
fn stream_names_round_trip() {
    for s in [MonitorStream::Stdout, MonitorStream::Stderr, MonitorStream::Both] {
        assert_eq!(MonitorStream::from_name(s.name()), Some(s));
    }
    assert_eq!(MonitorStream::from_name("STDOUT"), None);
}

#[test]
fn replies_carry_their_fields() {
    let out = MonitorToolOutput::from_reply(&arm_reply("abc"));
    let text = out.log_output();
    assert!(text.contains("\"monitor_id\":\"abc\""));
    assert!(text.contains("\"armed\":true"));
    assert!(out.success_for_logging());
    match out.code_mode_result() {
        Json::Object(ms) => assert_eq!(ms.len(), 3),
        other => panic!("not an object: {other:?}"),
    }
    let kill = MonitorToolOutput::from_reply(&kill_reply("abc", false)).log_output();
    assert!(kill.contains("\"killed\":false"));
    let entries = vec![MonitorEntryInfo {
        monitor_id: "x".to_string(),
        command: vec!["a".to_string(), "b".to_string()],
        pattern: "p".to_string(),
        persistent: true,
    }];
    let list = MonitorToolOutput::from_reply(&list_reply(&entries)).log_output();
    assert!(list.contains("\"count\":1"));
    assert!(list.contains("\"command\":[\"a\",\"b\"]"));
}

#[test]
fn handler_messages() {
    assert_eq!(unsupported_payload_message(), "monitor handler received unsupported payload");
    assert_eq!(
        invalid_arguments_message("missing field `action`"),
        "monitor: invalid arguments: missing field `action`. Expected one of: {\"action\":\"arm\",\"command\":[...],\"pattern\":\"...\"} | {\"action\":\"kill\",\"monitor_id\":\"...\"} | {\"action\":\"list\"}"
    );
}

#[test]
fn tool_spec_requires_action() {
    let spec = monitor_tool_spec();
    assert_eq!(spec.name, "monitor");
    assert!(!spec.strict);
    let params = MonitorToolOutput::from_reply(&spec.parameters).log_output();
    assert!(params.contains("\"required\":[\"action\"]"));
    assert!(params.contains("\"additionalProperties\":false"));
    assert!(params.contains("\"enum\":[\"stdout\",\"stderr\",\"both\"]"));
}

#[test]
fn handler_names_the_monitor_tool_and_offers_its_spec() {
    let h = MonitorHandler;
    assert_eq!(h.tool_name(), "monitor");
    let spec = h.spec();
    assert_eq!(spec.name, "monitor");
    assert!(!spec.strict);
    assert_eq!(spec.description, monitor_tool_spec().description);
}
