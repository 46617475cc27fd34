use ecodex::hook_output::translate;
use serde_json::Value;

fn parse(s: &str) -> Value {
    serde_json::from_str(s).unwrap()
}

#[test]
fn session_start_wraps_context_in_hook_specific_output() {
    let out = translate("SessionStart", r#"{"continue":true,"context":"hello"}"#);
    let v = parse(&out);
    assert_eq!(v["continue"], Value::Bool(true));
    assert_eq!(
        v["hookSpecificOutput"]["hookEventName"],
        Value::from("SessionStart")
    );
    assert_eq!(v["hookSpecificOutput"]["additionalContext"], Value::from("hello"));
}

#[test]
fn session_start_reads_nested_additional_context() {
    let out = translate(
        "SessionStart",
        r#"{"ok":true,"session_id":"785ec3ba","hookSpecificOutput":{"hookEventName":"SessionStart","additionalContext":"Session ID: 785ec3ba\nRun PREFLIGHT."}}"#,
    );
    let v = parse(&out);
    assert_eq!(
        v["hookSpecificOutput"]["additionalContext"],
        Value::from("Session ID: 785ec3ba\nRun PREFLIGHT."),
        "SessionStart must surface session-init's nested additionalContext to the model"
    );
}

#[test]
fn user_prompt_submit_wraps_context_and_carries_block_decision() {
    let out = translate(
        "UserPromptSubmit",
        r#"{"continue":true,"context":"<x>","decision":"block","reason":"why"}"#,
    );
    let v = parse(&out);
    assert_eq!(
        v["hookSpecificOutput"]["hookEventName"],
        Value::from("UserPromptSubmit")
    );
    assert_eq!(v["hookSpecificOutput"]["additionalContext"], Value::from("<x>"));
    assert_eq!(v["decision"], Value::from("block"));
    assert_eq!(v["reason"], Value::from("why"));
}

#[test]
fn pre_tool_use_remaps_decision_and_drops_suppress_output() {
    let out = translate(
        "PreToolUse",
        r#"{"continue":true,"decision":"block","stopReason":"praxic without check","suppressOutput":true}"#,
    );
    let v = parse(&out);
    assert_eq!(v["continue"], Value::Bool(true));
    assert_eq!(
        v["hookSpecificOutput"]["hookEventName"],
        Value::from("PreToolUse")
    );
    assert_eq!(v["hookSpecificOutput"]["permissionDecision"], Value::from("deny"));
    assert_eq!(
        v["hookSpecificOutput"]["permissionDecisionReason"],
        Value::from("praxic without check")
    );
    assert!(v.get("suppressOutput").is_none());
    assert!(v.get("decision").is_none());
}

#[test]
fn pre_tool_use_approve_omits_permission_decision() {
    let out = translate(
        "PreToolUse",
        r#"{"continue":true,"decision":"approve","stopReason":"sentinel allowed"}"#,
    );
    let v = parse(&out);
    assert!(
        v["hookSpecificOutput"].get("permissionDecision").is_none(),
        "allow must omit permissionDecision (codex rejects bare allow)"
    );
    assert!(
        v["hookSpecificOutput"]
            .get("permissionDecisionReason")
            .is_none()
    );
}

#[test]
fn pre_tool_use_carries_nested_permission_decision_deny() {
    let out = translate(
        "PreToolUse",
        r#"{"hookSpecificOutput":{"hookEventName":"PreToolUse","permissionDecision":"deny","permissionDecisionReason":"praxic before CHECK"}}"#,
    );
    let v = parse(&out);
    assert_eq!(v["hookSpecificOutput"]["permissionDecision"], Value::from("deny"));
    assert_eq!(
        v["hookSpecificOutput"]["permissionDecisionReason"],
        Value::from("praxic before CHECK")
    );
}

#[test]
fn pre_tool_use_nested_allow_omits_permission_decision_and_drops_suppress() {
    let out = translate(
        "PreToolUse",
        r#"{"hookSpecificOutput":{"hookEventName":"PreToolUse","permissionDecision":"allow"},"suppressOutput":true}"#,
    );
    let v = parse(&out);
    assert!(
        v["hookSpecificOutput"].get("permissionDecision").is_none(),
        "nested allow must omit permissionDecision so codex does not log it as unsupported"
    );
    assert!(v.get("suppressOutput").is_none());
}

#[test]
fn pre_tool_use_normalizes_ask_to_deny_nested() {
    let out = translate(
        "PreToolUse",
        r#"{"hookSpecificOutput":{"hookEventName":"PreToolUse","permissionDecision":"ask","permissionDecisionReason":"Previous CHECK returned INVESTIGATE. Consider running CHECK with proceed before praxic actions."}}"#,
    );
    let v = parse(&out);
    assert_eq!(
        v["hookSpecificOutput"]["permissionDecision"],
        Value::from("deny"),
        "ask must normalize to deny or codex fails it open"
    );
    assert_eq!(
        v["hookSpecificOutput"]["permissionDecisionReason"],
        Value::from("Previous CHECK returned INVESTIGATE. Consider running CHECK with proceed before praxic actions.")
    );
}

#[test]
fn pre_tool_use_normalizes_ask_to_deny_legacy() {
    let out = translate(
        "PreToolUse",
        r#"{"continue":true,"decision":"ask","reason":"need confirmation"}"#,
    );
    let v = parse(&out);
    assert_eq!(v["hookSpecificOutput"]["permissionDecision"], Value::from("deny"));
    assert_eq!(
        v["hookSpecificOutput"]["permissionDecisionReason"],
        Value::from("need confirmation")
    );
}

#[test]
fn pre_tool_use_ask_without_reason_gets_nonempty_deny_reason() {
    let out = translate(
        "PreToolUse",
        r#"{"hookSpecificOutput":{"hookEventName":"PreToolUse","permissionDecision":"ask"}}"#,
    );
    let v = parse(&out);
    assert_eq!(v["hookSpecificOutput"]["permissionDecision"], Value::from("deny"));
    let reason = v["hookSpecificOutput"]["permissionDecisionReason"]
        .as_str()
        .unwrap_or("");
    assert!(
        !reason.trim().is_empty(),
        "normalized ask→deny must carry a non-empty reason or codex fails open"
    );
}

#[test]
fn pre_tool_use_deny_without_reason_gets_nonempty_reason() {
    let out = translate(
        "PreToolUse",
        r#"{"hookSpecificOutput":{"hookEventName":"PreToolUse","permissionDecision":"deny"}}"#,
    );
    let v = parse(&out);
    assert_eq!(v["hookSpecificOutput"]["permissionDecision"], Value::from("deny"));
    let reason = v["hookSpecificOutput"]["permissionDecisionReason"]
        .as_str()
        .unwrap_or("");
    assert!(!reason.trim().is_empty());
}

fn codex_would_block(translated_stdout: &str) -> bool {
    let v: Value = serde_json::from_str(translated_stdout).unwrap_or(Value::Null);
    let hso = &v["hookSpecificOutput"];
    let decision = hso.get("permissionDecision").and_then(Value::as_str);
    let reason = hso
        .get("permissionDecisionReason")
        .and_then(Value::as_str)
        .unwrap_or("");
    decision == Some("deny") && !reason.trim().is_empty()
}

#[test]
fn e2e_sentinel_deny_blocks_through_translate() {
    let sentinel = r#"{"hookSpecificOutput":{"hookEventName":"PreToolUse","permissionDecision":"deny","permissionDecisionReason":"No valid CHECK found. Run CHECK after investigation."}}"#;
    assert!(
        codex_would_block(&translate("PreToolUse", sentinel)),
        "sentinel deny must translate to a codex-blocking shape"
    );
}

#[test]
fn e2e_sentinel_ask_blocks_through_translate() {
    let sentinel = r#"{"hookSpecificOutput":{"hookEventName":"PreToolUse","permissionDecision":"ask","permissionDecisionReason":"Previous CHECK returned INVESTIGATE."}}"#;
    assert!(
        codex_would_block(&translate("PreToolUse", sentinel)),
        "sentinel ask must normalize to a codex-blocking deny"
    );
}

#[test]
fn e2e_sentinel_allow_does_not_block() {
    let sentinel = r#"{"hookSpecificOutput":{"hookEventName":"PreToolUse","permissionDecision":"allow"},"suppressOutput":true}"#;
    assert!(
        !codex_would_block(&translate("PreToolUse", sentinel)),
        "sentinel allow must NOT block"
    );
}

#[test]
fn e2e_legacy_block_decision_blocks_through_translate() {
    let sentinel = r#"{"continue":true,"decision":"block","stopReason":"praxic before CHECK","suppressOutput":true}"#;
    assert!(codex_would_block(&translate("PreToolUse", sentinel)));
}

#[test]
fn empty_input_yields_minimal_continue_true() {
    let out = translate("SessionStart", "");
    let v = parse(&out);
    assert_eq!(v["continue"], Value::Bool(true));
    assert_eq!(
        v["hookSpecificOutput"]["hookEventName"],
        Value::from("SessionStart")
    );
}

#[test]
fn malformed_input_yields_continue_true() {
    let out = translate("PreToolUse", "{not json}");
    let v = parse(&out);
    assert_eq!(v["continue"], Value::Bool(true));
}

#[test]
fn unknown_event_returns_continue_true() {
    let out = translate("UnknownEvent", r#"{"context":"ignored"}"#);
    let v = parse(&out);
    assert_eq!(v["continue"], Value::Bool(true));
    assert!(v.get("hookSpecificOutput").is_none());
}

#[test]
fn stop_passes_through_compatible_fields_only() {
    let out = translate(
        "Stop",
        r#"{"continue":true,"decision":"block","reason":"transaction open","unknownField":"drop"}"#,
    );
    let v = parse(&out);
    assert_eq!(v["decision"], Value::from("block"));
    assert_eq!(v["reason"], Value::from("transaction open"));
    assert!(v.get("unknownField").is_none());
}
