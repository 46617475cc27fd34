use ecodex::firewall::{firewall_outcome, hook_exit_status, FirewallOutcome, HookOutput};

fn ran(exit_code: i32) -> Result<HookOutput, String> {
    Ok(HookOutput { stdout: String::new(), stderr: String::new(), exit_code })
}

fn failed_to_run() -> Result<HookOutput, String> {
    Err("spawn failed".to_string())
}

#[test]
fn exit_0_forwards_allow() {
    assert_eq!(firewall_outcome(&ran(0), true), FirewallOutcome::Forward(0));
}

#[test]
fn exit_2_forwards_deny() {
    assert_eq!(firewall_outcome(&ran(2), true), FirewallOutcome::Forward(2));
}

#[test]
fn unexpected_exit_code_fails_closed() {
    assert_eq!(firewall_outcome(&ran(1), true), FirewallOutcome::FailClosed);
    assert_eq!(firewall_outcome(&ran(127), true), FirewallOutcome::FailClosed);
    assert_eq!(firewall_outcome(&ran(-1), true), FirewallOutcome::FailClosed);
}

#[test]
fn run_failure_with_gate_present_fails_closed() {
    assert_eq!(firewall_outcome(&failed_to_run(), true), FirewallOutcome::FailClosed);
}

#[test]
fn run_failure_with_gate_absent_fails_open() {
    assert_eq!(firewall_outcome(&failed_to_run(), false), FirewallOutcome::FailOpenAbsent);
}

#[test]
fn exit_status_wraps_like_a_process_exit_code() {
    assert_eq!(hook_exit_status(0), 0);
    assert_eq!(hook_exit_status(2), 2);
    assert_eq!(hook_exit_status(256), 0);
    assert_eq!(hook_exit_status(-1), 255);
}

#[test]
fn present_gate_never_fails_open_whatever_it_returns() {
    for code in [-1, 0, 1, 2, 3, 127, 255] {
        assert_ne!(firewall_outcome(&ran(code), true), FirewallOutcome::FailOpenAbsent);
        assert_ne!(firewall_outcome(&ran(code), false), FirewallOutcome::FailOpenAbsent);
    }
}
