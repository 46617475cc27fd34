//! The PreToolUse firewall policy and the exit statuses the hook handlers
//! hand back to codex.

use vstd::prelude::*;

verus! {

/// Result of running an Empirica hook script.
#[derive(Debug, Clone, PartialEq, Eq)]
pub struct HookOutput {
    pub stdout: String,
    pub stderr: String,
    pub exit_code: i32,
}

/// What the firewall does with the sentinel's run.
#[derive(Debug, Clone, Copy, PartialEq, Eq)]
pub enum FirewallOutcome {
    /// The sentinel ran and decided; forward its output with this exit status
    /// (`0` allows, `2` denies).
    Forward(u8),
    /// The sentinel is installed but produced no usable decision (it crashed,
    /// exited with another status, or could not be started): deny.
    FailClosed,
    /// The sentinel is not installed: allow.
    FailOpenAbsent,
}

/// The firewall policy: a gate that ran forwards exit statuses `0` and `2`
/// and fails closed on any other; a gate that could not be run fails closed
/// when installed and open when absent.
pub open spec fn firewall_policy(ran: Option<i32>, script_exists: bool) -> FirewallOutcome {
    match ran {
        Some(code) => if code == 0 {
            FirewallOutcome::Forward(0)
        } else if code == 2 {
            FirewallOutcome::Forward(2)
        } else {
            FirewallOutcome::FailClosed
        },
        None => if script_exists {
            FirewallOutcome::FailClosed
        } else {
            FirewallOutcome::FailOpenAbsent
        },
    }
}

/// The exit status of a run, or `None` when the sentinel could not be run.
pub open spec fn run_status<E>(run: &Result<HookOutput, E>) -> Option<i32> {
    match run {
        Ok(o) => Some(o.exit_code),
        Err(_) => None,
    }
}

/// Map the sentinel's run and whether the sentinel is installed to what the
/// firewall does.
pub fn firewall_outcome<E>(run: &Result<HookOutput, E>, script_exists: bool) -> (o: FirewallOutcome)
    ensures
        o == firewall_policy(run_status(run), script_exists),
{
    match run {
        Ok(output) => match output.exit_code {
            0 => FirewallOutcome::Forward(0),
            2 => FirewallOutcome::Forward(2),
            _ => FirewallOutcome::FailClosed,
        },
        Err(_) => if script_exists {
            FirewallOutcome::FailClosed
        } else {
            FirewallOutcome::FailOpenAbsent
        },
    }
}

/// Only an absent gate lets a failed or crashed run through; every outcome
/// other than a forwarded `0` denies the tool call.
pub proof fn lemma_firewall_fails_closed(ran: Option<i32>, script_exists: bool)
    ensures
        firewall_policy(ran, script_exists) == FirewallOutcome::FailOpenAbsent <==> (ran is None
            && !script_exists),
        (ran is Some && ran != Some(0i32) && ran != Some(2i32)) ==> firewall_policy(ran, script_exists)
            == FirewallOutcome::FailClosed,
        firewall_policy(ran, script_exists) == FirewallOutcome::Forward(0) <==> ran == Some(0i32),
{
}

/// The exit status a handler passes on for a script's exit code: the low
/// eight bits of the code (so `0` stays `0` and `2` stays `2`).
pub fn hook_exit_status(code: i32) -> (s: u8)
    ensures
        s as int == code % 256,
        code == 0 ==> s == 0,
        code == 2 ==> s == 2,
{
    match code {
        0 => 0,
        2 => 2,
        c => {
            let s = (c & 0xff) as u8;
            assert(s as int == c % 256) by (bit_vector)
                requires
                    s == (c & 0xff) as u8,
            ;
            s
        },
    }
}

} // verus!
