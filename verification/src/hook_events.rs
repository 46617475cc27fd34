//! How a finished hook handler run is reported for the informational
//! lifecycle events (post-compact, subagent start and stop, task completed,
//! post-tool-use failure): its status and the entries shown beside it.

use vstd::prelude::*;

use crate::text::{concat_str, dec_string, dec_text};

verus! {

/// How a hook handler run ended.
#[derive(Debug, Clone, Copy, PartialEq, Eq, Structural)]
pub enum HookRunStatus {
    Completed,
    Failed,
}

/// The kind of an entry reported beside a run.
#[derive(Debug, Clone, Copy, PartialEq, Eq, Structural)]
pub enum HookOutputEntryKind {
    Error,
}

/// One entry reported beside a run.
#[derive(Debug, Clone, PartialEq, Eq)]
pub struct HookOutputEntry {
    pub kind: HookOutputEntryKind,
    pub text: String,
}

/// Decimal notation of `n`, with a minus sign when negative (as
/// `format!("{n}")` writes it).
pub open spec fn int_decimal(n: int) -> Seq<char> {
    if n < 0 {
        seq!['-'] + dec_text((-n) as nat)
    } else {
        dec_text(n as nat)
    }
}

/// Decimal notation of `n`.
pub fn i32_decimal(n: i32) -> (s: String)
    ensures
        s@ == int_decimal(n as int),
{
    if n < 0 {
        let magnitude: u64 = (0i64 - (n as i64)) as u64;
        let digits = dec_string(magnitude);
        proof {
            reveal_strlit("-");
        }
        concat_str("-", digits.as_str())
    } else {
        dec_string(n as u64)
    }
}

/// The status of a finished run and the entries shown beside it: a run
/// that could not be carried out fails with its error; a run that exited
/// 0 completes; any other exit code, or none, fails with a message saying
/// so.
pub open spec fn completed_report(error: Option<Seq<char>>, exit_code: Option<i32>) -> (
    HookRunStatus,
    Seq<Seq<char>>,
) {
    match error {
        Some(e) => (HookRunStatus::Failed, seq![e]),
        None => match exit_code {
            Some(c) => if c == 0 {
                (HookRunStatus::Completed, Seq::empty())
            } else {
                (HookRunStatus::Failed, seq!["hook exited with code "@ + int_decimal(c as int)])
            },
            None => (HookRunStatus::Failed, seq!["hook exited without a status code"@]),
        },
    }
}

/// The texts of a list of entries, all of which are errors.
pub open spec fn error_texts(entries: Seq<HookOutputEntry>) -> Seq<Seq<char>> {
    entries.map_values(|e: HookOutputEntry| e.text@)
}

/// Report a finished run from its infrastructure error (if any) and its
/// exit code (if it had one).
pub fn completed_status(error: Option<&str>, exit_code: Option<i32>) -> (r: (HookRunStatus, Vec<HookOutputEntry>))
    ensures
        r.0 == completed_report(crate::manifest::ostr_ref(error), exit_code).0,
        error_texts(r.1@) == completed_report(crate::manifest::ostr_ref(error), exit_code).1,
        forall|i: int| 0 <= i < r.1@.len() ==> (#[trigger] r.1@[i]).kind == HookOutputEntryKind::Error,
{
    let mut entries: Vec<HookOutputEntry> = Vec::new();
    let status = match error {
        Some(e) => {
            entries.push(HookOutputEntry { kind: HookOutputEntryKind::Error, text: e.to_string() });
            HookRunStatus::Failed
        },
        None => match exit_code {
            Some(0) => HookRunStatus::Completed,
            Some(c) => {
                let code = i32_decimal(c);
                proof {
                    reveal_strlit("hook exited with code ");
                }
                entries.push(
                    HookOutputEntry {
                        kind: HookOutputEntryKind::Error,
                        text: concat_str("hook exited with code ", code.as_str()),
                    },
                );
                HookRunStatus::Failed
            },
            None => {
                entries.push(
                    HookOutputEntry {
                        kind: HookOutputEntryKind::Error,
                        text: "hook exited without a status code".to_string(),
                    },
                );
                HookRunStatus::Failed
            },
        },
    };
    assert(error_texts(entries@) =~= completed_report(crate::manifest::ostr_ref(error), exit_code).1);
    (status, entries)
}

/// Which compaction implementation a compact task runs.
#[derive(Debug, Clone, Copy, PartialEq, Eq, Structural)]
pub enum CompactKind {
    Local,
    Remote,
    RemoteV2,
}

impl CompactKind {
    /// The `compact_type` the pre- and post-compact hooks are told.
    pub fn name(self) -> (r: &'static str)
        ensures
            r@ == match self {
                CompactKind::Local => "local"@,
                CompactKind::Remote => "remote"@,
                CompactKind::RemoteV2 => "remote_v2"@,
            },
    {
        match self {
            CompactKind::Local => "local",
            CompactKind::Remote => "remote",
            CompactKind::RemoteV2 => "remote_v2",
        }
    }

    /// The `type` label of the compaction counter: both remote kinds count
    /// as `remote`.
    pub fn counter_label(self) -> (r: &'static str)
        ensures
            r@ == match self {
                CompactKind::Local => "local"@,
                _ => "remote"@,
            },
    {
        match self {
            CompactKind::Local => "local",
            _ => "remote",
        }
    }
}

/// The compaction a task runs: remote when the provider compacts
/// remotely (the second version when that feature is on), local otherwise.
pub fn compact_kind(use_remote: bool, remote_v2_enabled: bool) -> (k: CompactKind)
    ensures
        k == (if !use_remote {
            CompactKind::Local
        } else if remote_v2_enabled {
            CompactKind::RemoteV2
        } else {
            CompactKind::Remote
        }),
{
    if use_remote {
        if remote_v2_enabled {
            CompactKind::RemoteV2
        } else {
            CompactKind::Remote
        }
    } else {
        CompactKind::Local
    }
}

} // verus!
