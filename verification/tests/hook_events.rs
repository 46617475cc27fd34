use ecodex::hook_events::{compact_kind, completed_status, i32_decimal, CompactKind, HookOutputEntryKind, HookRunStatus};

#[test]
fn decimal_notation_of_codes() {
    assert_eq!(i32_decimal(0), "0");
    assert_eq!(i32_decimal(7), "7");
    assert_eq!(i32_decimal(127), "127");
    assert_eq!(i32_decimal(-1), "-1");
    assert_eq!(i32_decimal(i32::MIN), "-2147483648");
    assert_eq!(i32_decimal(i32::MAX), "2147483647");
}

#[test]
fn exit_zero_completes_without_entries() {
    let (status, entries) = completed_status(None, Some(0));
    assert_eq!(status, HookRunStatus::Completed);
    assert!(entries.is_empty());
}

#[test]
fn nonzero_exit_fails_with_the_code() {
    let (status, entries) = completed_status(None, Some(3));
    assert_eq!(status, HookRunStatus::Failed);
    assert_eq!(entries.len(), 1);
    assert_eq!(entries[0].kind, HookOutputEntryKind::Error);
    assert_eq!(entries[0].text, "hook exited with code 3");
}

#[test]
fn missing_exit_code_fails() {
    let (status, entries) = completed_status(None, None);
    assert_eq!(status, HookRunStatus::Failed);
    assert_eq!(entries[0].text, "hook exited without a status code");
}

#[test]
fn infrastructure_error_wins_over_exit_code() {
    let (status, entries) = completed_status(Some("spawn failed"), Some(0));
    assert_eq!(status, HookRunStatus::Failed);
    assert_eq!(entries.len(), 1);
    assert_eq!(entries[0].text, "spawn failed");
}

#[test]
fn compact_kind_selection_and_labels() {
    assert_eq!(compact_kind(false, true), CompactKind::Local);
    assert_eq!(compact_kind(true, false), CompactKind::Remote);
    assert_eq!(compact_kind(true, true), CompactKind::RemoteV2);
    assert_eq!(CompactKind::Local.name(), "local");
    assert_eq!(CompactKind::Remote.name(), "remote");
    assert_eq!(CompactKind::RemoteV2.name(), "remote_v2");
    assert_eq!(CompactKind::RemoteV2.counter_label(), "remote");
    assert_eq!(CompactKind::Local.counter_label(), "local");
}
