use ecodex::agents_md::{append_block, codex_home_dir, compute_updated, replace_block, wrapped_block, BEGIN_MARKER, END_MARKER};

const PROMPT: &str = "# Empirica Discipline\n\nMeasure before acting.\n\n\n";

#[test]
fn creates_file_when_absent() {
    let content = compute_updated(None, PROMPT);
    assert!(content.contains(BEGIN_MARKER));
    assert!(content.contains(END_MARKER));
    assert!(content.contains("Empirica Discipline"));
}

#[test]
fn agents_md_idempotent_when_content_matches() {
    let first = compute_updated(None, PROMPT);
    // A second update on what the first produced writes nothing new.
    let second = compute_updated(Some(&first), PROMPT);
    assert_eq!(first, second);
}

#[test]
fn appends_block_when_user_file_lacks_markers() {
    let content = compute_updated(Some("# My personal AGENTS.md\n\nSome rules here.\n"), PROMPT);
    assert!(content.starts_with("# My personal AGENTS.md"));
    assert!(content.contains("Some rules here."));
    assert!(content.contains(BEGIN_MARKER));
    assert!(content.contains(END_MARKER));
}

#[test]
fn replaces_block_when_markers_present() {
    let stale = format!("Pre-amble\n\n{BEGIN_MARKER}\nstale empirica content\n{END_MARKER}\n\nPost-amble\n");
    let content = compute_updated(Some(&stale), PROMPT);
    assert!(content != stale);
    assert!(content.starts_with("Pre-amble"));
    assert!(content.contains("Post-amble"));
    assert!(!content.contains("stale empirica content"));
    assert!(content.contains("Empirica Discipline"));
}

#[test]
fn preserves_user_content_around_block_on_rewrite() {
    let body = compute_updated(None, PROMPT);
    let with_user = format!("# User intro\n\n{body}\n# User outro\n");
    let content = compute_updated(Some(&with_user), PROMPT);
    assert!(content.contains("# User intro"));
    assert!(content.contains("# User outro"));
    assert!(content.contains(BEGIN_MARKER));
    assert_eq!(content, with_user);
}

#[test]
fn falls_back_to_append_when_markers_malformed() {
    let malformed = format!("text {BEGIN_MARKER} dangling\n");
    let content = compute_updated(Some(&malformed), PROMPT);
    assert!(content.contains("dangling"));
    assert!(content.contains(END_MARKER));
    assert!(content.starts_with(&malformed));
}

#[test]
fn block_trims_trailing_newlines_of_prompt() {
    let block = wrapped_block(PROMPT);
    assert_eq!(
        block,
        format!("{BEGIN_MARKER}\n# Empirica Discipline\n\nMeasure before acting.\n{END_MARKER}\n")
    );
}

#[test]
fn append_block_separates_with_blank_line() {
    assert_eq!(append_block("abc", "B\n"), "abc\n\nB\n");
    assert_eq!(append_block("abc\n", "B\n"), "abc\n\nB\n");
    assert_eq!(append_block("", "B\n"), "\n\nB\n");
}

#[test]
fn replace_block_splices_and_normalises_final_newline() {
    let existing = format!("a{BEGIN_MARKER}old{END_MARKER}z");
    assert_eq!(replace_block(&existing, "NEW\n\n"), "aNEWz\n");
    let no_end = format!("a{BEGIN_MARKER}old");
    assert_eq!(replace_block(&no_end, "NEW\n"), format!("a{BEGIN_MARKER}old\n\nNEW\n"));
}

#[test]
fn codex_home_prefers_the_explicit_variable() {
    assert_eq!(codex_home_dir(Some("/srv/codex"), Some("/home/u")), Some("/srv/codex".to_string()));
    assert_eq!(codex_home_dir(None, Some("/home/u")), Some("/home/u/.codex".to_string()));
    assert_eq!(codex_home_dir(None, Some("/home/u/")), Some("/home/u/.codex".to_string()));
    assert_eq!(codex_home_dir(None, None), None);
}

#[test]
fn dangling_opening_marker_keeps_user_text_and_is_idempotent() {
    let existing = format!("text {BEGIN_MARKER} dangling\n");
    let first = compute_updated(Some(&existing), PROMPT);
    assert!(first.starts_with(&existing));
    assert!(first.ends_with(&wrapped_block(PROMPT)));
    let second = compute_updated(Some(&first), PROMPT);
    assert_eq!(second, first);
    assert!(second.contains(" dangling"));
}

#[test]
fn file_already_holding_the_current_block_is_left_alone() {
    let block = wrapped_block(PROMPT);
    let existing = format!("{}user notes without a final newline", block);
    assert_eq!(compute_updated(Some(&existing), PROMPT), existing);
}
