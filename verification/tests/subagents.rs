use ecodex::subagents::{has_md_extension, needs_write};

#[test]
fn skips_non_markdown_files() {
    assert!(has_md_extension("valid.md"));
    assert!(!has_md_extension("README.txt"));
    assert!(!has_md_extension("config.yaml"));
    assert!(!has_md_extension(".md"));
    assert!(!has_md_extension("md"));
    assert!(has_md_extension("..md"));
}

#[test]
fn subagents_idempotent_when_content_matches() {
    assert!(!needs_write(Some(b"ux body\n"), b"ux body\n"));
}

#[test]
fn rewrites_when_content_drifts() {
    assert!(needs_write(Some(b"v1 body\n"), b"v2 body\n"));
    assert!(needs_write(None, b"v1 body\n"));
    assert!(needs_write(Some(b"v1"), b"v1 body\n"));
}
