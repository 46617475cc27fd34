use ecodex::practice_bootstrap::{
    plan_bootstrap, rewrite_ai_id, BootstrapCommand, BootstrapRun, BootstrapRefusal, PracticeBootstrapOutcome, WorkspaceFacts,
};

fn facts(workspace: &str, git: bool, empirica: bool) -> WorkspaceFacts {
    WorkspaceFacts {
        workspace: workspace.to_string(),
        process_cwd: workspace.to_string(),
        home: None,
        git_exists: git,
        empirica_exists: empirica,
        ancestor_has_git: false,
    }
}

#[test]
fn fresh_workspace_initializes_transport_then_practice_and_preserves_env_identity() {
    let plan = plan_bootstrap(&facts("/w/fresh", false, false), Some(" ecodex-lab ")).unwrap();
    assert_eq!(plan.commands, vec![BootstrapCommand::GitInit, BootstrapCommand::EmpiricaProjectInit]);
    assert_eq!(plan.ai_id.as_deref(), Some("ecodex-lab"));
    let project = rewrite_ai_id("name: fresh\nai_id: fresh\n", plan.ai_id.as_deref().unwrap()).unwrap();
    assert!(project.contains("ai_id: \"ecodex-lab\"\n"));
    assert_eq!(project, "name: fresh\nai_id: \"ecodex-lab\"\n");
}

#[test]
fn initialized_workspace_is_a_noop() {
    let plan = plan_bootstrap(&facts("/w/done", true, true), Some("ecodex-lab")).unwrap();
    assert!(plan.commands.is_empty());
    assert_eq!(plan.ai_id, None);
    let outcome = PracticeBootstrapOutcome { workspace: "/w/done".to_string(), git_initialized: false, empirica_initialized: false };
    assert!(!outcome.changed());
}

#[test]
fn existing_git_transport_only_initializes_empirica() {
    let plan = plan_bootstrap(&facts("/w/git", true, false), None).unwrap();
    assert_eq!(plan.commands, vec![BootstrapCommand::EmpiricaProjectInit]);
}

#[test]
fn hook_cwd_must_match_process_cwd() {
    let mut f = facts("/w/other", false, false);
    f.process_cwd = "/w/process".to_string();
    let error = plan_bootstrap(&f, None).err().expect("reject mismatched cwd");
    assert!(error.message().contains("refusing to bootstrap"));
    assert_eq!(error.message(), "refusing to bootstrap /w/other because the SessionStart process runs at /w/process");
}

#[test]
fn nested_workspace_does_not_mutate_ancestor_repository() {
    let mut f = facts("/w/repo/nested", false, false);
    f.ancestor_has_git = true;
    let error = plan_bootstrap(&f, None).err().expect("reject nested workspace");
    assert!(error.message().contains("ancestor git repository"));
    let mut own = facts("/w/repo/nested", true, false);
    own.ancestor_has_git = true;
    assert!(plan_bootstrap(&own, None).is_ok());
}

#[test]
fn git_failure_prevents_project_initialization() {
    // The commands run in order and the first failure stops the rest, so
    // git init comes first whenever both are due.
    let plan = plan_bootstrap(&facts("/w/fresh", false, false), None).unwrap();
    assert_eq!(plan.commands[0], BootstrapCommand::GitInit);
    assert_eq!(plan.commands[0].program_name(), "git init");
    assert_eq!(plan.commands[0].argv(), ("git", vec!["init", "--quiet"]));
    assert_eq!(plan.commands[1].argv(), ("empirica", vec!["project-init", "--non-interactive", "--output", "json"]));
}

#[test]
fn home_directory_workspace_is_refused() {
    let mut f = facts("/home/u", false, false);
    f.home = Some("/home/u".to_string());
    let error = plan_bootstrap(&f, None).err().expect("refuse home-directory workspace");
    assert!(error.message().contains("home directory"));
    assert_eq!(plan_bootstrap(&facts("/", false, false), None).err(), Some(BootstrapRefusal::FilesystemRoot));
}

#[test]
fn non_home_workspace_passes_home_guard() {
    let mut f = facts("/t/workspace", false, false);
    f.home = Some("/t/home".to_string());
    let plan = plan_bootstrap(&f, None).unwrap();
    assert!(!plan.commands.is_empty());
}

#[test]
fn ai_id_rewrite_needs_exactly_one_line() {
    assert_eq!(rewrite_ai_id("a: 1\r\nai_id: x\r\n", "y"), Ok("a: 1\r\nai_id: \"y\"\r\n".to_string()));
    assert_eq!(rewrite_ai_id("ai_id: x", "q\""), Ok("ai_id: \"q\\\"\"".to_string()));
    assert_eq!(rewrite_ai_id("name: n\n", "y"), Err(0));
    assert_eq!(rewrite_ai_id("ai_id: a\nai_id: b\n", "y"), Err(2));
    assert_eq!(rewrite_ai_id("  ai_id: nested\n", "y"), Err(0));
}

#[test]
fn run_stops_at_the_first_failing_command_and_returns_its_error() {
    let mut run = BootstrapRun::start(
        vec![BootstrapCommand::GitInit, BootstrapCommand::EmpiricaProjectInit],
        "/work/p".to_string(),
    );
    assert_eq!(run.next_command(), Some(BootstrapCommand::GitInit));
    let r: Result<(), String> = run.record(Err("git init failed".to_string()));
    assert_eq!(r, Err("git init failed".to_string()));
    assert_eq!(run.next_command(), None);
    let outcome = run.finish();
    assert!(!outcome.git_initialized);
    assert!(!outcome.empirica_initialized);
    assert!(!outcome.changed());
}

#[test]
fn completed_run_flags_the_commands_it_ran() {
    let mut run = BootstrapRun::start(vec![BootstrapCommand::EmpiricaProjectInit], "/work/p".to_string());
    while let Some(_) = run.next_command() {
        let r: Result<(), String> = run.record(Ok(()));
        assert!(r.is_ok());
    }
    let outcome = run.finish();
    assert_eq!(outcome.workspace, "/work/p");
    assert!(!outcome.git_initialized);
    assert!(outcome.empirica_initialized);
    assert!(outcome.changed());
}

#[test]
fn session_start_cwd_is_read_from_the_hook_input() {
    assert_eq!(
        ecodex::practice_bootstrap::session_start_cwd(r#"{"session_id":"s","cwd":"/work/p"}"#),
        Some("/work/p".to_string())
    );
    assert_eq!(ecodex::practice_bootstrap::session_start_cwd(r#"{"session_id":"s"}"#), None);
    assert_eq!(ecodex::practice_bootstrap::session_start_cwd("not json"), None);
}
