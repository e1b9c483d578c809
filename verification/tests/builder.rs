use agent_of_empires::git::WorktreeEntry;
use agent_of_empires::session::{
    agent_setting, choose_worktree, plan_instance, project_path_error, sandbox_runtime_error, worktree_action,
    BuildConfig, InstanceParams, WorktreeAction, WorktreeChoice, WorktreeFacts,
};

fn entry(path: &str, branch: Option<&str>) -> WorktreeEntry {
    WorktreeEntry { path: path.to_string(), branch: branch.map(|b| b.to_string()), is_detached: branch.is_none() }
}

#[test]
fn new_branch_always_gets_a_new_worktree() {
    let existing = vec![entry("/r", Some("feat"))];
    assert_eq!(choose_worktree(true, &existing, "feat"), WorktreeChoice::CreateWithNewBranch);
}

#[test]
fn existing_branch_reuses_its_first_worktree() {
    let existing = vec![entry("/r", Some("main")), entry("/w1", None), entry("/w2", Some("feat")), entry("/w3", Some("feat"))];
    assert_eq!(choose_worktree(false, &existing, "feat"), WorktreeChoice::UseExisting(2));
    assert_eq!(choose_worktree(false, &existing, "other"), WorktreeChoice::CreateForExistingBranch);
}

#[test]
fn session_value_beats_configured_agent_setting() {
    assert_eq!(agent_setting("my-agent", Some("team-agent"), "agent"), "my-agent");
    assert_eq!(agent_setting("", Some("team-agent"), "agent"), "team-agent");
    assert_eq!(agent_setting("", Some(""), "agent"), "agent");
    assert_eq!(agent_setting("", None, ""), "");
}

#[test]
fn project_path_must_be_an_existing_directory() {
    assert_eq!(project_path_error("/p", false, false), Some("Project path does not exist: /p".to_string()));
    assert_eq!(project_path_error("/p", true, false), Some("Project path is not a directory: /p".to_string()));
    assert_eq!(project_path_error("/p", true, true), None);
}

fn params(title: &str, sandbox: bool) -> InstanceParams {
    InstanceParams {
        title: title.to_string(),
        path: "/work/proj".to_string(),
        group: "team/web".to_string(),
        tool: "agent".to_string(),
        worktree_branch: None,
        create_new_branch: false,
        sandbox,
        sandbox_image: "img:1".to_string(),
        yolo_mode: true,
        extra_env: vec![],
        extra_args: String::new(),
        command_override: String::new(),
    }
}

fn config() -> BuildConfig {
    BuildConfig {
        default_command: "agent".to_string(),
        command_override: Some("team-agent".to_string()),
        extra_args: None,
        custom_instruction: Some("be nice".to_string()),
    }
}

#[test]
fn runtime_checked_only_for_sandboxes() {
    assert_eq!(sandbox_runtime_error(false, false, false), None);
    assert_eq!(
        sandbox_runtime_error(true, false, false).unwrap(),
        "Container runtime is not installed. Please install Docker or Apple Container to use sandbox mode."
    );
    assert_eq!(
        sandbox_runtime_error(true, true, false).unwrap(),
        "Container runtime daemon is not running. Please start Docker or Apple Container to use sandbox mode."
    );
    assert_eq!(sandbox_runtime_error(true, true, true), None);
}

#[test]
fn plan_sets_up_a_plain_session() {
    let p = params("My session", false);
    let b = plan_instance(&p, &[], true, true, true, true, Some("/real/proj".to_string()), None, &config(), "0123456789abcdef")
        .ok()
        .unwrap();
    assert_eq!(b.instance.id, "0123456789abcdef");
    assert_eq!(b.instance.title, "My session");
    assert_eq!(b.instance.project_path, "/real/proj");
    assert_eq!(b.instance.group_path, "team/web");
    assert_eq!(b.instance.tool, "agent");
    assert_eq!(b.instance.command, "team-agent");
    assert_eq!(b.instance.extra_args, "");
    assert!(b.instance.yolo_mode);
    assert!(b.instance.worktree_info.is_none());
    assert!(b.instance.sandbox_info.is_none());
    assert!(b.created_worktree.is_none());
}

#[test]
fn plan_keeps_the_given_path_when_it_has_no_canonical_form() {
    let p = params("t", false);
    let b = plan_instance(&p, &[], false, false, true, true, None, None, &config(), "id").ok().unwrap();
    assert_eq!(b.instance.project_path, "/work/proj");
}

#[test]
fn plan_sets_up_the_sandbox() {
    let mut p = params("t", true);
    p.extra_env = vec!["KEY".to_string(), "A=1".to_string()];
    p.command_override = "mine".to_string();
    p.extra_args = "--fast".to_string();
    let b = plan_instance(&p, &[], true, true, true, true, None, None, &config(), "0123456789abcdef").ok().unwrap();
    assert_eq!(b.instance.command, "mine");
    assert_eq!(b.instance.extra_args, "--fast");
    let sb = b.instance.sandbox_info.unwrap();
    assert!(sb.enabled);
    assert_eq!(sb.image, "img:1");
    assert_eq!(sb.container_name, "aoe-sandbox-01234567");
    assert!(sb.container_id.is_none());
    assert!(sb.created_at.is_none());
    assert_eq!(sb.extra_env, Some(vec!["KEY".to_string(), "A=1".to_string()]));
    assert_eq!(sb.custom_instruction, Some("be nice".to_string()));
    let p2 = params("t", true);
    let b2 = plan_instance(&p2, &[], true, true, true, true, None, None, &config(), "x").ok().unwrap();
    assert!(b2.instance.sandbox_info.unwrap().extra_env.is_none());
}

#[test]
fn plan_records_a_created_worktree() {
    let p = params("t", false);
    let wt = WorktreeFacts {
        path: "/work/proj-wt".to_string(),
        main_repo_path: "/work/proj".to_string(),
        branch: "feat".to_string(),
        created: true,
        created_at: 1700000000,
    };
    let b = plan_instance(&p, &[], true, true, true, true, Some("/real/proj".to_string()), Some(wt), &config(), "id")
        .ok()
        .unwrap();
    assert_eq!(b.instance.project_path, "/work/proj-wt");
    let info = b.instance.worktree_info.unwrap();
    assert_eq!(info.branch, "feat");
    assert_eq!(info.main_repo_path, "/work/proj");
    assert!(info.managed_by_aoe && info.cleanup_on_delete);
    assert_eq!(info.created_at, 1700000000);
    let cw = b.created_worktree.unwrap();
    assert_eq!(cw.path, "/work/proj-wt");
    assert_eq!(cw.main_repo_path, "/work/proj");
}

#[test]
fn plan_uses_an_existing_worktree_without_owning_it() {
    let p = params("t", false);
    let wt = WorktreeFacts {
        path: "/w2".to_string(),
        main_repo_path: "/r".to_string(),
        branch: "feat".to_string(),
        created: false,
        created_at: 5,
    };
    let b = plan_instance(&p, &[], true, true, true, true, None, Some(wt), &config(), "id").ok().unwrap();
    let info = b.instance.worktree_info.unwrap();
    assert!(!info.managed_by_aoe && !info.cleanup_on_delete);
    assert!(b.created_worktree.is_none());
}

#[test]
fn plan_errors_in_order() {
    let p = params("t", true);
    let e = plan_instance(&p, &[], false, false, false, false, None, None, &config(), "id").err().unwrap();
    assert_eq!(e, "Container runtime is not installed. Please install Docker or Apple Container to use sandbox mode.");
    let e = plan_instance(&p, &[], true, true, false, false, None, None, &config(), "id").err().unwrap();
    assert_eq!(e, "Project path does not exist: /work/proj");
    let e = plan_instance(&p, &[], true, true, true, false, Some("/real".to_string()), None, &config(), "id").err().unwrap();
    assert_eq!(e, "Project path is not a directory: /real");
}

#[test]
fn plan_picks_a_free_title_when_none_is_given() {
    let p = params("", false);
    let b = plan_instance(&p, &["Rome"], true, true, true, true, None, None, &config(), "id").ok().unwrap();
    assert!(!b.instance.title.is_empty());
    assert_ne!(b.instance.title, "Rome");
}

#[test]
fn worktree_step_decisions() {
    let existing = vec![entry("/r", Some("main")), entry("/w2", Some("feat"))];
    assert!(matches!(worktree_action(false, &existing, "feat", "/new", false), Ok(WorktreeAction::UseExisting(p)) if p == "/w2"));
    assert!(matches!(worktree_action(false, &existing, "other", "/new", true), Ok(WorktreeAction::Create(p, false)) if p == "/new"));
    assert!(matches!(worktree_action(true, &existing, "feat", "/new", false), Ok(WorktreeAction::Create(p, true)) if p == "/new"));
    assert!(matches!(worktree_action(true, &existing, "feat", "/new", true), Err(m) if m == "Worktree already exists at /new"));
}
