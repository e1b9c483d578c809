use agent_of_empires::git::{
    existing_path_error, missing_branch_error, gitdir_from_content, gitdir_value_for_rewrite, make_gitdir_file_content, main_repo_from_layout,
    remote_branch_matches, resolve_gitdir, resolve_template, sanitize_branch_name, worktree_gitdir_layout, GitError,
    GitWorktree, OpenedRepo, RepoProbe, TemplateVars,
};

#[test]
fn test_resolve_template_with_repo_name() {
    let vars = TemplateVars {
        repo_name: "my-repo".to_string(),
        branch: "feat/test".to_string(),
        session_id: "abc123".to_string(),
        base_path: "/home/user/repos/my-repo".to_string(),
    };

    let result = resolve_template("../{repo-name}-wt/{branch}", &vars).ok().unwrap();
    assert!(result.contains("my-repo-wt"));
    assert!(result.contains("feat-test"));
}

#[test]
fn test_sanitize_branch_name_replaces_slashes() {
    let sanitized = sanitize_branch_name("feat/my-feature");
    assert_eq!(sanitized, "feat-my-feature");
}

#[test]
fn test_sanitize_branch_name_handles_special_chars() {
    let sanitized = sanitize_branch_name("feat@bug#123");
    assert!(!sanitized.contains("@"));
    assert!(!sanitized.contains("#"));
}

#[test]
fn test_resolve_template_with_all_variables() {
    let vars = TemplateVars {
        repo_name: "test".to_string(),
        branch: "main".to_string(),
        session_id: "xyz789".to_string(),
        base_path: "/repos/test".to_string(),
    };

    let result = resolve_template("../wt/{repo-name}/{branch}/{session-id}", &vars).ok().unwrap();

    assert!(result.contains("test"));
    assert!(result.contains("main"));
    assert!(result.contains("xyz789"));
}

#[test]
fn test_compute_path_with_template() {
    let git_wt = GitWorktree::new("/tmp/work/repo".to_string(), true).ok().unwrap();

    let template = "../{repo-name}-worktrees/{branch}";
    let path = git_wt.compute_path("feat/test", template, "abc123").ok().unwrap();

    assert!(path.contains("feat-test"));
    assert!(path.contains("-worktrees"));
}

#[test]
fn resolve_template_exact() {
    let vars = TemplateVars {
        repo_name: "app".to_string(),
        branch: "fix/a:b".to_string(),
        session_id: "s1".to_string(),
        base_path: "/src/app".to_string(),
    };
    assert_eq!(
        resolve_template("../{repo-name}-wt/{branch}-{session-id}", &vars).ok().unwrap(),
        "/src/app/../app-wt/fix-a-b-s1"
    );
    assert_eq!(resolve_template("/abs/{branch}", &vars).ok().unwrap(), "/abs/fix-a-b");
}

#[test]
fn new_refuses_non_repository() {
    assert!(matches!(GitWorktree::new("/tmp/nothing".to_string(), false), Err(GitError::NotAGitRepo)));
}

#[test]
fn compute_path_uses_repo_directory_name() {
    let wt = GitWorktree::new("/home/u/proj".to_string(), true).ok().unwrap();
    assert_eq!(
        wt.compute_path("main", "{repo-name}/{branch}/{session-id}", "id").ok().unwrap(),
        "/home/u/proj/proj/main/id"
    );
}

#[test]
fn gitdir_line_is_found_and_trimmed() {
    assert_eq!(
        gitdir_from_content("foo\ngitdir:  /repo/.git/worktrees/x \n").unwrap(),
        "/repo/.git/worktrees/x"
    );
    assert!(gitdir_from_content("nothing here\n").is_none());
}

#[test]
fn gitdir_resolution_relative_to_file() {
    assert_eq!(resolve_gitdir("/wt/a/.git", "../../repo/.git/worktrees/a").unwrap(), "/wt/a/../../repo/.git/worktrees/a");
    assert_eq!(resolve_gitdir("/wt/a/.git", "/abs/g").unwrap(), "/abs/g");
}

#[test]
fn gitdir_file_round_trip() {
    let content = make_gitdir_file_content("/repo/.git/worktrees/x");
    assert_eq!(content, "gitdir: /repo/.git/worktrees/x\n");
    assert_eq!(gitdir_value_for_rewrite(&content).unwrap(), "/repo/.git/worktrees/x");
}

#[test]
fn worktree_layout_and_main_repo() {
    let l = worktree_gitdir_layout("/home/u/proj/.git/worktrees/feat").unwrap();
    assert_eq!(l.git_or_bare_dir, "/home/u/proj/.git");
    assert_eq!(l.parent_dir, "/home/u/proj");
    assert!(l.in_dot_git);
    assert_eq!(main_repo_from_layout(&l, false), "/home/u/proj");

    let b = worktree_gitdir_layout("/home/u/proj.git/worktrees/feat").unwrap();
    assert!(!b.in_dot_git);
    assert_eq!(main_repo_from_layout(&b, false), "/home/u/proj.git");
    assert_eq!(main_repo_from_layout(&b, true), "/home/u");

    assert!(worktree_gitdir_layout("/home/u/proj/.git").is_none());
}

#[test]
fn find_main_repo_cases() {
    let regular = RepoProbe {
        opened: Some(OpenedRepo {
            git_dir: "/r/.git/".to_string(),
            workdir: Some("/r/".to_string()),
            layout_parent_has_dot_git: false,
            git_dir_parent_has_dot_git: true,
        }),
        linked_main: None,
    };
    assert_eq!(GitWorktree::find_main_repo(&regular).ok().unwrap(), "/r/");

    let linked = RepoProbe {
        opened: Some(OpenedRepo {
            git_dir: "/r/.git/worktrees/w/".to_string(),
            workdir: Some("/wt/w/".to_string()),
            layout_parent_has_dot_git: false,
            git_dir_parent_has_dot_git: false,
        }),
        linked_main: None,
    };
    assert_eq!(GitWorktree::find_main_repo(&linked).ok().unwrap(), "/r");

    let bare_linked = RepoProbe {
        opened: Some(OpenedRepo {
            git_dir: "/r/.bare/".to_string(),
            workdir: None,
            layout_parent_has_dot_git: false,
            git_dir_parent_has_dot_git: true,
        }),
        linked_main: None,
    };
    assert_eq!(GitWorktree::find_main_repo(&bare_linked).ok().unwrap(), "/r");

    let direct_bare = RepoProbe {
        opened: Some(OpenedRepo {
            git_dir: "/r/foo.git/".to_string(),
            workdir: None,
            layout_parent_has_dot_git: false,
            git_dir_parent_has_dot_git: false,
        }),
        linked_main: None,
    };
    assert_eq!(GitWorktree::find_main_repo(&direct_bare).ok().unwrap(), "/r/foo.git/");

    let nothing = RepoProbe { opened: None, linked_main: None };
    assert!(matches!(GitWorktree::find_main_repo(&nothing), Err(GitError::NotAGitRepo)));
    assert!(!GitWorktree::is_git_repo(&nothing));

    let via_file = RepoProbe { opened: None, linked_main: Some("/main".to_string()) };
    assert_eq!(GitWorktree::find_main_repo(&via_file).ok().unwrap(), "/main");
    assert!(GitWorktree::is_git_repo(&via_file));
}

#[test]
fn current_branch_needs_a_short_name() {
    assert_eq!(GitWorktree::get_current_branch(Some("main".to_string())).ok().unwrap(), "main");
    assert!(matches!(GitWorktree::get_current_branch(None), Err(GitError::NotAGitRepo)));
}

#[test]
fn relative_worktree_path() {
    assert_eq!(GitWorktree::diff_paths("/a/b/c", "/a/d").unwrap(), "../b/c");
    assert_eq!(
        GitWorktree::diff_paths("/repo/.bare/worktrees/name", "/repo/main").unwrap(),
        "../.bare/worktrees/name"
    );
}

#[test]
fn relative_path_needs_a_common_ancestor() {
    assert_eq!(GitWorktree::diff_paths("x", "/y"), None);
    assert_eq!(GitWorktree::diff_paths("/y", "x"), None);
    assert_eq!(GitWorktree::diff_paths("a/b", "c/d"), None);
    assert_eq!(GitWorktree::diff_paths("a/b", "a/c").unwrap(), "../b");
}

/// What probing a freshly made repository at `/tmp/repo` finds.
fn fresh_repo() -> RepoProbe {
    RepoProbe {
        opened: Some(OpenedRepo {
            git_dir: "/tmp/repo/.git/".to_string(),
            workdir: Some("/tmp/repo".to_string()),
            layout_parent_has_dot_git: false,
            git_dir_parent_has_dot_git: true,
        }),
        linked_main: None,
    }
}

/// What probing an empty directory finds.
fn plain_dir() -> RepoProbe {
    RepoProbe { opened: None, linked_main: None }
}

#[test]
fn test_is_git_repo_returns_true_for_git_directory() {
    assert!(GitWorktree::is_git_repo(&fresh_repo()));
}

#[test]
fn test_is_git_repo_returns_false_for_non_git_directory() {
    assert!(!GitWorktree::is_git_repo(&plain_dir()));
}

#[test]
fn test_find_main_repo_returns_repo_root() {
    let result = GitWorktree::find_main_repo(&fresh_repo()).ok().unwrap();
    assert_eq!(result, "/tmp/repo");
}

#[test]
fn test_find_main_repo_fails_for_non_git_directory() {
    assert!(GitWorktree::find_main_repo(&plain_dir()).is_err());
}

#[test]
fn bare_repo_has_no_working_directory() {
    assert!(!GitWorktree::is_bare_repo(&fresh_repo()));
    assert!(!GitWorktree::is_bare_repo(&plain_dir()));
    let bare = RepoProbe {
        opened: Some(OpenedRepo {
            git_dir: "/r/foo.git/".to_string(),
            workdir: None,
            layout_parent_has_dot_git: false,
            git_dir_parent_has_dot_git: false,
        }),
        linked_main: None,
    };
    assert!(GitWorktree::is_bare_repo(&bare));
}

#[test]
fn remote_branch_names_match_by_last_segment() {
    assert!(remote_branch_matches("origin/feature", "feature"));
    assert!(remote_branch_matches("feature", "feature"));
    assert!(!remote_branch_matches("origin/my-feature", "feature"));
    assert!(!remote_branch_matches("origin/feature-x", "feature"));
}

#[test]
fn list_worktrees_puts_the_main_worktree_first() {
    let wt = GitWorktree::new("/r".to_string(), true).ok().unwrap();
    let linked = vec![("/w/a".to_string(), Some("a".to_string())), ("/w/b".to_string(), None)];
    let entries = wt.list_worktrees(false, Some("main".to_string()), false, linked.clone());
    assert_eq!(entries.len(), 3);
    assert_eq!(entries[0].path, "/r");
    assert_eq!(entries[0].branch, Some("main".to_string()));
    assert_eq!(entries[1].path, "/w/a");
    assert_eq!(entries[1].branch, Some("a".to_string()));
    assert!(!entries[1].is_detached);
    assert_eq!(entries[2].branch, None);

    let bare = wt.list_worktrees(true, None, false, linked);
    assert_eq!(bare.len(), 2);
    assert_eq!(bare[0].path, "/w/a");
}

#[test]
fn worktree_creation_checks() {
    assert!(matches!(existing_path_error("/w", true), Some(GitError::WorktreeAlreadyExists(p)) if p == "/w"));
    assert!(existing_path_error("/w", false).is_none());
    let remotes = vec!["origin/main".to_string(), "origin/feature/x".to_string()];
    assert!(missing_branch_error(true, false, &vec![], "new").is_none());
    assert!(missing_branch_error(false, true, &vec![], "feat").is_none());
    assert!(missing_branch_error(false, false, &remotes, "feature/x").is_none());
    assert!(missing_branch_error(false, false, &remotes, "main").is_none());
    assert!(matches!(missing_branch_error(false, false, &remotes, "y"), Some(GitError::BranchNotFound(b)) if b == "y"));
}
