use agent_of_empires::session::{
    cleanup_instance, container_check_due, container_state, dead_container_update, CreatedWorktree,
    Status, Storage,
};

#[test]
fn test_storage_new_with_empty_profile() {
    let storage = Storage::new("", Ok("/tmp/home/.config/aoe/profiles/default".to_string())).unwrap();
    assert_eq!(storage.profile(), "default");
}

#[test]
fn test_storage_new_with_custom_profile() {
    let storage = Storage::new("custom-profile", Ok("/tmp/home/.config/aoe/profiles/custom-profile".to_string())).unwrap();
    assert_eq!(storage.profile(), "custom-profile");
}

#[test]
fn test_storage_profile_accessor() {
    let storage1 = Storage::new("profile-alpha", Ok("/tmp/home/profiles/profile-alpha".to_string())).unwrap();
    let storage2 = Storage::new("profile-beta", Ok("/tmp/home/profiles/profile-beta".to_string())).unwrap();

    assert_eq!(storage1.profile(), "profile-alpha");
    assert_eq!(storage2.profile(), "profile-beta");

    assert_ne!(storage1.sessions_path(), storage2.sessions_path());
}

#[test]
fn storage_paths_and_failures() {
    assert_eq!(Storage::profile_name(""), "default");
    assert_eq!(Storage::profile_name("work"), "work");
    let s = Storage::new("work", Ok("/p/work".to_string())).unwrap();
    assert_eq!(s.sessions_path(), "/p/work/sessions.json");
    assert_eq!(Storage::new("work", Err("no home".to_string())).err().unwrap(), "no home");
}

#[test]
fn dead_container_turns_into_error() {
    let states = vec![
        ("aoe-sandbox-a".to_string(), true),
        ("aoe-sandbox-b".to_string(), false),
        ("aoe-sandbox-a".to_string(), false),
    ];
    assert_eq!(container_state(&states, "aoe-sandbox-a"), Some(false));
    assert_eq!(container_state(&states, "aoe-sandbox-c"), None);

    let u = dead_container_update("id1", true, Status::Running, Some("aoe-sandbox-b"), &states).unwrap();
    assert_eq!(u.id, "id1");
    assert_eq!(u.status, Status::Error);
    assert_eq!(u.last_error, Some("Container is not running".to_string()));

    assert!(dead_container_update("id1", true, Status::Stopped, Some("aoe-sandbox-b"), &states).is_none());
    assert!(dead_container_update("id1", true, Status::Starting, Some("aoe-sandbox-b"), &states).is_none());
    assert!(dead_container_update("id1", false, Status::Running, Some("aoe-sandbox-b"), &states).is_none());
    assert!(dead_container_update("id1", true, Status::Running, Some("aoe-sandbox-c"), &states).is_none());
    assert!(dead_container_update("id1", true, Status::Running, None, &states).is_none());
}

#[test]
fn container_checks_every_five_seconds() {
    assert!(!container_check_due(true, 4, 999_999_999));
    assert!(container_check_due(true, 5, 0));
    assert!(!container_check_due(false, 50, 0));
}

#[test]
fn cleanup_plan_follows_what_was_made() {
    let wt = CreatedWorktree { path: "/wt/x".to_string(), main_repo_path: "/repo".to_string() };
    let plan = cleanup_instance(Some(&wt), true, true);
    assert_eq!(plan.remove_worktree, Some(("/repo".to_string(), "/wt/x".to_string())));
    assert!(plan.remove_container);
    let plan = cleanup_instance(None, true, false);
    assert!(plan.remove_worktree.is_none());
    assert!(!plan.remove_container);
}
