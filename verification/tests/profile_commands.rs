use agent_of_empires::profile_commands::{
    check_profile_exists, default_profile_name, deletion_confirmed, deletion_question, profile_list_lines,
};

#[test]
fn listing_marks_the_default_profile() {
    let profiles = vec!["default".to_string(), "work".to_string()];
    assert_eq!(
        profile_list_lines(&profiles, "work"),
        vec!["Profiles:", "    default", "  * work (default)", "\nTotal: 2 profiles"]
    );
}

#[test]
fn listing_without_profiles_says_how_to_make_one() {
    assert_eq!(
        profile_list_lines(&Vec::new(), "default"),
        vec!["No profiles found.", "Run 'agent-of-empires' to create the default profile automatically."]
    );
}

#[test]
fn only_y_confirms_a_deletion() {
    assert!(deletion_confirmed("y\n"));
    assert!(deletion_confirmed("  Y "));
    assert!(!deletion_confirmed("yes"));
    assert!(!deletion_confirmed(""));
    assert!(deletion_question("work").starts_with("Are you sure you want to delete profile 'work'?"));
}

#[test]
fn default_profile_falls_back_to_default() {
    assert_eq!(default_profile_name(None), "default");
    assert_eq!(default_profile_name(Some("work")), "work");
}

#[test]
fn setting_an_unknown_default_profile_fails() {
    let profiles = vec!["default".to_string()];
    assert_eq!(check_profile_exists(&profiles, "default"), Ok(()));
    assert_eq!(check_profile_exists(&profiles, "nope"), Err("Profile 'nope' does not exist".to_string()));
}
