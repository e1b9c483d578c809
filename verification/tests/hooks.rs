use agent_of_empires::hooks::{hook_status_dir, is_stale, parse_hook_status, read_status};
use agent_of_empires::session::Status;

#[test]
fn test_hook_status_dir_path() {
    let dir = hook_status_dir("abc123");
    assert_eq!(dir, "/tmp/aoe-hooks/abc123");
}

#[test]
fn hook_status_words() {
    assert_eq!(parse_hook_status("running"), Some(Status::Running));
    assert_eq!(parse_hook_status("waiting\n"), Some(Status::Waiting));
    assert_eq!(parse_hook_status("  idle "), Some(Status::Idle));
    assert_eq!(parse_hook_status("something else"), None);
    assert_eq!(parse_hook_status(""), None);
}

#[test]
fn staleness_after_five_minutes() {
    assert!(!is_stale(299, 999_999_999));
    assert!(!is_stale(300, 0));
    assert!(is_stale(300, 1));
    assert!(is_stale(301, 0));
}

#[test]
fn reading_a_status_file_skips_stale_and_unknown_ages() {
    assert_eq!(read_status(Some((10, 0)), Some("running\n")), Some(Status::Running));
    assert_eq!(read_status(Some((300, 0)), Some("idle")), Some(Status::Idle));
    assert_eq!(read_status(Some((300, 1)), Some("idle")), None);
    assert_eq!(read_status(None, Some("idle")), None);
    assert_eq!(read_status(Some((1, 0)), None), None);
    assert_eq!(read_status(Some((1, 0)), Some("busy")), None);
}
