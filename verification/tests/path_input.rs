use agent_of_empires::keys::{KeyCode, KeyEvent, KeyModifiers};
use agent_of_empires::path_input::{expand_tilde_with, path_completion_base, NewSessionDialog};
use agent_of_empires::text_input::TextInput;

fn dialog(value: &str) -> NewSessionDialog {
    NewSessionDialog {
        focused_field: 1,
        path_field_index: 1,
        path: TextInput::new(value.to_string()),
        path_ghost: None,
        error_message: Some("old error".to_string()),
        path_invalid_flash_until: Some(5),
    }
}

fn lister(base: String) -> Option<Vec<String>> {
    match base.as_str() {
        "/home/u/src" => Some(vec!["proj-a".to_string(), "proj-b".to_string(), ".hidden".to_string(), "other".to_string()]),
        "/home/u" => Some(vec!["src".to_string(), ".config".to_string()]),
        "." => Some(vec!["docs".to_string()]),
        _ => None,
    }
}

#[test]
fn tilde_expansion() {
    let home = Some("/home/u".to_string());
    assert_eq!(expand_tilde_with("~", home.clone()), "/home/u");
    assert_eq!(expand_tilde_with("~/src", home.clone()), "/home/u/src");
    assert_eq!(expand_tilde_with("/abs", home.clone()), "/abs");
    assert_eq!(expand_tilde_with("~user", home), "~user");
    assert_eq!(expand_tilde_with("~/src", None), "~/src");
}

#[test]
fn completion_bases() {
    let home = Some("/home/u".to_string());
    assert_eq!(path_completion_base("", home.clone()), Some(".".to_string()));
    assert_eq!(path_completion_base("///", home.clone()), Some("/".to_string()));
    assert_eq!(path_completion_base("~/", home.clone()), Some("/home/u".to_string()));
    assert_eq!(path_completion_base("~/src/", home.clone()), Some("/home/u/src".to_string()));
    assert_eq!(path_completion_base("/etc/", home), Some("/etc".to_string()));
    assert_eq!(path_completion_base("~/", None), None);
}

#[test]
fn ghost_completes_common_prefix_and_accepts() {
    let home = Some("/home/u".to_string());
    let mut d = dialog("/home/u/src/pr");
    d.recompute_path_ghost_with(home.clone(), &lister);
    assert_eq!(d.ghost_text(), Some("oj-"));
    let accepted = d.accept_path_ghost_with(home.clone(), &lister);
    assert!(accepted);
    assert_eq!(d.path.value(), "/home/u/src/proj-");
    assert_eq!(d.path.cursor(), 17);
    assert!(d.error_message.is_none());
    assert!(!d.is_path_invalid_flash_active());
    assert_eq!(d.ghost_text(), Some("a/"));
}

#[test]
fn ghost_single_match_adds_slash() {
    let mut d = dialog("~/s");
    d.recompute_path_ghost_with(Some("/home/u".to_string()), &lister);
    assert_eq!(d.ghost_text(), Some("rc/"));
}

#[test]
fn hidden_directories_only_for_dot_segments() {
    let mut d = dialog("~/.c");
    d.recompute_path_ghost_with(Some("/home/u".to_string()), &lister);
    assert_eq!(d.ghost_text(), Some("onfig/"));
    let mut d = dialog("/home/u/src/.");
    d.recompute_path_ghost_with(None, &lister);
    assert_eq!(d.ghost_text(), Some("hidden/"));
    let mut d = dialog("/home/u/src/");
    d.recompute_path_ghost_with(None, &lister);
    assert_eq!(d.ghost_text(), Some("other/"));
}

#[test]
fn no_ghost_when_listing_fails_or_cursor_inside() {
    let mut d = dialog("/nowhere/x");
    d.recompute_path_ghost_with(None, &lister);
    assert_eq!(d.ghost_text(), None);
    let mut d = dialog("/home/u/src/pr");
    d.path = TextInput::new("/home/u/src/pr".to_string()).with_cursor(3);
    d.recompute_path_ghost_with(None, &lister);
    assert_eq!(d.ghost_text(), None);
}

#[test]
fn stale_ghost_is_dropped() {
    let mut d = dialog("/home/u/src/pr");
    d.recompute_path_ghost_with(None, &lister);
    d.path = TextInput::new("/home/u/src/p".to_string());
    assert!(!d.accept_path_ghost_with(None, &lister));
    assert_eq!(d.ghost_text(), None);
    assert_eq!(d.path.value(), "/home/u/src/p");
}

#[test]
fn shortcuts_move_the_cursor() {
    let mut d = dialog("/home/u/src");
    assert!(d.handle_path_shortcuts_with(KeyEvent::new(KeyCode::Left, KeyModifiers::CONTROL), None, &lister));
    assert_eq!(d.path.cursor(), 8);
    assert!(d.error_message.is_none());
    assert!(d.handle_path_shortcuts_with(KeyEvent::new(KeyCode::Left, KeyModifiers::CONTROL), None, &lister));
    assert_eq!(d.path.cursor(), 6);
    assert!(d.handle_path_shortcuts_with(KeyEvent::new(KeyCode::Char('a'), KeyModifiers::CONTROL), None, &lister));
    assert_eq!(d.path.cursor(), 0);
    assert!(!d.handle_path_shortcuts_with(KeyEvent::new(KeyCode::Char('x'), KeyModifiers::NONE), None, &lister));
    d.focused_field = 0;
    assert!(!d.handle_path_shortcuts_with(KeyEvent::new(KeyCode::Home, KeyModifiers::NONE), None, &lister));
}

#[test]
fn right_at_end_accepts_ghost() {
    let mut d = dialog("/home/u/src/ot");
    assert!(!d.handle_path_shortcuts_with(KeyEvent::new(KeyCode::Right, KeyModifiers::NONE), None, &lister));
    d.recompute_path_ghost_with(None, &lister);
    assert!(d.handle_path_shortcuts_with(KeyEvent::new(KeyCode::End, KeyModifiers::NONE), None, &lister));
    assert_eq!(d.path.value(), "/home/u/src/other/");
}

#[test]
fn set_value_with_cursor() {
    let mut d = dialog("x");
    d.set_path_value_with_cursor("abcdef".to_string(), 2);
    assert_eq!(d.path.value(), "abcdef");
    assert_eq!(d.path.cursor(), 2);
    d.move_path_cursor_to(5);
    assert_eq!(d.path.cursor(), 5);
    d.move_path_cursor_to(99);
    assert_eq!(d.path.cursor(), 6);
    d.clear_path_ghost();
    assert!(d.ghost_text().is_none());
}
