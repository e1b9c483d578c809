use agent_of_empires::keys::{KeyCode, KeyEvent, KeyModifiers};
use agent_of_empires::text_input::{longest_common_prefix, GroupGhostCompletion, TextInput};

fn groups(names: &[&str]) -> Vec<String> {
    names.iter().map(|s| s.to_string()).collect()
}

#[test]
fn lcp_empty_input() {
    assert_eq!(longest_common_prefix(&[]), "");
}

#[test]
fn lcp_single_value() {
    assert_eq!(longest_common_prefix(&groups(&["hello"])), "hello");
}

#[test]
fn lcp_identical_values() {
    assert_eq!(longest_common_prefix(&groups(&["abc", "abc"])), "abc");
}

#[test]
fn lcp_common_prefix() {
    assert_eq!(longest_common_prefix(&groups(&["work/api", "work/backend", "work/frontend"])), "work/");
}

#[test]
fn lcp_no_common_prefix() {
    assert_eq!(longest_common_prefix(&groups(&["alpha", "beta"])), "");
}

#[test]
fn lcp_unicode() {
    assert_eq!(longest_common_prefix(&groups(&["cafe\u{0301}1", "cafe\u{0301}2"])), "cafe\u{0301}");
}

#[test]
fn lcp_one_is_prefix_of_another() {
    assert_eq!(longest_common_prefix(&groups(&["work", "work/frontend"])), "work");
}

#[test]
fn ghost_no_groups() {
    let input = TextInput::new("w".to_string());
    assert!(GroupGhostCompletion::compute(&input, &[]).is_none());
}

#[test]
fn ghost_empty_input() {
    let input = TextInput::default();
    let groups = groups(&["work"]);
    assert!(GroupGhostCompletion::compute(&input, &groups).is_none());
}

#[test]
fn ghost_no_match() {
    let input = TextInput::new("z".to_string());
    let groups = groups(&["work", "personal"]);
    assert!(GroupGhostCompletion::compute(&input, &groups).is_none());
}

#[test]
fn ghost_single_match() {
    let input = TextInput::new("per".to_string());
    let groups = groups(&["work", "personal"]);
    let ghost = GroupGhostCompletion::compute(&input, &groups).unwrap();
    assert_eq!(ghost.ghost_text(), "sonal");
}

#[test]
fn ghost_multiple_matches_with_common_prefix() {
    let input = TextInput::new("w".to_string());
    let groups = groups(&["work/api", "work/backend"]);
    let ghost = GroupGhostCompletion::compute(&input, &groups).unwrap();
    assert_eq!(ghost.ghost_text(), "ork/");
}

#[test]
fn ghost_multiple_matches_no_extra_common_prefix() {
    let input = TextInput::new("work/".to_string());
    let groups = groups(&["work/api", "work/backend"]);
    let ghost = GroupGhostCompletion::compute(&input, &groups).unwrap();
    assert_eq!(ghost.ghost_text(), "api");
}

#[test]
fn ghost_exact_match_returns_none() {
    let input = TextInput::new("work".to_string());
    let groups = groups(&["work"]);
    assert!(GroupGhostCompletion::compute(&input, &groups).is_none());
}

#[test]
fn ghost_case_sensitive() {
    let input = TextInput::new("W".to_string());
    let groups = groups(&["work"]);
    assert!(GroupGhostCompletion::compute(&input, &groups).is_none());
}

#[test]
fn ghost_accept_valid() {
    let input = TextInput::new("per".to_string());
    let groups = groups(&["personal"]);
    let ghost = GroupGhostCompletion::compute(&input, &groups).unwrap();
    let result = ghost.accept(&input).unwrap();
    assert_eq!(result, "personal");
}

#[test]
fn ghost_accept_stale_value() {
    let input = TextInput::new("per".to_string());
    let groups = groups(&["personal"]);
    let ghost = GroupGhostCompletion::compute(&input, &groups).unwrap();
    let changed_input = TextInput::new("pers".to_string());
    assert!(ghost.accept(&changed_input).is_none());
}

#[test]
fn ghost_fallback_takes_first_in_sorted_order() {
    let input = TextInput::new("b".to_string());
    let groups = groups(&["bz", "ba", "bc"]);
    let ghost = GroupGhostCompletion::compute(&input, &groups).unwrap();
    assert_eq!(ghost.ghost_text(), "a");
}

#[test]
fn ghost_needs_cursor_at_end() {
    let input = TextInput::new("pe".to_string()).with_cursor(1);
    let groups = groups(&["personal"]);
    assert!(GroupGhostCompletion::compute(&input, &groups).is_none());
}

#[test]
fn accept_extends_to_an_existing_group_prefix() {
    let input = TextInput::new("w".to_string());
    let groups = groups(&["work/api", "work/backend", "other"]);
    let ghost = GroupGhostCompletion::compute(&input, &groups).unwrap();
    let accepted = ghost.accept(&input).unwrap();
    assert!(groups.iter().any(|g| g.starts_with(&accepted)));
    assert_eq!(accepted, "work/");
}

fn key(code: KeyCode) -> KeyEvent {
    KeyEvent::new(code, KeyModifiers::NONE)
}

#[test]
fn typing_and_editing() {
    let mut input = TextInput::default();
    for c in "helo".chars() {
        input.handle_key(key(KeyCode::Char(c)));
    }
    assert_eq!(input.value(), "helo");
    assert_eq!(input.cursor(), 4);
    input.handle_key(key(KeyCode::Left));
    input.handle_key(key(KeyCode::Char('l')));
    assert_eq!(input.value(), "hello");
    assert_eq!(input.cursor(), 4);
    input.handle_key(key(KeyCode::Home));
    assert_eq!(input.cursor(), 0);
    input.handle_key(key(KeyCode::Delete));
    assert_eq!(input.value(), "ello");
    input.handle_key(key(KeyCode::End));
    input.handle_key(key(KeyCode::Backspace));
    assert_eq!(input.value(), "ell");
    input.handle_key(key(KeyCode::Up));
    assert_eq!(input.value(), "ell");
    assert_eq!(input.cursor(), 3);
}

#[test]
fn control_w_deletes_previous_word() {
    let mut input = TextInput::new("one two".to_string());
    input.handle_key(KeyEvent::new(KeyCode::Char('w'), KeyModifiers::CONTROL));
    assert_eq!(input.value(), "one ");
}

#[test]
fn with_cursor_clamps() {
    let input = TextInput::new("abc".to_string()).with_cursor(10);
    assert_eq!(input.cursor(), 3);
    assert_eq!(input.visual_cursor(), 3);
}

fn ctrl(c: char) -> KeyEvent {
    KeyEvent { code: KeyCode::Char(c), modifiers: KeyModifiers::CONTROL }
}

#[test]
fn cut_text_is_pasted_back() {
    let mut input = TextInput::new("hello world".to_string());
    input.handle_key(ctrl('w'));
    assert_eq!(input.value(), "hello ");
    input.handle_key(key(KeyCode::Home));
    input.handle_key(ctrl('y'));
    assert_eq!(input.value(), "worldhello ");
    assert_eq!(input.cursor(), 5);
    input.handle_key(ctrl('k'));
    assert_eq!(input.value(), "world");
    input.handle_key(ctrl('y'));
    assert_eq!(input.value(), "worldhello ");
}

#[test]
fn paste_without_a_cut_changes_nothing() {
    let mut input = TextInput::new("abc".to_string());
    input.handle_key(ctrl('y'));
    assert_eq!(input.value(), "abc");
    assert_eq!(input.cursor(), 3);
}

#[test]
fn paste_ignores_modifier_bits_the_terminal_does_not_define() {
    let mut input = TextInput::new("hello world".to_string());
    input.handle_key(ctrl('w'));
    assert_eq!(input.value(), "hello ");
    input.handle_key(KeyEvent { code: KeyCode::Char('y'), modifiers: 130 });
    assert_eq!(input.value(), "hello world");
}
