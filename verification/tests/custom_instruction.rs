use agent_of_empires::custom_instruction::{dialog_size, CustomInstructionDialog};
use agent_of_empires::dialogs::DialogResult;
use agent_of_empires::keys::{KeyCode, KeyEvent, KeyModifiers};

fn key(code: KeyCode) -> KeyEvent {
    KeyEvent::new(code, KeyModifiers::empty())
}

fn shift_key(code: KeyCode) -> KeyEvent {
    KeyEvent::new(code, KeyModifiers::SHIFT)
}

#[test]
fn test_new_with_some_text_prepopulates() {
    let dialog = CustomInstructionDialog::new(Some("hello world".to_string()));
    assert_eq!(dialog.get_text(), "hello world");
    assert_eq!(dialog.focused_zone, 0);
    assert_eq!(dialog.focused_button, 0);
}

#[test]
fn test_new_with_none_starts_empty() {
    let dialog = CustomInstructionDialog::new(None);
    assert_eq!(dialog.get_text(), "");
}

#[test]
fn test_new_with_multiline_text() {
    let dialog = CustomInstructionDialog::new(Some("line1\nline2\nline3".to_string()));
    assert_eq!(dialog.get_text(), "line1\nline2\nline3");
}

#[test]
fn test_tab_toggles_focused_zone() {
    let mut dialog = CustomInstructionDialog::new(None);
    assert_eq!(dialog.focused_zone, 0);

    dialog.handle_key(key(KeyCode::Tab));
    assert_eq!(dialog.focused_zone, 1);

    dialog.handle_key(key(KeyCode::Tab));
    assert_eq!(dialog.focused_zone, 0);
}

#[test]
fn test_shift_tab_toggles_in_reverse() {
    let mut dialog = CustomInstructionDialog::new(None);
    assert_eq!(dialog.focused_zone, 0);

    dialog.handle_key(shift_key(KeyCode::Tab));
    assert_eq!(dialog.focused_zone, 1);

    dialog.handle_key(shift_key(KeyCode::Tab));
    assert_eq!(dialog.focused_zone, 0);
}

#[test]
fn test_escape_returns_cancel_from_zone_0() {
    let mut dialog = CustomInstructionDialog::new(None);
    dialog.focused_zone = 0;
    let result = dialog.handle_key(key(KeyCode::Esc));
    assert!(matches!(result, DialogResult::Cancel));
}

#[test]
fn test_escape_returns_cancel_from_zone_1() {
    let mut dialog = CustomInstructionDialog::new(None);
    dialog.focused_zone = 1;
    let result = dialog.handle_key(key(KeyCode::Esc));
    assert!(matches!(result, DialogResult::Cancel));
}

#[test]
fn test_enter_in_zone_0_does_not_submit() {
    let mut dialog = CustomInstructionDialog::new(None);
    dialog.focused_zone = 0;
    let result = dialog.handle_key(key(KeyCode::Enter));
    assert!(matches!(result, DialogResult::Continue));
}

#[test]
fn test_enter_on_save_button_returns_submit() {
    let mut dialog = CustomInstructionDialog::new(Some("test text".to_string()));
    dialog.focused_zone = 1;
    dialog.focused_button = 0;
    let result = dialog.handle_key(key(KeyCode::Enter));
    match result {
        DialogResult::Submit(Some(text)) => assert_eq!(text, "test text"),
        _ => panic!("Expected Submit(Some(...))"),
    }
}

#[test]
fn test_enter_on_cancel_button_returns_cancel() {
    let mut dialog = CustomInstructionDialog::new(Some("test text".to_string()));
    dialog.focused_zone = 1;
    dialog.focused_button = 1;
    let result = dialog.handle_key(key(KeyCode::Enter));
    assert!(matches!(result, DialogResult::Cancel));
}

#[test]
fn test_left_right_in_button_row_toggles_focused_button() {
    let mut dialog = CustomInstructionDialog::new(None);
    dialog.focused_zone = 1;
    assert_eq!(dialog.focused_button, 0);

    dialog.handle_key(key(KeyCode::Right));
    assert_eq!(dialog.focused_button, 1);

    dialog.handle_key(key(KeyCode::Left));
    assert_eq!(dialog.focused_button, 0);
}

#[test]
fn test_submit_with_empty_text_returns_none() {
    let mut dialog = CustomInstructionDialog::new(None);
    dialog.focused_zone = 1;
    dialog.focused_button = 0;
    let result = dialog.handle_key(key(KeyCode::Enter));
    match result {
        DialogResult::Submit(None) => {}
        _ => panic!("Expected Submit(None)"),
    }
}

#[test]
fn test_submit_with_whitespace_only_returns_none() {
    let mut dialog = CustomInstructionDialog::new(Some("   \n  ".to_string()));
    dialog.focused_zone = 1;
    dialog.focused_button = 0;
    let result = dialog.handle_key(key(KeyCode::Enter));
    match result {
        DialogResult::Submit(None) => {}
        _ => panic!("Expected Submit(None) for whitespace-only text"),
    }
}

#[test]
fn test_submit_with_nonempty_text_returns_some() {
    let mut dialog = CustomInstructionDialog::new(Some("custom instruction".to_string()));
    dialog.focused_zone = 1;
    dialog.focused_button = 0;
    let result = dialog.handle_key(key(KeyCode::Enter));
    match result {
        DialogResult::Submit(Some(text)) => assert_eq!(text, "custom instruction"),
        _ => panic!("Expected Submit(Some(...))"),
    }
}

#[test]
fn editor_size_follows_the_area() {
    assert_eq!(dialog_size(100, 50), (70, 30));
    assert_eq!(dialog_size(50, 12), (40, 10));
    assert_eq!(dialog_size(30, 8), (30, 8));
}

fn ctrl(c: char) -> KeyEvent {
    KeyEvent::new(KeyCode::Char(c), KeyModifiers::CONTROL)
}

fn type_text(dialog: &mut CustomInstructionDialog, text: &str) {
    for c in text.chars() {
        dialog.handle_key(key(KeyCode::Char(c)));
    }
}

#[test]
fn typing_edits_the_text_area() {
    let mut dialog = CustomInstructionDialog::new(None);
    type_text(&mut dialog, "ab");
    dialog.handle_key(key(KeyCode::Enter));
    type_text(&mut dialog, "c");
    assert_eq!(dialog.get_text(), "ab\nc");
    assert_eq!(dialog.lines(), vec!["ab".to_string(), "c".to_string()]);
    assert_eq!(dialog.cursor(), (1, 1));
}

#[test]
fn undo_and_redo_span_key_presses() {
    let mut dialog = CustomInstructionDialog::new(None);
    type_text(&mut dialog, "abc");
    dialog.handle_key(ctrl('u'));
    assert_eq!(dialog.get_text(), "ab");
    dialog.handle_key(ctrl('u'));
    assert_eq!(dialog.get_text(), "a");
    dialog.handle_key(ctrl('r'));
    assert_eq!(dialog.get_text(), "ab");
}

#[test]
fn cut_text_is_pasted_back_in_the_editor() {
    let mut dialog = CustomInstructionDialog::new(Some("hello world".to_string()));
    dialog.handle_key(ctrl('k'));
    assert_eq!(dialog.get_text(), "");
    dialog.handle_key(ctrl('y'));
    assert_eq!(dialog.get_text(), "hello world");
}

#[test]
fn a_selection_is_replaced_by_typing() {
    let mut dialog = CustomInstructionDialog::new(Some("abcd".to_string()));
    dialog.handle_key(shift_key(KeyCode::Right));
    dialog.handle_key(shift_key(KeyCode::Right));
    type_text(&mut dialog, "X");
    assert_eq!(dialog.get_text(), "Xcd");
}

#[test]
fn long_lines_are_still_edited() {
    let long: String = std::iter::repeat('a').take(70000).collect();
    let mut dialog = CustomInstructionDialog::new(Some(long.clone()));
    dialog.handle_key(key(KeyCode::End));
    type_text(&mut dialog, "b");
    assert_eq!(dialog.get_text().len(), 70001);
    assert!(dialog.get_text().ends_with('b'));
}
