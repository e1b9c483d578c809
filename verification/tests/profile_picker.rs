use agent_of_empires::dialogs::DialogResult;
use agent_of_empires::keys::{KeyCode, KeyEvent, KeyModifiers};
use agent_of_empires::profile_picker::{Mode, ProfileEntry, ProfilePickerAction, ProfilePickerDialog};

fn key(code: KeyCode) -> KeyEvent {
    KeyEvent::new(code, KeyModifiers::NONE)
}

fn sample_profiles() -> Vec<ProfileEntry> {
    vec![
        ProfileEntry {
            name: "default".to_string(),
            session_count: 2,
            is_active: true,
        },
        ProfileEntry {
            name: "work".to_string(),
            session_count: 3,
            is_active: false,
        },
        ProfileEntry {
            name: "personal".to_string(),
            session_count: 0,
            is_active: false,
        },
    ]
}

#[test]
fn test_new_selects_active_profile() {
    let dialog = ProfilePickerDialog::new(sample_profiles(), "default");
    assert_eq!(dialog.selected, 0);

    let dialog = ProfilePickerDialog::new(sample_profiles(), "work");
    assert_eq!(dialog.selected, 1);
}

#[test]
fn profile_picker_test_esc_cancels() {
    let mut dialog = ProfilePickerDialog::new(sample_profiles(), "default");
    let result = dialog.handle_key(key(KeyCode::Esc));
    assert!(matches!(result, DialogResult::Cancel));
}

#[test]
fn test_navigate_and_select() {
    let mut dialog = ProfilePickerDialog::new(sample_profiles(), "default");

    // Move down to "work"
    dialog.handle_key(key(KeyCode::Down));
    assert_eq!(dialog.selected, 1);

    // Select it
    let result = dialog.handle_key(key(KeyCode::Enter));
    assert!(matches!(
        result,
        DialogResult::Submit(ProfilePickerAction::Switch(name)) if name == "work"
    ));
}

#[test]
fn test_enter_on_active_cancels() {
    let mut dialog = ProfilePickerDialog::new(sample_profiles(), "default");
    // "default" is active, Enter should cancel
    let result = dialog.handle_key(key(KeyCode::Enter));
    assert!(matches!(result, DialogResult::Cancel));
}

#[test]
fn test_create_flow() {
    let mut dialog = ProfilePickerDialog::new(sample_profiles(), "default");

    // Press 'n' to enter create mode
    dialog.handle_key(key(KeyCode::Char('n')));
    assert!(matches!(dialog.mode, Mode::CreateInput));

    // Type a name
    dialog.handle_key(key(KeyCode::Char('t')));
    dialog.handle_key(key(KeyCode::Char('e')));
    dialog.handle_key(key(KeyCode::Char('s')));
    dialog.handle_key(key(KeyCode::Char('t')));

    let result = dialog.handle_key(key(KeyCode::Enter));
    assert!(matches!(
        result,
        DialogResult::Submit(ProfilePickerAction::Created(name)) if name == "test"
    ));
}

#[test]
fn test_create_empty_name_error() {
    let mut dialog = ProfilePickerDialog::new(sample_profiles(), "default");
    dialog.handle_key(key(KeyCode::Char('n')));

    let result = dialog.handle_key(key(KeyCode::Enter));
    assert!(matches!(result, DialogResult::Continue));
    assert!(dialog.error.is_some());
    assert!(dialog.error.as_ref().unwrap().contains("empty"));
}

#[test]
fn test_create_duplicate_name_error() {
    let mut dialog = ProfilePickerDialog::new(sample_profiles(), "default");
    dialog.handle_key(key(KeyCode::Char('n')));

    // Type "work" which already exists
    for c in "work".chars() {
        dialog.handle_key(key(KeyCode::Char(c)));
    }

    let result = dialog.handle_key(key(KeyCode::Enter));
    assert!(matches!(result, DialogResult::Continue));
    assert!(dialog.error.as_ref().unwrap().contains("already exists"));
}

#[test]
fn test_create_path_separator_error() {
    let mut dialog = ProfilePickerDialog::new(sample_profiles(), "default");
    dialog.handle_key(key(KeyCode::Char('n')));

    for c in "a/b".chars() {
        dialog.handle_key(key(KeyCode::Char(c)));
    }

    let result = dialog.handle_key(key(KeyCode::Enter));
    assert!(matches!(result, DialogResult::Continue));
    assert!(dialog.error.as_ref().unwrap().contains("path separators"));
}

#[test]
fn test_create_esc_returns_to_list() {
    let mut dialog = ProfilePickerDialog::new(sample_profiles(), "default");
    dialog.handle_key(key(KeyCode::Char('n')));
    assert!(matches!(dialog.mode, Mode::CreateInput));

    dialog.handle_key(key(KeyCode::Esc));
    assert!(matches!(dialog.mode, Mode::List));
}

#[test]
fn test_delete_not_allowed_on_active() {
    let mut dialog = ProfilePickerDialog::new(sample_profiles(), "default");
    // "default" is active, 'd' should not enter confirm mode
    dialog.handle_key(key(KeyCode::Char('d')));
    assert!(matches!(dialog.mode, Mode::List));
}

#[test]
fn test_delete_not_allowed_on_default() {
    let profiles = vec![
        ProfileEntry {
            name: "default".to_string(),
            session_count: 0,
            is_active: false,
        },
        ProfileEntry {
            name: "work".to_string(),
            session_count: 0,
            is_active: true,
        },
    ];
    let mut dialog = ProfilePickerDialog::new(profiles, "work");
    // Select "default" (index 0)
    dialog.handle_key(key(KeyCode::Up));
    assert_eq!(dialog.selected, 0);

    dialog.handle_key(key(KeyCode::Char('d')));
    assert!(matches!(dialog.mode, Mode::List));
}

#[test]
fn test_delete_confirm_flow() {
    let mut dialog = ProfilePickerDialog::new(sample_profiles(), "default");
    // Select "work"
    dialog.handle_key(key(KeyCode::Down));
    assert_eq!(dialog.selected, 1);

    // Press 'd' to enter confirm
    dialog.handle_key(key(KeyCode::Char('d')));
    assert!(matches!(dialog.mode, Mode::ConfirmDelete));

    // Press 'y' to confirm
    let result = dialog.handle_key(key(KeyCode::Char('y')));
    assert!(matches!(
        result,
        DialogResult::Submit(ProfilePickerAction::Deleted(name)) if name == "work"
    ));
}

#[test]
fn test_delete_cancel_returns_to_list() {
    let mut dialog = ProfilePickerDialog::new(sample_profiles(), "default");
    dialog.handle_key(key(KeyCode::Down));
    dialog.handle_key(key(KeyCode::Char('d')));
    assert!(matches!(dialog.mode, Mode::ConfirmDelete));

    dialog.handle_key(key(KeyCode::Esc));
    assert!(matches!(dialog.mode, Mode::List));
}

#[test]
fn test_navigation_clamps() {
    let mut dialog = ProfilePickerDialog::new(sample_profiles(), "default");

    // Can't go above 0
    dialog.handle_key(key(KeyCode::Up));
    assert_eq!(dialog.selected, 0);

    // Go to last
    dialog.handle_key(key(KeyCode::Down));
    dialog.handle_key(key(KeyCode::Down));
    assert_eq!(dialog.selected, 2);

    // Can't go past last
    dialog.handle_key(key(KeyCode::Down));
    assert_eq!(dialog.selected, 2);
}

#[test]
fn test_k_j_navigation() {
    let mut dialog = ProfilePickerDialog::new(sample_profiles(), "default");

    dialog.handle_key(key(KeyCode::Char('j')));
    assert_eq!(dialog.selected, 1);

    dialog.handle_key(key(KeyCode::Char('k')));
    assert_eq!(dialog.selected, 0);
}

#[test]
fn list_lines_mark_the_highlight_and_count_sessions() {
    let dialog = ProfilePickerDialog::new(sample_profiles(), "work");
    let lines = dialog.list_lines(8);
    let shown: Vec<(bool, &str, &str)> =
        lines.iter().map(|l| (l.highlighted, l.label.as_str(), l.note.as_str())).collect();
    assert_eq!(
        shown,
        vec![
            (false, "  default", "  (active)"),
            (true, "> work", "  3 sessions"),
            (false, "  personal", "  0 sessions"),
        ]
    );
}

#[test]
fn list_lines_scroll_to_the_highlight() {
    let mut dialog = ProfilePickerDialog::new(sample_profiles(), "default");
    dialog.selected = 2;
    let lines = dialog.list_lines(2);
    assert_eq!(lines.len(), 2);
    assert_eq!(lines[0].label, "  work");
    assert_eq!(lines[1].label, "> personal");
}

#[test]
fn delete_question_names_the_profile() {
    let mut dialog = ProfilePickerDialog::new(sample_profiles(), "default");
    dialog.selected = 1;
    assert_eq!(dialog.delete_question(), Some("Delete 'work' (3 sessions)?".to_string()));
    dialog.profiles[1].session_count = 1;
    assert_eq!(dialog.delete_question(), Some("Delete 'work' (1 session)?".to_string()));
    assert_eq!(dialog.selected_profile().map(|p| p.name.as_str()), Some("work"));
    dialog.selected = 7;
    assert_eq!(dialog.delete_question(), None);
}
