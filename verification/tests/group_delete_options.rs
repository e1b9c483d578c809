use agent_of_empires::dialogs::{DialogResult, GroupDeleteOptions, GroupDeleteOptionsDialog, RowLook, RowTone};
use agent_of_empires::keys::{KeyCode, KeyEvent, KeyModifiers};

fn key(code: KeyCode) -> KeyEvent {
    KeyEvent::new(code, KeyModifiers::NONE)
}

fn shift_key(code: KeyCode) -> KeyEvent {
    KeyEvent::new(code, KeyModifiers::SHIFT)
}

fn dialog() -> GroupDeleteOptionsDialog {
    GroupDeleteOptionsDialog::new("work".to_string(), 3, false, false)
}

fn dialog_with_worktrees() -> GroupDeleteOptionsDialog {
    GroupDeleteOptionsDialog::new("work".to_string(), 3, true, false)
}

fn dialog_with_containers() -> GroupDeleteOptionsDialog {
    GroupDeleteOptionsDialog::new("work".to_string(), 3, false, true)
}

fn dialog_with_both() -> GroupDeleteOptionsDialog {
    GroupDeleteOptionsDialog::new("work".to_string(), 3, true, true)
}

#[test]
fn test_default_options() {
    let options = GroupDeleteOptions::default();
    assert!(!options.delete_sessions);
    assert!(!options.delete_worktrees);
    assert!(!options.force_delete_worktrees);
    assert!(!options.delete_branches);
    assert!(!options.delete_containers);
}

#[test]
fn group_delete_options_test_esc_cancels() {
    let mut dialog = dialog();
    let result = dialog.handle_key(key(KeyCode::Esc));
    assert!(matches!(result, DialogResult::Cancel));
}

#[test]
fn test_enter_confirms() {
    let mut dialog = dialog();
    let result = dialog.handle_key(key(KeyCode::Enter));
    assert!(matches!(result, DialogResult::Submit(_)));
}

#[test]
fn test_default_is_move() {
    let mut dialog = dialog();
    let result = dialog.handle_key(key(KeyCode::Enter));
    match result {
        DialogResult::Submit(opts) => {
            assert!(!opts.delete_sessions);
        }
        _ => panic!("Expected Submit"),
    }
}

#[test]
fn test_tab_cycles_fields() {
    let mut dialog = dialog();
    assert_eq!(dialog.focused_field, 0);

    dialog.handle_key(key(KeyCode::Tab));
    assert_eq!(dialog.focused_field, 1);

    dialog.handle_key(key(KeyCode::Tab));
    assert_eq!(dialog.focused_field, 0);
}

#[test]
fn test_backtab_cycles_reverse() {
    let mut dialog = dialog();
    assert_eq!(dialog.focused_field, 0);

    dialog.handle_key(shift_key(KeyCode::BackTab));
    assert_eq!(dialog.focused_field, 1);

    dialog.handle_key(shift_key(KeyCode::BackTab));
    assert_eq!(dialog.focused_field, 0);
}

#[test]
fn test_space_selects_delete() {
    let mut dialog = dialog();
    dialog.handle_key(key(KeyCode::Tab)); // Move to delete option
    dialog.handle_key(key(KeyCode::Char(' ')));
    assert!(dialog.options.delete_sessions);
}

#[test]
fn test_space_selects_move() {
    let mut dialog = dialog();
    dialog.options.delete_sessions = true;
    dialog.focused_field = 0;
    dialog.handle_key(key(KeyCode::Char(' ')));
    assert!(!dialog.options.delete_sessions);
}

#[test]
fn test_worktree_checkbox_appears_when_delete_selected() {
    let mut dialog = dialog_with_worktrees();
    assert_eq!(dialog.max_field(), 2); // No worktree option yet

    dialog.options.delete_sessions = true;
    assert_eq!(dialog.max_field(), 4); // Now worktree + branch options are available
}

#[test]
fn test_worktree_checkbox_toggle() {
    let mut dialog = dialog_with_worktrees();
    dialog.options.delete_sessions = true;
    dialog.focused_field = 2;
    assert!(!dialog.options.delete_worktrees);

    dialog.handle_key(key(KeyCode::Char(' ')));
    assert!(dialog.options.delete_worktrees);

    dialog.handle_key(key(KeyCode::Char(' ')));
    assert!(!dialog.options.delete_worktrees);
}

#[test]
fn test_tab_includes_worktree_when_delete_selected() {
    let mut dialog = dialog_with_worktrees();
    dialog.options.delete_sessions = true;
    assert_eq!(dialog.focused_field, 0);

    dialog.handle_key(key(KeyCode::Tab));
    assert_eq!(dialog.focused_field, 1);

    dialog.handle_key(key(KeyCode::Tab));
    assert_eq!(dialog.focused_field, 2); // worktree checkbox

    dialog.handle_key(key(KeyCode::Tab));
    assert_eq!(dialog.focused_field, 3); // branch checkbox

    dialog.handle_key(key(KeyCode::Tab));
    assert_eq!(dialog.focused_field, 0);
}

#[test]
fn test_up_down_navigation() {
    let mut dialog = dialog();
    assert_eq!(dialog.focused_field, 0);

    dialog.handle_key(key(KeyCode::Down));
    assert_eq!(dialog.focused_field, 1);

    dialog.handle_key(key(KeyCode::Up));
    assert_eq!(dialog.focused_field, 0);
}

#[test]
fn test_jk_navigation() {
    let mut dialog = dialog();
    assert_eq!(dialog.focused_field, 0);

    dialog.handle_key(key(KeyCode::Char('j')));
    assert_eq!(dialog.focused_field, 1);

    dialog.handle_key(key(KeyCode::Char('k')));
    assert_eq!(dialog.focused_field, 0);
}

#[test]
fn test_submit_with_delete_and_worktrees() {
    let mut dialog = dialog_with_worktrees();
    dialog.options.delete_sessions = true;
    dialog.options.delete_worktrees = true;

    let result = dialog.handle_key(key(KeyCode::Enter));
    match result {
        DialogResult::Submit(opts) => {
            assert!(opts.delete_sessions);
            assert!(opts.delete_worktrees);
        }
        _ => panic!("Expected Submit"),
    }
}

#[test]
fn test_selecting_move_clears_delete_worktrees() {
    let mut dialog = dialog_with_worktrees();
    dialog.options.delete_sessions = true;
    dialog.options.delete_worktrees = true;
    dialog.options.force_delete_worktrees = true;
    dialog.options.delete_branches = true;
    dialog.focused_field = 0;

    dialog.handle_key(key(KeyCode::Char(' ')));
    assert!(!dialog.options.delete_sessions);
    assert!(!dialog.options.delete_worktrees);
    assert!(!dialog.options.force_delete_worktrees);
    assert!(!dialog.options.delete_branches);
}

#[test]
fn test_selecting_move_clears_delete_containers() {
    let mut dialog = dialog_with_containers();
    dialog.options.delete_sessions = true;
    dialog.options.delete_containers = true;
    dialog.focused_field = 0;

    dialog.handle_key(key(KeyCode::Char(' ')));
    assert!(!dialog.options.delete_sessions);
    assert!(!dialog.options.delete_containers);
}

#[test]
fn test_container_checkbox_appears_when_delete_selected() {
    let mut dialog = dialog_with_containers();
    assert_eq!(dialog.max_field(), 2); // No container option yet

    dialog.options.delete_sessions = true;
    assert_eq!(dialog.max_field(), 3); // Now container option is available
}

#[test]
fn test_container_checkbox_toggle() {
    let mut dialog = dialog_with_containers();
    dialog.options.delete_sessions = true;
    dialog.focused_field = 2; // Container is at index 2 when no worktrees
    assert!(!dialog.options.delete_containers);

    dialog.handle_key(key(KeyCode::Char(' ')));
    assert!(dialog.options.delete_containers);

    dialog.handle_key(key(KeyCode::Char(' ')));
    assert!(!dialog.options.delete_containers);
}

#[test]
fn test_tab_includes_container_when_delete_selected() {
    let mut dialog = dialog_with_containers();
    dialog.options.delete_sessions = true;
    assert_eq!(dialog.focused_field, 0);

    dialog.handle_key(key(KeyCode::Tab));
    assert_eq!(dialog.focused_field, 1);

    dialog.handle_key(key(KeyCode::Tab));
    assert_eq!(dialog.focused_field, 2); // Container checkbox

    dialog.handle_key(key(KeyCode::Tab));
    assert_eq!(dialog.focused_field, 0);
}

#[test]
fn test_both_checkboxes_when_delete_selected() {
    let mut dialog = dialog_with_both();
    assert_eq!(dialog.max_field(), 2); // No checkboxes yet

    dialog.options.delete_sessions = true;
    assert_eq!(dialog.max_field(), 5); // worktree + branch + container checkboxes
}

#[test]
fn test_tab_includes_both_checkboxes() {
    let mut dialog = dialog_with_both();
    dialog.options.delete_sessions = true;
    assert_eq!(dialog.focused_field, 0);

    dialog.handle_key(key(KeyCode::Tab));
    assert_eq!(dialog.focused_field, 1); // Delete option

    dialog.handle_key(key(KeyCode::Tab));
    assert_eq!(dialog.focused_field, 2); // Worktree checkbox

    dialog.handle_key(key(KeyCode::Tab));
    assert_eq!(dialog.focused_field, 3); // Branch checkbox

    dialog.handle_key(key(KeyCode::Tab));
    assert_eq!(dialog.focused_field, 4); // Container checkbox

    dialog.handle_key(key(KeyCode::Tab));
    assert_eq!(dialog.focused_field, 0); // Wrap around
}

#[test]
fn test_container_checkbox_at_correct_index_with_worktrees() {
    let mut dialog = dialog_with_both();
    dialog.options.delete_sessions = true;

    // Worktree is at index 2
    assert_eq!(dialog.worktree_field_index(), Some(2));
    // Branch is at index 3 (after worktree)
    assert_eq!(dialog.branch_field_index(), Some(3));
    // Container is at index 4 (after branch)
    assert_eq!(dialog.container_field_index(), Some(4));
}

#[test]
fn test_container_checkbox_at_correct_index_without_worktrees() {
    let mut dialog = dialog_with_containers();
    dialog.options.delete_sessions = true;

    // No worktree
    assert_eq!(dialog.worktree_field_index(), None);
    // Container is at index 2
    assert_eq!(dialog.container_field_index(), Some(2));
}

#[test]
fn test_submit_with_all_options() {
    let mut dialog = dialog_with_both();
    dialog.options.delete_sessions = true;
    dialog.options.delete_worktrees = true;
    dialog.options.force_delete_worktrees = true;
    dialog.options.delete_branches = true;
    dialog.options.delete_containers = true;

    let result = dialog.handle_key(key(KeyCode::Enter));
    match result {
        DialogResult::Submit(opts) => {
            assert!(opts.delete_sessions);
            assert!(opts.delete_worktrees);
            assert!(opts.force_delete_worktrees);
            assert!(opts.delete_branches);
            assert!(opts.delete_containers);
        }
        _ => panic!("Expected Submit"),
    }
}

#[test]
fn test_selecting_move_clears_all_options() {
    let mut dialog = dialog_with_both();
    dialog.options.delete_sessions = true;
    dialog.options.delete_worktrees = true;
    dialog.options.force_delete_worktrees = true;
    dialog.options.delete_branches = true;
    dialog.options.delete_containers = true;
    dialog.focused_field = 0;

    dialog.handle_key(key(KeyCode::Char(' ')));
    assert!(!dialog.options.delete_sessions);
    assert!(!dialog.options.delete_worktrees);
    assert!(!dialog.options.force_delete_worktrees);
    assert!(!dialog.options.delete_branches);
    assert!(!dialog.options.delete_containers);
}

#[test]
fn test_branch_checkbox_toggle() {
    let mut dialog = dialog_with_worktrees();
    dialog.options.delete_sessions = true;
    dialog.focused_field = 3; // Branch checkbox
    assert!(!dialog.options.delete_branches);

    dialog.handle_key(key(KeyCode::Char(' ')));
    assert!(dialog.options.delete_branches);

    dialog.handle_key(key(KeyCode::Char(' ')));
    assert!(!dialog.options.delete_branches);
}

#[test]
fn rows_of_a_plain_group_are_move_and_delete() {
    let d = dialog();
    let rows = d.option_rows();
    assert_eq!(rows.len(), 2);
    assert_eq!(rows[0].mark, "(•)");
    assert_eq!(rows[0].label, " Move sessions to default group");
    assert_eq!(rows[0].look, RowLook::Focused);
    assert_eq!(rows[0].tone, RowTone::Accent);
    assert_eq!(rows[1].mark, "( )");
    assert_eq!(rows[1].look, RowLook::Dimmed);
    assert_eq!(d.dialog_height(), 11);
}

#[test]
fn rows_show_worktree_options_when_deleting() {
    let mut d = GroupDeleteOptionsDialog::new("work".to_string(), 1, true, true);
    d.handle_key(key(KeyCode::Tab));
    d.handle_key(key(KeyCode::Char(' ')));
    d.handle_key(key(KeyCode::Tab));
    d.handle_key(key(KeyCode::Char(' ')));
    let rows = d.option_rows();
    let labels: Vec<&str> = rows.iter().map(|r| r.label).collect();
    assert_eq!(
        labels,
        vec![
            " Move sessions to default group",
            " Delete all sessions",
            " Also delete managed worktrees",
            " Force delete",
            " Also delete git branches",
            " Also delete containers",
        ]
    );
    assert_eq!(rows[1].look, RowLook::Chosen);
    assert_eq!(rows[2].mark, "[x]");
    assert_eq!(rows[2].look, RowLook::Focused);
    assert_eq!(rows[3].indent, 8);
    assert_eq!(d.dialog_height(), 15);
}

#[test]
fn group_line_counts_sessions() {
    let one = GroupDeleteOptionsDialog::new("work".to_string(), 1, false, false);
    assert_eq!(one.info_parts(), ("Group: ".to_string(), "\"work\"".to_string(), " (1 session)".to_string()));
    let three = dialog();
    assert_eq!(three.info_parts().2, " (3 sessions)");
}
