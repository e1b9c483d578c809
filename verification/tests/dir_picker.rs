use agent_of_empires::dir_picker::{scroll_window, DirPicker, DirPickerResult, LineLook, ListWindow};
use agent_of_empires::keys::{KeyCode, KeyEvent, KeyModifiers};

fn key(code: KeyCode) -> KeyEvent {
    KeyEvent::new(code, KeyModifiers::NONE)
}

/// A directory tree held in memory: each directory with the entries in
/// it, each entry with whether it is a directory. Listing a directory
/// gives the names of its subdirectories, as reading the disk would; a
/// directory that is not in the tree cannot be read.
fn tree(dirs: Vec<(&'static str, Vec<(&'static str, bool)>)>) -> impl Fn(String) -> Option<Vec<String>> {
    move |path: String| {
        dirs.iter()
            .find(|(p, _)| *p == path)
            .map(|(_, entries)| entries.iter().filter(|(_, is_dir)| *is_dir).map(|(n, _)| n.to_string()).collect())
    }
}

const BASE: &str = "/tmp/base";

/// A base directory with three subdirectories and a regular file.
fn setup_tempdir() -> impl Fn(String) -> Option<Vec<String>> {
    tree(vec![
        ("/", vec![("tmp", true)]),
        ("/tmp", vec![("base", true)]),
        (BASE, vec![("gamma", true), ("file.txt", false), ("alpha", true), ("beta", true)]),
        ("/tmp/base/alpha", vec![]),
        ("/tmp/base/beta", vec![]),
        ("/tmp/base/gamma", vec![]),
    ])
}

fn opened(fs: &impl Fn(String) -> Option<Vec<String>>) -> DirPicker {
    let mut picker = DirPicker::new();
    picker.activate(BASE, true, Some("/home".to_string()), fs);
    picker
}

#[test]
fn test_new_is_inactive() {
    let picker = DirPicker::new();
    assert!(!picker.is_active());
}

#[test]
fn test_activate_sets_cwd_and_lists_dirs() {
    let fs = setup_tempdir();
    let picker = opened(&fs);
    assert!(picker.is_active());
    assert_eq!(picker.cwd, BASE);
    assert_eq!(picker.filter.value(), "");
    assert_eq!(picker.selected, 0);
    assert_eq!(picker.dirs.len(), 3);
    assert!(picker.dirs.contains(&"alpha".to_string()));
    assert!(!picker.dirs.contains(&"file.txt".to_string()));
}

#[test]
fn test_activate_with_empty_path() {
    let fs = tree(vec![("/work", vec![("src", true)])]);
    let mut picker = DirPicker::new();
    picker.activate("", false, Some("/work".to_string()), &fs);
    assert!(picker.is_active());
    assert_eq!(picker.cwd, "/work");
    assert!(!picker.read_error);
}

#[test]
fn activate_on_a_file_opens_its_directory() {
    let fs = setup_tempdir();
    let mut picker = DirPicker::new();
    picker.activate("/tmp/base/file.txt", false, None, &fs);
    assert_eq!(picker.cwd, BASE);
}

#[test]
fn activate_without_current_directory_opens_root() {
    let fs = setup_tempdir();
    let mut picker = DirPicker::new();
    picker.activate("", false, None, &fs);
    assert_eq!(picker.cwd, "/");
    assert_eq!(picker.dirs, vec!["tmp"]);
}

#[test]
fn test_dirs_sorted_case_insensitive() {
    let fs = tree(vec![(BASE, vec![("Zebra", true), ("apple", true), ("Banana", true)])]);
    let picker = opened(&fs);
    assert_eq!(picker.dirs, vec!["apple", "Banana", "Zebra"]);
}

#[test]
fn dir_picker_test_esc_cancels() {
    let fs = setup_tempdir();
    let mut picker = opened(&fs);
    let result = picker.handle_key(key(KeyCode::Esc), &fs);
    assert!(matches!(result, DirPickerResult::Cancelled));
    assert!(!picker.is_active());
}

#[test]
fn test_enter_on_dot_selects_cwd() {
    let fs = setup_tempdir();
    let mut picker = opened(&fs);
    let result = picker.handle_key(key(KeyCode::Enter), &fs);
    match result {
        DirPickerResult::Selected(path) => assert_eq!(path, BASE),
        _ => panic!("Expected Selected"),
    }
    assert!(!picker.is_active());
}

#[test]
fn test_enter_on_parent_navigates_up() {
    let fs = setup_tempdir();
    let mut picker = opened(&fs);
    picker.handle_key(key(KeyCode::Down), &fs);
    assert_eq!(picker.selected, 1);
    let result = picker.handle_key(key(KeyCode::Enter), &fs);
    assert!(matches!(result, DirPickerResult::Continue));
    assert!(picker.is_active());
    assert_eq!(picker.cwd, "/tmp");
}

#[test]
fn test_enter_on_subdir_navigates_into() {
    let fs = setup_tempdir();
    let mut picker = opened(&fs);
    picker.handle_key(key(KeyCode::Down), &fs);
    picker.handle_key(key(KeyCode::Down), &fs);
    let result = picker.handle_key(key(KeyCode::Enter), &fs);
    assert!(matches!(result, DirPickerResult::Continue));
    assert!(picker.is_active());
    assert_eq!(picker.cwd, "/tmp/base/alpha");
    assert_eq!(picker.filter.value(), "");
    assert_eq!(picker.selected, 0);
}

#[test]
fn test_right_arrow_navigates_into_directory() {
    let fs = setup_tempdir();
    let mut picker = opened(&fs);
    picker.handle_key(key(KeyCode::Down), &fs);
    picker.handle_key(key(KeyCode::Down), &fs);
    let result = picker.handle_key(key(KeyCode::Right), &fs);
    assert!(matches!(result, DirPickerResult::Continue));
    assert_eq!(picker.cwd, "/tmp/base/alpha");
}

#[test]
fn test_right_arrow_on_dot_selects_cwd() {
    let fs = setup_tempdir();
    let mut picker = opened(&fs);
    let result = picker.handle_key(key(KeyCode::Right), &fs);
    match result {
        DirPickerResult::Selected(path) => assert_eq!(path, BASE),
        _ => panic!("Expected Selected"),
    }
    assert!(!picker.is_active());
}

#[test]
fn test_left_arrow_navigates_to_parent() {
    let fs = setup_tempdir();
    let mut picker = DirPicker::new();
    picker.activate("/tmp/base/alpha", true, None, &fs);
    let result = picker.handle_key(key(KeyCode::Left), &fs);
    assert!(matches!(result, DirPickerResult::Continue));
    assert_eq!(picker.cwd, BASE);
}

#[test]
fn test_backspace_empty_filter_goes_to_parent() {
    let fs = setup_tempdir();
    let mut picker = DirPicker::new();
    picker.activate("/tmp/base/alpha", true, None, &fs);
    picker.handle_key(key(KeyCode::Backspace), &fs);
    assert_eq!(picker.cwd, BASE);
}

#[test]
fn test_backspace_with_filter_removes_char() {
    let fs = setup_tempdir();
    let mut picker = opened(&fs);
    picker.handle_key(key(KeyCode::Char('a')), &fs);
    assert_eq!(picker.filter.value(), "a");
    picker.handle_key(key(KeyCode::Backspace), &fs);
    assert_eq!(picker.filter.value(), "");
}

#[test]
fn test_enter_navigates_then_dot_selects() {
    let fs = setup_tempdir();
    let mut picker = opened(&fs);
    picker.handle_key(key(KeyCode::Down), &fs);
    picker.handle_key(key(KeyCode::Down), &fs);
    picker.handle_key(key(KeyCode::Enter), &fs);
    assert_eq!(picker.cwd, "/tmp/base/alpha");
    let result = picker.handle_key(key(KeyCode::Enter), &fs);
    match result {
        DirPickerResult::Selected(path) => assert_eq!(path, "/tmp/base/alpha"),
        _ => panic!("Expected Selected"),
    }
    assert!(!picker.is_active());
}

#[test]
fn test_navigation_up_down() {
    let fs = setup_tempdir();
    let mut picker = opened(&fs);
    picker.handle_key(key(KeyCode::Up), &fs);
    assert_eq!(picker.selected, 0);
    picker.handle_key(key(KeyCode::Down), &fs);
    assert_eq!(picker.selected, 1);
    picker.handle_key(key(KeyCode::Down), &fs);
    assert_eq!(picker.selected, 2);
    picker.handle_key(key(KeyCode::Up), &fs);
    assert_eq!(picker.selected, 1);
}

#[test]
fn test_navigation_clamps_at_end() {
    let fs = setup_tempdir();
    let mut picker = opened(&fs);
    for _ in 0..10 {
        picker.handle_key(key(KeyCode::Down), &fs);
    }
    assert_eq!(picker.selected, 4);
}

#[test]
fn test_filtered_dirs_includes_dot_entry() {
    let fs = setup_tempdir();
    let picker = opened(&fs);
    let filtered = picker.filtered_dirs();
    assert_eq!(filtered[0], "./");
    assert_eq!(filtered[1], "../");
}

#[test]
fn test_filter_narrows_results() {
    let fs = setup_tempdir();
    let mut picker = opened(&fs);
    picker.handle_key(key(KeyCode::Char('a')), &fs);
    let filtered = picker.filtered_dirs();
    assert!(filtered.contains(&"alpha".to_string()));
    assert!(filtered.contains(&"beta".to_string()));
    assert!(filtered.contains(&"gamma".to_string()));
    assert!(!filtered.contains(&"./".to_string()));
    assert!(!filtered.contains(&"../".to_string()));
    picker.handle_key(key(KeyCode::Char('l')), &fs);
    let filtered = picker.filtered_dirs();
    assert_eq!(filtered, vec!["alpha"]);
}

#[test]
fn filter_ignores_case() {
    let fs = tree(vec![(BASE, vec![("Docs", true), ("src", true)])]);
    let mut picker = opened(&fs);
    picker.handle_key(key(KeyCode::Char('D')), &fs);
    assert_eq!(picker.filtered_dirs(), vec!["Docs"]);
}

#[test]
fn test_filter_resets_selection() {
    let fs = setup_tempdir();
    let mut picker = opened(&fs);
    picker.handle_key(key(KeyCode::Down), &fs);
    picker.handle_key(key(KeyCode::Down), &fs);
    assert_eq!(picker.selected, 2);
    picker.handle_key(key(KeyCode::Char('a')), &fs);
    assert_eq!(picker.selected, 0);
}

#[test]
fn test_jk_are_filter_chars_not_navigation() {
    let fs = setup_tempdir();
    let mut picker = opened(&fs);
    picker.handle_key(key(KeyCode::Char('j')), &fs);
    assert_eq!(picker.filter.value(), "j");
    assert_eq!(picker.selected, 0);
    picker.handle_key(key(KeyCode::Char('k')), &fs);
    assert_eq!(picker.filter.value(), "jk");
}

#[test]
fn test_symlinked_dirs_are_listed() {
    // A link to a directory is listed as a directory.
    let fs = tree(vec![(BASE, vec![("real", true), ("link", true)])]);
    let picker = opened(&fs);
    assert!(picker.dirs.contains(&"real".to_string()));
    assert!(picker.dirs.contains(&"link".to_string()));
}

#[test]
fn test_files_excluded_from_listing() {
    let fs = setup_tempdir();
    let picker = opened(&fs);
    assert!(!picker.dirs.contains(&"file.txt".to_string()));
}

#[test]
fn test_parent_entry_not_shown_at_root() {
    let fs = setup_tempdir();
    let mut picker = DirPicker::new();
    picker.activate("/", true, None, &fs);
    let filtered = picker.filtered_dirs();
    assert!(!filtered.contains(&"../".to_string()));
    assert!(filtered.contains(&"./".to_string()));
}

#[test]
fn test_dotfiles_hidden_by_default() {
    let fs = tree(vec![(BASE, vec![(".hidden", true), ("visible", true)])]);
    let picker = opened(&fs);
    assert!(picker.dirs.contains(&"visible".to_string()));
    assert!(!picker.dirs.contains(&".hidden".to_string()));
}

#[test]
fn test_ctrl_h_toggles_hidden() {
    let fs = tree(vec![(BASE, vec![(".hidden", true), ("visible", true)])]);
    let mut picker = opened(&fs);
    assert!(!picker.dirs.contains(&".hidden".to_string()));
    let ctrl_h = KeyEvent::new(KeyCode::Char('h'), KeyModifiers::CONTROL);
    picker.handle_key(ctrl_h, &fs);
    assert!(picker.show_hidden);
    assert!(picker.dirs.contains(&".hidden".to_string()));
    assert!(picker.dirs.contains(&"visible".to_string()));
    picker.handle_key(ctrl_h, &fs);
    assert!(!picker.show_hidden);
    assert!(!picker.dirs.contains(&".hidden".to_string()));
}

#[test]
fn test_enter_on_empty_filtered_list_is_noop() {
    let fs = setup_tempdir();
    let mut picker = opened(&fs);
    picker.handle_key(key(KeyCode::Char('z')), &fs);
    picker.handle_key(key(KeyCode::Char('z')), &fs);
    picker.handle_key(key(KeyCode::Char('z')), &fs);
    assert!(picker.filtered_dirs().is_empty());
    let result = picker.handle_key(key(KeyCode::Enter), &fs);
    assert!(matches!(result, DirPickerResult::Continue));
    assert!(picker.is_active());
}

#[test]
fn test_unreadable_dir_shows_error() {
    let fs = setup_tempdir();
    let mut picker = DirPicker::new();
    picker.cwd = "/nonexistent_path_that_should_not_exist".to_string();
    picker.refresh_dirs(&fs);
    assert!(picker.read_error);
    assert!(picker.dirs.is_empty());
}

#[test]
fn test_dot_filter_matches_navigation_entries() {
    let fs = setup_tempdir();
    let mut picker = opened(&fs);
    picker.handle_key(key(KeyCode::Char('.')), &fs);
    let filtered = picker.filtered_dirs();
    assert!(filtered.contains(&"./".to_string()));
    assert!(filtered.contains(&"../".to_string()));
    picker.handle_key(key(KeyCode::Char('/')), &fs);
    let filtered = picker.filtered_dirs();
    assert!(!filtered.contains(&"./".to_string()));
    assert!(!filtered.contains(&"../".to_string()));
}

#[test]
fn test_enter_single_filtered_match_navigates() {
    let fs = setup_tempdir();
    let mut picker = opened(&fs);
    picker.handle_key(key(KeyCode::Char('a')), &fs);
    picker.handle_key(key(KeyCode::Char('l')), &fs);
    assert_eq!(picker.filtered_dirs(), vec!["alpha"]);
    picker.handle_key(key(KeyCode::Enter), &fs);
    assert_eq!(picker.cwd, "/tmp/base/alpha");
    assert_eq!(picker.filter.value(), "");
    assert_eq!(picker.selected, 0);
    assert!(picker.is_active());
}

#[test]
fn test_tab_does_nothing_in_dir_picker() {
    let fs = setup_tempdir();
    let mut picker = opened(&fs);
    let original_cwd = picker.cwd.clone();
    let result = picker.handle_key(key(KeyCode::Tab), &fs);
    assert!(matches!(result, DirPickerResult::Continue));
    assert_eq!(picker.cwd, original_cwd);
    assert_eq!(picker.selected, 0);
}

#[test]
fn question_mark_shows_help_and_esc_hides_it() {
    let fs = setup_tempdir();
    let mut picker = opened(&fs);
    picker.handle_key(key(KeyCode::Char('?')), &fs);
    assert!(picker.show_help);
    let result = picker.handle_key(key(KeyCode::Down), &fs);
    assert!(matches!(result, DirPickerResult::Continue));
    assert_eq!(picker.selected, 0);
    assert!(picker.show_help);
    picker.handle_key(key(KeyCode::Esc), &fs);
    assert!(!picker.show_help);
    assert!(picker.is_active());
}

#[test]
fn test_truncate_path_short() {
    assert_eq!(DirPicker::truncate_path("/short", 20), "/short");
}

#[test]
fn test_truncate_path_long() {
    let long = "/home/user/very/deeply/nested/directory/structure";
    let truncated = DirPicker::truncate_path(long, 30);
    assert!(truncated.starts_with("..."));
    assert!(truncated.chars().count() <= 30);
    assert!(truncated.ends_with("directory/structure"));
}

#[test]
fn test_truncate_path_exact() {
    assert_eq!(DirPicker::truncate_path("/exact", 6), "/exact");
}

#[test]
fn test_truncate_path_multibyte_utf8() {
    let path = "/home/user/projetcs/donnees/repertoire";
    let truncated = DirPicker::truncate_path(path, 20);
    assert!(truncated.starts_with("..."));
    assert!(truncated.chars().count() <= 20);
    let unicode_path = "/home/\u{00e9}\u{00e8}\u{00ea}/\u{00fc}\u{00f6}\u{00e4}/dir";
    let truncated = DirPicker::truncate_path(unicode_path, 10);
    assert!(truncated.starts_with("..."));
    assert!(truncated.chars().count() <= 10);
}

#[test]
fn truncate_path_exact_values() {
    assert_eq!(DirPicker::truncate_path("/abcdefgh", 7), "...efgh");
    assert_eq!(DirPicker::truncate_path("/abcdefgh", 2), "..");
    assert_eq!(DirPicker::truncate_path("/abcdefgh", 3), "...");
}

#[test]
fn scroll_window_keeps_the_highlight_in_view() {
    assert_eq!(scroll_window(5, 0, 10), ListWindow { offset: 0, shown: 10, more_above: false, more_below: false });
    assert_eq!(scroll_window(20, 0, 5), ListWindow { offset: 0, shown: 4, more_above: false, more_below: true });
    assert_eq!(scroll_window(20, 10, 5), ListWindow { offset: 8, shown: 3, more_above: true, more_below: true });
    assert_eq!(scroll_window(20, 19, 5), ListWindow { offset: 16, shown: 4, more_above: true, more_below: false });
}

#[test]
fn listing_marks_the_highlight_and_counts_hidden_entries() {
    let fs = setup_tempdir();
    let mut picker = opened(&fs);
    let lines = picker.listing(10);
    let texts: Vec<&str> = lines.iter().map(|(t, _)| t.as_str()).collect();
    assert_eq!(texts, vec!["> ./", "  ../", "  alpha/", "  beta/", "  gamma/"]);
    assert_eq!(lines[0].1, LineLook::Selected);
    assert_eq!(lines[1].1, LineLook::Normal);

    for _ in 0..4 {
        picker.handle_key(key(KeyCode::Down), &fs);
    }
    let lines = picker.listing(3);
    let texts: Vec<&str> = lines.iter().map(|(t, _)| t.as_str()).collect();
    assert_eq!(texts, vec!["  [3 more above]", "  beta/", "> gamma/"]);
    assert_eq!(lines[0].1, LineLook::Dimmed);
}

#[test]
fn listing_notes_unreadable_and_empty_directories() {
    let fs = tree(vec![(BASE, vec![])]);
    let mut picker = opened(&fs);
    picker.handle_key(key(KeyCode::Char('z')), &fs);
    assert_eq!(picker.listing(10)[0].0, "  (empty directory)");
    picker.cwd = "/missing".to_string();
    picker.refresh_dirs(&fs);
    assert_eq!(picker.listing(10)[0].0, "  (permission denied)");
}

#[test]
fn help_offers_to_show_or_hide_dotfiles() {
    let fs = setup_tempdir();
    let mut picker = opened(&fs);
    assert_eq!(picker.help_bindings()[5], ("Ctrl+H", "Show dotfiles"));
    picker.handle_key(KeyEvent::new(KeyCode::Char('h'), KeyModifiers::CONTROL), &fs);
    assert_eq!(picker.help_bindings()[5], ("Ctrl+H", "Hide dotfiles"));
    assert_eq!(picker.help_bindings().len(), 7);
}
