use agent_of_empires::help::{
    content_line_count, settings_shortcuts, shortcuts, SETTINGS_HELP_HEIGHT, BORDER_HEIGHT, BORDER_WIDTH, DIALOG_HEIGHT, DIALOG_WIDTH, KEY_COLUMN_WIDTH,
};

#[test]
fn help_contains_resize_shortcut() {
    let all = shortcuts();
    let views_section = all.iter().find(|(name, _)| *name == "Views");
    assert!(views_section.is_some(), "Views section should exist");
    let (_, keys) = views_section.unwrap();
    assert!(keys.iter().any(|(k, _)| *k == "H/L"), "Views section should contain H/L resize shortcut");
}

#[test]
fn help_content_fits_in_dialog() {
    let available_height = (DIALOG_HEIGHT - BORDER_HEIGHT) as usize;
    let content_lines = content_line_count();
    assert!(content_lines <= available_height);

    let available_width = (DIALOG_WIDTH - BORDER_WIDTH) as usize;
    for (section, keys) in shortcuts() {
        assert!(section.len() <= available_width);
        for (_key, desc) in keys {
            let line_width = KEY_COLUMN_WIDTH + desc.len();
            assert!(line_width <= available_width);
        }
    }
}

#[test]
fn help_content_takes_thirty_two_lines() {
    assert_eq!(content_line_count(), 32);
}

#[test]
fn settings_help_fills_the_dialog_height() {
    let lines: usize = settings_shortcuts().iter().map(|(_, keys)| keys.len() + 2).sum();
    assert_eq!(lines, (SETTINGS_HELP_HEIGHT - BORDER_HEIGHT) as usize);
    assert_eq!(settings_shortcuts()[2].0, "Scope & Profile");
}
