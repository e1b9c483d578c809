use agent_of_empires::keys::{KeyCode, KeyEvent, KeyModifiers};
use agent_of_empires::profile_config::{clear_override, FieldKey, ProfileConfig, SandboxOverride, ThemeOverride};
use agent_of_empires::settings::{
    fields_viewport_height,
    field_layout, FieldSlot, FieldValue, ListEditState, SettingField, SettingsAction, SettingsFocus, SettingsRequest, SettingsScope, SettingsView,
};
use agent_of_empires::text_input::TextInput;

fn key(code: KeyCode) -> KeyEvent {
    KeyEvent::new(code, KeyModifiers::NONE)
}

fn sandbox_override() -> SandboxOverride {
    SandboxOverride {
        default_image: Some("img".to_string()),
        environment: Some(vec!["A".to_string()]),
        auto_cleanup: None,
        enabled_by_default: None,
        default_terminal_mode: None,
        extra_volumes: None,
        port_mappings: None,
        volume_ignores: None,
        mount_ssh: Some(true),
        cpu_limit: None,
        memory_limit: None,
        custom_instruction: None,
        container_runtime: None,
    }
}

fn view(fields: Vec<SettingField>) -> SettingsView {
    SettingsView {
        focus: SettingsFocus::Fields,
        scope: SettingsScope::Global,
        category_count: 3,
        selected_category: 0,
        fields,
        selected_field: 0,
        editing_input: None,
        list_edit_state: None,
        custom_instruction_dialog: None,
        show_help: false,
        has_changes: false,
        error_message: None,
        success_message: Some("saved".to_string()),
        available_profiles: vec!["default".to_string(), "work".to_string()],
        profile: "default".to_string(),
        project_path: None,
        profile_config: ProfileConfig::default(),
        repo_as_profile: ProfileConfig::default(),
        requests: vec![],
    }
}

fn field(key: FieldKey, value: FieldValue) -> SettingField {
    SettingField { key, value, has_override: false }
}

#[test]
fn clearing_an_override_keeps_the_rest() {
    let mut c = ProfileConfig::default();
    c.sandbox = Some(sandbox_override());
    clear_override(&mut c, FieldKey::DefaultImage);
    let s = c.sandbox.as_ref().unwrap();
    assert!(s.default_image.is_none());
    assert_eq!(s.environment, Some(vec!["A".to_string()]));
    assert_eq!(s.mount_ssh, Some(true));
    clear_override(&mut c, FieldKey::ThemeName);
    assert!(c.theme.is_none());
}

#[test]
fn toggling_a_switch_applies_it() {
    let mut v = view(vec![field(FieldKey::MountSsh, FieldValue::Bool(false))]);
    let r = v.handle_key(key(KeyCode::Char(' ')));
    assert!(matches!(r, SettingsAction::Continue));
    assert!(matches!(v.fields[0].value, FieldValue::Bool(true)));
    assert!(matches!(v.requests[0], SettingsRequest::ApplyField(0)));
    assert!(v.success_message.is_none());
}

#[test]
fn quitting_with_changes_warns() {
    let mut v = view(vec![]);
    assert!(matches!(v.handle_key(key(KeyCode::Char('q'))), SettingsAction::Close));
    v.has_changes = true;
    assert!(matches!(v.handle_key(key(KeyCode::Char('q'))), SettingsAction::UnsavedChangesWarning));
    v.force_close();
    assert!(!v.has_changes);
}

#[test]
fn escape_goes_up_one_level() {
    let mut v = view(vec![]);
    assert!(matches!(v.handle_key(key(KeyCode::Esc)), SettingsAction::Continue));
    assert_eq!(v.focus, SettingsFocus::Categories);
    assert!(matches!(v.handle_key(key(KeyCode::Esc)), SettingsAction::Close));
}

#[test]
fn scope_cycles() {
    let mut v = view(vec![]);
    v.handle_key(key(KeyCode::Char(']')));
    assert_eq!(v.scope, SettingsScope::Profile);
    v.handle_key(key(KeyCode::Char(']')));
    assert_eq!(v.scope, SettingsScope::Global);
    v.project_path = Some("/p".to_string());
    v.handle_key(key(KeyCode::Char('[')));
    assert_eq!(v.scope, SettingsScope::Repo);
    assert!(matches!(v.requests.last().unwrap(), SettingsRequest::RebuildFields));
}

#[test]
fn profile_switch_request() {
    let mut v = view(vec![]);
    v.scope = SettingsScope::Profile;
    v.handle_key(key(KeyCode::Char('}')));
    match v.requests.last().unwrap() {
        SettingsRequest::SwitchProfile(p) => assert_eq!(p, "work"),
        _ => panic!("expected a profile switch"),
    }
    v.handle_key(key(KeyCode::Char('{')));
    match v.requests.last().unwrap() {
        SettingsRequest::SwitchProfile(p) => assert_eq!(p, "work"),
        _ => panic!("expected a profile switch"),
    }
}

#[test]
fn choice_cycles_and_previews_theme() {
    let mut v = view(vec![field(
        FieldKey::ThemeName,
        FieldValue::Select { selected: 1, options: vec!["dark".to_string(), "light".to_string()] },
    )]);
    match v.handle_key(key(KeyCode::Enter)) {
        SettingsAction::PreviewTheme(name) => assert_eq!(name, "dark"),
        _ => panic!("expected a preview"),
    }
    assert_eq!(v.theme_preview(), Some("dark".to_string()));
}

#[test]
fn editing_a_number() {
    let mut v = view(vec![field(FieldKey::CheckIntervalHours, FieldValue::Number(24))]);
    v.handle_key(key(KeyCode::Enter));
    assert_eq!(v.editing_input.as_ref().unwrap().value(), "24");
    v.handle_key(key(KeyCode::Backspace));
    v.handle_key(key(KeyCode::Char('x')));
    v.handle_key(key(KeyCode::Enter));
    assert_eq!(v.error_message, Some("Invalid number".to_string()));
    assert_eq!(v.editing_input.as_ref().unwrap().value(), "2x");
    v.handle_key(key(KeyCode::Backspace));
    v.handle_key(key(KeyCode::Char('8')));
    v.handle_key(key(KeyCode::Enter));
    assert!(v.editing_input.is_none());
    assert!(matches!(v.fields[0].value, FieldValue::Number(28)));
    assert!(matches!(v.requests.last().unwrap(), SettingsRequest::ValidateField(0)));
    v.finish_validation(Err("too large".to_string()));
    assert_eq!(v.error_message, Some("too large".to_string()));
    assert_eq!(v.editing_input.as_ref().unwrap().value(), "28");
}

#[test]
fn editing_a_list() {
    let mut v = view(vec![field(FieldKey::Environment, FieldValue::List(vec!["A".to_string(), "B".to_string()]))]);
    v.handle_key(key(KeyCode::Enter));
    assert!(v.list_edit_state.is_some());
    v.handle_key(key(KeyCode::Char('a')));
    v.handle_key(key(KeyCode::Char('C')));
    v.handle_key(key(KeyCode::Enter));
    match &v.fields[0].value {
        FieldValue::List(items) => assert_eq!(items, &vec!["A".to_string(), "B".to_string(), "C".to_string()]),
        _ => panic!("expected a list"),
    }
    assert_eq!(v.list_edit_state.as_ref().unwrap().selected_index, 2);
    assert!(v.requests.iter().any(|r| matches!(r, SettingsRequest::CheckEnvEntry(e) if e == "C")));
    v.handle_key(key(KeyCode::Char('d')));
    match &v.fields[0].value {
        FieldValue::List(items) => assert_eq!(items.len(), 2),
        _ => panic!("expected a list"),
    }
    assert_eq!(v.list_edit_state.as_ref().unwrap().selected_index, 1);
    v.handle_key(key(KeyCode::Esc));
    assert!(v.list_edit_state.is_none());
}

#[test]
fn reset_clears_profile_override() {
    let mut v = view(vec![field(FieldKey::ThemeName, FieldValue::Select { selected: 0, options: vec!["dark".to_string()] })]);
    v.scope = SettingsScope::Profile;
    v.profile_config.theme = Some(ThemeOverride { name: Some("dark".to_string()) });
    v.handle_key(key(KeyCode::Char('r')));
    assert!(v.profile_config.theme.as_ref().unwrap().name.is_none());
    assert!(v.has_changes);
    assert!(matches!(v.requests.last().unwrap(), SettingsRequest::PreviewThemeAfterRebuild));
}

#[test]
fn help_overlay_swallows_keys() {
    let mut v = view(vec![]);
    v.handle_key(key(KeyCode::Char('?')));
    assert!(v.show_help);
    v.handle_key(key(KeyCode::Char('q')));
    assert!(!v.show_help);
}

#[test]
fn text_input_for_text_fields() {
    let mut v = view(vec![field(FieldKey::DefaultImage, FieldValue::Text("ubuntu".to_string()))]);
    v.handle_key(key(KeyCode::Enter));
    let input: &TextInput = v.editing_input.as_ref().unwrap();
    assert_eq!(input.value(), "ubuntu");
    v.handle_key(key(KeyCode::Esc));
    assert!(v.editing_input.is_none());
}

#[test]
fn save_request_and_failure() {
    let mut v = view(vec![]);
    v.handle_key(KeyEvent::new(KeyCode::Char('s'), KeyModifiers::CONTROL));
    assert!(matches!(v.requests[0], SettingsRequest::Save));
    v.record_save_result(Err("disk full".to_string()));
    assert_eq!(v.error_message, Some("Failed to save: disk full".to_string()));
}

fn hint_keys(v: &SettingsView) -> Vec<&'static str> {
    v.footer_hints().into_iter().map(|(k, _)| k).collect()
}

#[test]
fn footer_hints_follow_the_state() {
    let mut v = view(vec![field(FieldKey::DefaultImage, FieldValue::Text("img".to_string()))]);
    assert_eq!(hint_keys(&v), vec!["j/k", "Enter", "Space", "[]", "Ctrl+s", "?", "q"]);
    v.scope = SettingsScope::Profile;
    assert_eq!(hint_keys(&v), vec!["j/k", "Enter", "Space", "[]", "{}", "Ctrl+s", "?", "q"]);
    v.profile_config.sandbox = Some(sandbox_override());
    v.fields[0].has_override = true;
    assert_eq!(hint_keys(&v), vec!["j/k", "Enter", "Space", "r", "[]", "{}", "Ctrl+s", "?", "q"]);
    v.scope = SettingsScope::Global;
    assert_eq!(hint_keys(&v), vec!["j/k", "Enter", "Space", "[]", "Ctrl+s", "?", "q"]);
    v.scope = SettingsScope::Profile;
    v.focus = SettingsFocus::Categories;
    assert_eq!(v.footer_hints()[1], ("Enter/Tab", ": fields  "));
    v.editing_input = Some(TextInput::new("x".to_string()));
    assert_eq!(v.footer_hints(), vec![("Enter", ": confirm  "), ("Esc", ": cancel")]);
}

fn slot(index: usize, y: u16, height: u16) -> FieldSlot {
    FieldSlot { index, y, height }
}

#[test]
fn field_layout_shows_the_fields_in_the_viewport() {
    let hs = vec![3u16, 3, 3];
    assert_eq!(field_layout(&hs, 0, 7), (11, vec![slot(0, 0, 3), slot(1, 4, 3)]));
    assert_eq!(field_layout(&hs, 2, 5).1, vec![slot(0, 0, 3), slot(1, 2, 3)]);
    assert_eq!(field_layout(&hs, 4, 5).1, vec![slot(1, 0, 3), slot(2, 4, 1)]);
    assert_eq!(field_layout(&Vec::new(), 0, 5), (0, vec![]));
}

#[test]
fn a_list_being_edited_takes_a_row_per_item() {
    let mut v = view(vec![
        field(FieldKey::Environment, FieldValue::List(vec!["A".to_string(), "B".to_string()])),
        field(FieldKey::MountSsh, FieldValue::Bool(true)),
    ]);
    assert_eq!(v.field_height(0), 3);
    v.list_edit_state = Some(ListEditState { selected_index: 0, editing_item: None, adding_new: false });
    assert_eq!(v.field_height(0), 6);
    assert_eq!(v.field_height(1), 3);
}

#[test]
fn fields_viewport_leaves_room_for_messages_and_warning() {
    assert_eq!(fields_viewport_height(20, false, false), 20);
    assert_eq!(fields_viewport_height(20, true, false), 18);
    assert_eq!(fields_viewport_height(20, true, true), 15);
    assert_eq!(fields_viewport_height(4, true, true), 0);
    assert_eq!(fields_viewport_height(2, false, true), 0);
}
