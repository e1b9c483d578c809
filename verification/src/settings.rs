//! Key handling of the settings view: moving between categories and
//! fields, switching scope and profile, editing values in place, editing
//! list values item by item, and clearing profile or repository
//! overrides. Loading, saving and rebuilding the field list from the
//! configuration are the caller's part: the view queues them as requests.

use crate::civilizations::i64_to_decimal;
use crate::custom_instruction::CustomInstructionDialog;
use crate::dialogs::DialogResult;
use crate::keys::{KeyCode, KeyEvent, KeyModifiers};
use crate::profile_config::{clear_override, cleared, FieldKey, ProfileConfig};
use crate::text::{chars_eq, chars_of, parse_u32, parse_u32_spec, string_of};
use crate::text_input::{key_edits, string_seq, TextInput};
use vstd::prelude::*;

verus! {

broadcast use vstd::string::group_string_axioms;

/// What the settings view asks of its caller after a key press.
pub enum SettingsAction {
    /// Keep showing the view.
    Continue,
    /// Close the view.
    Close,
    /// Closing was refused because of unsaved changes.
    UnsavedChangesWarning,
    /// Show the theme of this name for a preview.
    PreviewTheme(String),
}

/// Work the caller does for the view, in the order queued.
pub enum SettingsRequest {
    /// Save the configuration of the current scope.
    Save,
    /// Rebuild the field list from the configuration.
    RebuildFields,
    /// Load the named profile.
    SwitchProfile(String),
    /// Write the value of this field into the configuration.
    ApplyField(usize),
    /// Scroll the field list so that the selected field shows.
    EnsureFieldVisible,
    /// Check the value of this field, and report with `finish_validation`.
    ValidateField(usize),
    /// Check an environment entry typed into a list, and report with
    /// `set_error`.
    CheckEnvEntry(String),
    /// Derive the repository configuration from the repository overrides.
    SyncRepoConfig,
    /// After rebuilding, preview the theme the theme field shows.
    PreviewThemeAfterRebuild,
}

#[derive(PartialEq, Eq, Structural, Clone, Copy, Debug)]
pub enum SettingsFocus {
    Categories,
    Fields,
}

/// Which configuration the view edits.
#[derive(PartialEq, Eq, Structural, Clone, Copy, Debug)]
pub enum SettingsScope {
    Global,
    Profile,
    Repo,
}

/// The value of a field.
pub enum FieldValue {
    Bool(bool),
    Text(String),
    OptionalText(Option<String>),
    Number(u32),
    Select { selected: usize, options: Vec<String> },
    List(Vec<String>),
}

pub struct SettingField {
    pub key: FieldKey,
    pub value: FieldValue,
    /// The value is overridden in the scope the field was built for.
    pub has_override: bool,
}

/// Editing a list value: the selected item, the item being typed and
/// whether it is a new item.
pub struct ListEditState {
    pub selected_index: usize,
    pub editing_item: Option<TextInput>,
    pub adding_new: bool,
}

impl Default for ListEditState {
    fn default() -> (r: ListEditState)
        ensures
            r.selected_index == 0,
            r.editing_item is None,
            !r.adding_new,
    {
        ListEditState { selected_index: 0, editing_item: None, adding_new: false }
    }
}

pub struct SettingsView {
    pub focus: SettingsFocus,
    pub scope: SettingsScope,
    /// The number of categories in the side list.
    pub category_count: usize,
    pub selected_category: usize,
    pub fields: Vec<SettingField>,
    pub selected_field: usize,
    /// The text being typed into the selected field.
    pub editing_input: Option<TextInput>,
    /// The state of editing the selected list field.
    pub list_edit_state: Option<ListEditState>,
    /// The editor of the custom instruction, while open.
    pub custom_instruction_dialog: Option<CustomInstructionDialog>,
    pub show_help: bool,
    pub has_changes: bool,
    pub error_message: Option<String>,
    pub success_message: Option<String>,
    /// The profiles that can be switched to.
    pub available_profiles: Vec<String>,
    /// The profile whose settings are shown.
    pub profile: String,
    /// The repository whose settings can be shown, if any.
    pub project_path: Option<String>,
    /// The overrides of the profile.
    pub profile_config: ProfileConfig,
    /// The overrides of the repository.
    pub repo_as_profile: ProfileConfig,
    /// Work queued for the caller.
    pub requests: Vec<SettingsRequest>,
}

/// The scope after `]`: Global, Profile, Repo (where there is a
/// repository), and round again.
pub open spec fn next_scope(scope: SettingsScope, has_project: bool) -> SettingsScope {
    match scope {
        SettingsScope::Global => SettingsScope::Profile,
        SettingsScope::Profile => if has_project {
            SettingsScope::Repo
        } else {
            SettingsScope::Global
        },
        SettingsScope::Repo => SettingsScope::Global,
    }
}

/// The scope after `[`: the other way round.
pub open spec fn prev_scope(scope: SettingsScope, has_project: bool) -> SettingsScope {
    match scope {
        SettingsScope::Global => if has_project {
            SettingsScope::Repo
        } else {
            SettingsScope::Profile
        },
        SettingsScope::Profile => SettingsScope::Global,
        SettingsScope::Repo => SettingsScope::Profile,
    }
}

/// The index of the current profile among the available ones (0 where it
/// is not among them), and the one after `}` or before `{`.
pub open spec fn profile_position(profiles: Seq<Seq<char>>, current: Seq<char>) -> nat {
    if profiles.contains(current) {
        first_index(profiles, current)
    } else {
        0
    }
}

/// The index of the first occurrence of `x` in `s` (the length where it
/// does not occur).
pub open spec fn first_index(s: Seq<Seq<char>>, x: Seq<char>) -> nat
    decreases s.len(),
{
    if s.len() == 0 {
        0
    } else if s[0] == x {
        0
    } else {
        1 + first_index(s.drop_first(), x)
    }
}

proof fn lemma_first_index(s: Seq<Seq<char>>, x: Seq<char>, i: int)
    requires
        0 <= i < s.len(),
        s[i] == x,
        forall|k: int| 0 <= k < i ==> s[k] != x,
    ensures
        first_index(s, x) == i,
    decreases i,
{
    if i > 0 {
        lemma_first_index(s.drop_first(), x, i - 1);
    }
}

pub open spec fn cycled_profile(len: nat, current: nat, forward: bool) -> nat {
    if forward {
        ((current as int + 1) % (len as int)) as nat
    } else if current == 0 {
        (len - 1) as nat
    } else {
        (current - 1) as nat
    }
}

/// Cycling through the profiles: `}` and `{` stay among the profiles and
/// undo each other; `{` from the first profile wraps to the last and `}`
/// from the last wraps to the first.
pub proof fn lemma_profile_cycling_is_reversible(len: nat, c: nat)
    requires
        c < len,
    ensures
        cycled_profile(len, c, true) < len,
        cycled_profile(len, c, false) < len,
        cycled_profile(len, cycled_profile(len, c, true), false) == c,
        cycled_profile(len, cycled_profile(len, c, false), true) == c,
        cycled_profile(len, 0, false) == len - 1,
        cycled_profile(len, (len - 1) as nat, true) == 0,
{
    assert(c + 1 < len ==> (c as int + 1) % (len as int) == c + 1) by (nonlinear_arith)
        requires
            len > 0,
    ;
    assert(((len as int - 1) + 1) % (len as int) == 0) by (nonlinear_arith)
        requires
            len > 0,
    ;
    assert(c + 1 <= len);
    if c > 0 {
        assert(((c as int - 1) + 1) % (len as int) == c) by (nonlinear_arith)
            requires
                0 < c < len,
        ;
    }
}

fn copy_strings(v: &Vec<String>) -> (r: Vec<String>)
    ensures
        string_seq(r@) == string_seq(v@),
        r@.len() == v@.len(),
{
    let mut out: Vec<String> = Vec::new();
    let mut i: usize = 0;
    while i < v.len()
        invariant
            i <= v@.len(),
            string_seq(out@) == string_seq(v@).take(i as int),
        decreases v@.len() - i,
    {
        let ghost before = out@;
        out.push(v[i].clone());
        assert(string_seq(out@) =~= string_seq(before).push(v@[i as int]@));
        assert(string_seq(out@) =~= string_seq(v@).take(i + 1));
        i += 1;
    }
    assert(string_seq(v@).take(v@.len() as int) =~= string_seq(v@));
    out
}

/// A choice value offers at least one option, and one of them is chosen.
pub open spec fn select_has_options(v: FieldValue) -> bool {
    match v {
        FieldValue::Select { selected, options } => selected < options@.len(),
        _ => true,
    }
}

/// The text a field is edited as.
pub open spec fn edit_text(v: FieldValue) -> Option<Seq<char>> {
    match v {
        FieldValue::Text(t) => Some(t@),
        FieldValue::OptionalText(t) => Some(
            match t {
                Some(s) => s@,
                None => Seq::empty(),
            },
        ),
        FieldValue::Number(n) => Some(crate::civilizations::decimal(n as int)),
        _ => None,
    }
}

impl SettingsView {
    /// The selection points at a field (at 0 when there is none); an edit
    /// in progress is on an existing field; choice fields have options.
    pub open spec fn wf(self) -> bool {
        &&& (self.fields@.len() == 0 ==> self.selected_field == 0)
        &&& (self.fields@.len() > 0 ==> self.selected_field < self.fields@.len())
        &&& (self.editing_input is Some || self.list_edit_state is Some
            || self.custom_instruction_dialog is Some) ==> self.selected_field < self.fields@.len()
        &&& forall|i: int|
            0 <= i < self.fields@.len() ==> select_has_options(#[trigger] self.fields@[i].value)
    }

    /// `next` is `self` with `reqs` queued and otherwise as `changed`.
    pub open spec fn queued(self, next: Self, changed: Self, reqs: Seq<SettingsRequest>) -> bool {
        &&& next.requests@ == self.requests@ + reqs
        &&& next == (SettingsView { requests: next.requests, ..changed })
    }

    /// Closing: refused while there are unsaved changes.
    pub open spec fn close_action(self) -> SettingsAction {
        if self.has_changes {
            SettingsAction::UnsavedChangesWarning
        } else {
            SettingsAction::Close
        }
    }

    /// The effect of a key in the normal mode (no editor, list edit,
    /// dialog or help open), after the success message is cleared.
    pub open spec fn normal_step(self, next: Self, key: KeyEvent, r: SettingsAction) -> bool {
        let n = self.fields@.len();
        let sel = self.selected_field;
        let on_field = self.focus == SettingsFocus::Fields && n > 0;
        match key.code {
            KeyCode::Char('s') if key.modifiers == KeyModifiers::CONTROL => r is Continue && self.queued(
                next,
                self,
                seq![SettingsRequest::Save],
            ),
            KeyCode::Char('q') => r == self.close_action() && next == self,
            KeyCode::Esc => if self.focus == SettingsFocus::Fields {
                r is Continue && next == (SettingsView { focus: SettingsFocus::Categories, ..self })
            } else {
                r == self.close_action() && next == self
            },
            KeyCode::Char(']') | KeyCode::Char('[') => if self.has_changes {
                r is UnsavedChangesWarning && next == self
            } else {
                r is Continue && self.queued(
                    next,
                    SettingsView {
                        scope: if key.code == KeyCode::Char(']') {
                            next_scope(self.scope, self.project_path is Some)
                        } else {
                            prev_scope(self.scope, self.project_path is Some)
                        },
                        ..self
                    },
                    seq![SettingsRequest::RebuildFields],
                )
            },
            KeyCode::Char('}') | KeyCode::Char('{') => if self.scope == SettingsScope::Profile
                && self.available_profiles@.len() > 0 {
                if self.has_changes {
                    r is UnsavedChangesWarning && next == self
                } else {
                    let names = string_seq(self.available_profiles@);
                    let i = cycled_profile(
                        names.len(),
                        profile_position(names, self.profile@),
                        key.code == KeyCode::Char('}'),
                    );
                    r is Continue && next.requests@.len() == self.requests@.len() + 1
                        && next.requests@.take(self.requests@.len() as int) == self.requests@
                        && (next.requests@.last() matches SettingsRequest::SwitchProfile(p) && p@
                        == names[i as int]) && next == (SettingsView {
                        requests: next.requests,
                        ..self
                    })
                }
            } else {
                r is Continue && next == self
            },
            KeyCode::Tab | KeyCode::Right | KeyCode::Char('l') => r is Continue && next == (
            SettingsView { focus: SettingsFocus::Fields, ..self }),
            KeyCode::BackTab | KeyCode::Left | KeyCode::Char('h') => r is Continue && next == (
            SettingsView { focus: SettingsFocus::Categories, ..self }),
            KeyCode::Up | KeyCode::Char('k') => r is Continue && if self.focus
                == SettingsFocus::Categories {
                if self.selected_category > 0 {
                    self.queued(
                        next,
                        SettingsView { selected_category: (self.selected_category - 1) as usize, ..self },
                        seq![SettingsRequest::RebuildFields],
                    )
                } else {
                    next == self
                }
            } else {
                if sel > 0 {
                    self.queued(
                        next,
                        SettingsView { selected_field: (sel - 1) as usize, ..self },
                        seq![SettingsRequest::EnsureFieldVisible],
                    )
                } else {
                    next == self
                }
            },
            KeyCode::Down | KeyCode::Char('j') => r is Continue && if self.focus
                == SettingsFocus::Categories {
                if self.selected_category + 1 < self.category_count {
                    self.queued(
                        next,
                        SettingsView { selected_category: (self.selected_category + 1) as usize, ..self },
                        seq![SettingsRequest::RebuildFields],
                    )
                } else {
                    next == self
                }
            } else {
                if sel + 1 < n {
                    self.queued(
                        next,
                        SettingsView { selected_field: (sel + 1) as usize, ..self },
                        seq![SettingsRequest::EnsureFieldVisible],
                    )
                } else {
                    next == self
                }
            },
            KeyCode::Char(' ') => r is Continue && if on_field && self.fields@[sel as int].value is Bool {
                self.queued(
                    next,
                    SettingsView {
                        fields: next.fields,
                        ..self
                    },
                    seq![SettingsRequest::ApplyField(sel)],
                ) && next.fields@ == self.fields@.update(
                    sel as int,
                    SettingField {
                        key: self.fields@[sel as int].key,
                        value: FieldValue::Bool(!self.fields@[sel as int].value->Bool_0),
                        has_override: self.fields@[sel as int].has_override,
                    },
                )
            } else {
                next == self
            },
            KeyCode::Enter => if on_field {
                self.enter_step(next, r)
            } else if self.focus == SettingsFocus::Categories {
                r is Continue && next == (SettingsView { focus: SettingsFocus::Fields, ..self })
            } else {
                r is Continue && next == self
            },
            KeyCode::Char('?') => r is Continue && next == (SettingsView { show_help: true, ..self }),
            KeyCode::Char('r') => r is Continue && if (self.scope == SettingsScope::Profile
                || self.scope == SettingsScope::Repo) && on_field {
                self.reset_step(next)
            } else {
                next == self
            },
            _ => r is Continue && next == self,
        }
    }

    /// Enter on the selected field: flip a switch, start typing a text or
    /// number, open the instruction editor, step a choice (previewing a
    /// theme), or start editing a list.
    pub open spec fn enter_step(self, next: Self, r: SettingsAction) -> bool {
        let sel = self.selected_field;
        let f = self.fields@[sel as int];
        match f.value {
            FieldValue::Bool(b) => r is Continue && next.fields@ == self.fields@.update(
                sel as int,
                SettingField { key: f.key, value: FieldValue::Bool(!b), has_override: f.has_override },
            ) && self.queued(
                next,
                SettingsView { fields: next.fields, ..self },
                seq![SettingsRequest::ApplyField(sel)],
            ),
            FieldValue::OptionalText(t) if f.key == FieldKey::CustomInstruction => r is Continue
                && next == (SettingsView { custom_instruction_dialog: next.custom_instruction_dialog, ..self })
                && (next.custom_instruction_dialog matches Some(d) && d.focused_zone == 0
                && d.focused_button == 0 && d.cursor_view() == (0nat, 0nat) && d.lines_view()
                == crate::custom_instruction::initial_lines(
                match t {
                    Some(s) => s@,
                    None => Seq::empty(),
                },
            )),
            FieldValue::Select { selected, options } => {
                let ns = ((selected + 1) % (options@.len() as int)) as usize;
                &&& SettingsView::only_value_changed(self.fields@, next.fields@, sel as int)
                &&& (next.fields@[sel as int].value matches FieldValue::Select { selected: s2, options: o2 }
                    && s2 == ns && string_seq(o2@) == string_seq(options@))
                &&& self.queued(
                    next,
                    SettingsView { fields: next.fields, ..self },
                    seq![SettingsRequest::ApplyField(sel)],
                )
                &&& if f.key == FieldKey::ThemeName && ns < options@.len() {
                    r matches SettingsAction::PreviewTheme(name) && name@ == options@[ns as int]@
                } else {
                    r is Continue
                }
            },
            FieldValue::List(_) => r is Continue && next == (SettingsView {
                list_edit_state: next.list_edit_state,
                ..self
            }) && (next.list_edit_state matches Some(s) && s.selected_index == 0
                && s.editing_item is None && !s.adding_new),
            _ => r is Continue && next == (SettingsView { editing_input: next.editing_input, ..self })
                && (next.editing_input matches Some(input) && Some(input.text()) == edit_text(f.value)
                && input.cursor_pos() == input.text().len()),
        }
    }

    /// `r` on a field in the profile or repository scope: the override
    /// of the field is cleared from that scope's configuration, the view
    /// has changes, and the caller syncs the repository configuration (in
    /// the repository scope), rebuilds the fields and, for the theme,
    /// previews the theme again.
    pub open spec fn reset_step(self, next: Self) -> bool {
        let key = self.fields@[self.selected_field as int].key;
        let repo = self.scope == SettingsScope::Repo;
        let changed = if repo {
            SettingsView { repo_as_profile: cleared(self.repo_as_profile, key), has_changes: true, ..self }
        } else {
            SettingsView { profile_config: cleared(self.profile_config, key), has_changes: true, ..self }
        };
        let sync: Seq<SettingsRequest> = if repo {
            seq![SettingsRequest::SyncRepoConfig]
        } else {
            seq![]
        };
        let theme: Seq<SettingsRequest> = if key == FieldKey::ThemeName {
            seq![SettingsRequest::PreviewThemeAfterRebuild]
        } else {
            seq![]
        };
        self.queued(next, changed, sync + seq![SettingsRequest::RebuildFields] + theme)
    }

    /// `next` differs from `self` at most in the value of field `i`.
    pub open spec fn only_value_changed(a: Seq<SettingField>, b: Seq<SettingField>, i: int) -> bool {
        &&& b.len() == a.len()
        &&& b[i].key == a[i].key
        &&& forall|k: int| 0 <= k < a.len() && k != i ==> b[k] == a[k]
    }

    /// The effect of a key while a value is being typed into the
    /// selected field: Esc abandons the edit; Enter stores the typed text
    /// (a number must parse) and asks for it to be checked; other keys
    /// edit the text.
    pub open spec fn text_edit_step(self, next: Self, key: KeyEvent, r: SettingsAction) -> bool {
        let sel = self.selected_field as int;
        let input = self.editing_input->0;
        let text = input.text();
        let f = self.fields@[sel];
        &&& r is Continue
        &&& match key.code {
            KeyCode::Esc => next == (SettingsView { editing_input: None, error_message: None, ..self }),
            KeyCode::Enter => if f.value is Number && parse_u32_spec(text) is None {
                &&& next == (SettingsView {
                    editing_input: next.editing_input,
                    error_message: next.error_message,
                    ..self
                })
                &&& (next.error_message matches Some(m) && m@ == "Invalid number"@)
                &&& (next.editing_input matches Some(i) && i.text() == text && i.cursor_pos()
                    == text.len())
            } else {
                &&& SettingsView::only_value_changed(self.fields@, next.fields@, sel)
                &&& match f.value {
                    FieldValue::Text(_) => next.fields@[sel].value matches FieldValue::Text(t) && t@
                        == text,
                    FieldValue::OptionalText(_) => if text.len() == 0 {
                        next.fields@[sel].value matches FieldValue::OptionalText(t) && t is None
                    } else {
                        next.fields@[sel].value matches FieldValue::OptionalText(t) && (t matches Some(
                            v,
                        ) && v@ == text)
                    },
                    FieldValue::Number(_) => next.fields@[sel].value == FieldValue::Number(
                        parse_u32_spec(text)->0,
                    ),
                    _ => next.fields@[sel] == f,
                }
                &&& self.queued(
                    next,
                    SettingsView { fields: next.fields, editing_input: None, ..self },
                    seq![SettingsRequest::ValidateField(self.selected_field)],
                )
            },
            _ => next == (SettingsView { editing_input: next.editing_input, ..self })
                && (next.editing_input matches Some(i) && key_edits(
                text,
                input.cursor_pos(),
                key,
                i.text(),
                i.cursor_pos(),
            )),
        }
    }

    /// The effect of a key while a list field is open for editing and no
    /// item is being typed.
    pub open spec fn list_edit_step(self, next: Self, key: KeyEvent) -> bool {
        let sel = self.selected_field as int;
        let st = self.list_edit_state->0;
        let idx = st.selected_index;
        let f = self.fields@[sel];
        match key.code {
            KeyCode::Esc => next == (SettingsView { list_edit_state: None, ..self }),
            KeyCode::Up | KeyCode::Char('k') => next == (SettingsView {
                list_edit_state: next.list_edit_state,
                ..self
            }) && (next.list_edit_state matches Some(ns) && ns.editing_item == st.editing_item
                && ns.adding_new == st.adding_new && ns.selected_index == if idx > 0 {
                (idx - 1) as usize
            } else {
                idx
            }),
            KeyCode::Down | KeyCode::Char('j') => next == (SettingsView {
                list_edit_state: next.list_edit_state,
                ..self
            }) && (next.list_edit_state matches Some(ns) && ns.editing_item == st.editing_item
                && ns.adding_new == st.adding_new && ns.selected_index == if (f.value matches FieldValue::List(
                items,
            ) && idx + 1 < items@.len()) {
                (idx + 1) as usize
            } else {
                idx
            }),
            KeyCode::Char('a') => next == (SettingsView { list_edit_state: next.list_edit_state, ..self })
                && (next.list_edit_state matches Some(ns) && ns.selected_index == idx && ns.adding_new
                && (ns.editing_item matches Some(i) && i.text().len() == 0 && i.cursor_pos() == 0)),
            KeyCode::Char('d') => {
                let removable = f.value matches FieldValue::List(items) && idx < items@.len();
                let old_items = f.value->List_0;
                &&& self.queued(
                    next,
                    SettingsView {
                        fields: next.fields,
                        list_edit_state: next.list_edit_state,
                        ..self
                    },
                    seq![SettingsRequest::ApplyField(self.selected_field)],
                )
                &&& (next.list_edit_state matches Some(ns) && ns.editing_item == st.editing_item
                    && ns.adding_new == st.adding_new && ns.selected_index == if removable && idx
                    >= old_items@.len() - 1 && old_items@.len() - 1 > 0 {
                    (old_items@.len() - 2) as usize
                } else {
                    idx
                })
                &&& if removable {
                    SettingsView::only_value_changed(self.fields@, next.fields@, sel)
                        && (next.fields@[sel].value matches FieldValue::List(items) && string_seq(items@)
                        == string_seq(old_items@).remove(idx as int))
                } else {
                    next.fields == self.fields
                }
            },
            KeyCode::Enter => next == (SettingsView { list_edit_state: next.list_edit_state, ..self })
                && if (f.value matches FieldValue::List(items) && idx < items@.len()) {
                next.list_edit_state matches Some(ns) && ns.selected_index == idx && ns.adding_new
                    == st.adding_new && (ns.editing_item matches Some(i) && i.text()
                    == f.value->List_0@[idx as int]@ && i.cursor_pos() == i.text().len())
            } else {
                next.list_edit_state == self.list_edit_state
            },
            _ => next == self,
        }
    }

    /// The effect of a key while a list item is being typed: Esc
    /// abandons it; Enter stores a non-empty text (a new item at the end,
    /// else in place of the selected item), asks for environment entries
    /// to be checked and for the field to be applied; other keys edit the
    /// text.
    pub open spec fn list_item_step(self, next: Self, key: KeyEvent) -> bool {
        let sel = self.selected_field as int;
        let st = self.list_edit_state->0;
        let input = st.editing_item->0;
        let text = input.text();
        let f = self.fields@[sel];
        match key.code {
            KeyCode::Esc => next == (SettingsView { list_edit_state: next.list_edit_state, ..self })
                && (next.list_edit_state matches Some(ns) && ns.editing_item is None && !ns.adding_new
                && ns.selected_index == st.selected_index),
            KeyCode::Enter => {
                let is_list = f.value is List;
                let items = f.value->List_0;
                let check: Seq<SettingsRequest> = if f.key == FieldKey::Environment {
                    seq![SettingsRequest::CheckEnvEntry(next.requests@[self.requests@.len() as int]->CheckEnvEntry_0)]
                } else {
                    seq![]
                };
                &&& (next.list_edit_state matches Some(ns) && ns.editing_item is None && !ns.adding_new
                    && ns.selected_index == if text.len() > 0 && is_list && st.adding_new {
                    items@.len() as usize
                } else {
                    st.selected_index
                })
                &&& if text.len() == 0 {
                    next == (SettingsView { list_edit_state: next.list_edit_state, ..self })
                } else {
                    &&& self.queued(
                        next,
                        SettingsView {
                            fields: next.fields,
                            list_edit_state: next.list_edit_state,
                            ..self
                        },
                        check + seq![SettingsRequest::ApplyField(self.selected_field)],
                    )
                    &&& (f.key == FieldKey::Environment ==> (next.requests@[self.requests@.len() as int] matches SettingsRequest::CheckEnvEntry(t) && t@ == text))
                    &&& if is_list && (st.adding_new || st.selected_index < items@.len()) {
                        SettingsView::only_value_changed(self.fields@, next.fields@, sel)
                            && (next.fields@[sel].value matches FieldValue::List(ni) && string_seq(ni@)
                            == if st.adding_new {
                            string_seq(items@).push(text)
                        } else {
                            string_seq(items@).update(st.selected_index as int, text)
                        })
                    } else {
                        next.fields == self.fields
                    }
                }
            },
            _ => next == (SettingsView { list_edit_state: next.list_edit_state, ..self })
                && (next.list_edit_state matches Some(ns) && ns.selected_index == st.selected_index
                && ns.adding_new == st.adding_new && (ns.editing_item matches Some(i) && key_edits(text,
                input.cursor_pos(), key, i.text(), i.cursor_pos()))),
        }
    }

    /// The effect of a key while the instruction editor is open: the
    /// editor handles it; a saved value goes into the selected field (an
    /// optional text) and is applied; saving or cancelling closes the
    /// editor.
    pub open spec fn dialog_step(self, next: Self, key: KeyEvent, r: SettingsAction) -> bool {
        let d = self.custom_instruction_dialog->0;
        let sel = self.selected_field as int;
        &&& r is Continue
        &&& exists|d2: CustomInstructionDialog, rd: DialogResult<Option<String>>|
            d.key_step(d2, key, rd) && match rd {
                DialogResult::Continue => next == (SettingsView {
                    custom_instruction_dialog: Some(d2),
                    ..self
                }),
                DialogResult::Cancel => next == (SettingsView { custom_instruction_dialog: None, ..self }),
                DialogResult::Submit(v) => {
                    &&& self.queued(
                        next,
                        SettingsView {
                            fields: next.fields,
                            custom_instruction_dialog: None,
                            ..self
                        },
                        seq![SettingsRequest::ApplyField(self.selected_field)],
                    )
                    &&& if self.fields@[sel].value is OptionalText {
                        SettingsView::only_value_changed(self.fields@, next.fields@, sel)
                            && next.fields@[sel].value == FieldValue::OptionalText(v)
                    } else {
                        next.fields == self.fields
                    }
                },
            }
    }

    /// The effect of a key, after the success message is cleared: the
    /// open editor, help, text edit or list edit takes it, else the
    /// normal mode does.
    pub open spec fn key_step(self, next: Self, key: KeyEvent, r: SettingsAction) -> bool {
        let s = SettingsView { success_message: None, ..self };
        if s.custom_instruction_dialog is Some {
            s.dialog_step(next, key, r)
        } else if s.show_help {
            r is Continue && next == if key.code == KeyCode::Esc || key.code == KeyCode::Char('?')
                || key.code == KeyCode::Char('q') {
                SettingsView { show_help: false, ..s }
            } else {
                s
            }
        } else if s.editing_input is Some {
            s.text_edit_step(next, key, r)
        } else if s.list_edit_state is Some {
            r is Continue && if s.list_edit_state->0.editing_item is Some {
                s.list_item_step(next, key)
            } else {
                s.list_edit_step(next, key)
            }
        } else {
            s.normal_step(next, key, r)
        }
    }

    fn set_value(&mut self, i: usize, value: FieldValue)
        requires
            i < old(self).fields@.len(),
        ensures
            final(self).fields@ == old(self).fields@.update(
                i as int,
                SettingField {
                    key: old(self).fields@[i as int].key,
                    value,
                    has_override: old(self).fields@[i as int].has_override,
                },
            ),
            *final(self) == (SettingsView { fields: final(self).fields, ..*old(self) }),
    {
        let key = self.fields[i].key;
        let has_override = self.fields[i].has_override;
        self.fields.set(i, SettingField { key, value, has_override });
    }

    /// Handles one key press.
    pub fn handle_key(&mut self, key: KeyEvent) -> (r: SettingsAction)
        requires
            old(self).wf(),
        ensures
            old(self).key_step(*final(self), key, r),
            final(self).wf(),
    {
        self.success_message = None;
        if self.custom_instruction_dialog.is_some() {
            return self.handle_dialog_key(key);
        }
        if self.show_help {
            match key.code {
                KeyCode::Esc | KeyCode::Char('?') | KeyCode::Char('q') => {
                    self.show_help = false;
                },
                _ => {},
            }
            return SettingsAction::Continue;
        }
        if self.editing_input.is_some() {
            return self.handle_text_edit_key(key);
        }
        if self.list_edit_state.is_some() {
            let editing = match &self.list_edit_state {
                Some(st) => st.editing_item.is_some(),
                None => false,
            };
            if editing {
                self.handle_list_item_edit_key(key);
            } else {
                self.handle_list_edit_key(key);
            }
            return SettingsAction::Continue;
        }
        self.handle_normal_key(key)
    }

    fn handle_dialog_key(&mut self, key: KeyEvent) -> (r: SettingsAction)
        requires
            old(self).wf(),
            old(self).custom_instruction_dialog is Some,
        ensures
            old(self).dialog_step(*final(self), key, r),
            final(self).wf(),
    {
        let mut slot: Option<CustomInstructionDialog> = None;
        std::mem::swap(&mut slot, &mut self.custom_instruction_dialog);
        let mut dialog = match slot {
            Some(d) => d,
            None => {
                return SettingsAction::Continue;
            },
        };
        let ghost d0 = dialog;
        let rd = dialog.handle_key(key);
        let ghost d2 = dialog;
        match rd {
            DialogResult::Submit(value) => {
                let ghost v = value;
                let sel = self.selected_field;
                let is_opt = match &self.fields[sel].value {
                    FieldValue::OptionalText(_) => true,
                    _ => false,
                };
                if is_opt {
                    self.set_value(sel, FieldValue::OptionalText(value));
                }
                self.queue(SettingsRequest::ApplyField(sel));
                proof {
                    assert(self.requests@ =~= old(self).requests@ + seq![SettingsRequest::ApplyField(sel)]);
                    assert(d0.key_step(d2, key, DialogResult::Submit(v)));
                }
                SettingsAction::Continue
            },
            DialogResult::Cancel => {
                proof {
                    assert(d0.key_step(d2, key, DialogResult::<Option<String>>::Cancel));
                }
                SettingsAction::Continue
            },
            DialogResult::Continue => {
                self.custom_instruction_dialog = Some(dialog);
                proof {
                    assert(d0.key_step(d2, key, DialogResult::<Option<String>>::Continue));
                }
                SettingsAction::Continue
            },
        }
    }

    fn handle_text_edit_key(&mut self, key: KeyEvent) -> (r: SettingsAction)
        requires
            old(self).wf(),
            old(self).editing_input is Some,
            old(self).custom_instruction_dialog is None,
        ensures
            old(self).text_edit_step(*final(self), key, r),
            final(self).wf(),
    {
        proof {
            reveal_strlit("Invalid number");
        }
        match key.code {
            KeyCode::Esc => {
                self.editing_input = None;
                self.error_message = None;
            },
            KeyCode::Enter => {
                let input = match self.editing_input.take() {
                    Some(i) => i,
                    None => {
                        return SettingsAction::Continue;
                    },
                };
                let text = chars_of(input.value());
                let sel = self.selected_field;
                let is_number = match &self.fields[sel].value {
                    FieldValue::Number(_) => true,
                    _ => false,
                };
                if is_number {
                    match parse_u32(&text) {
                        Some(n) => {
                            self.set_value(sel, FieldValue::Number(n));
                        },
                        None => {
                            self.error_message = Some("Invalid number".to_string());
                            self.editing_input = Some(TextInput::new(string_of(&text)));
                            return SettingsAction::Continue;
                        },
                    }
                } else {
                    let kind: u8 = match &self.fields[sel].value {
                        FieldValue::Text(_) => 1,
                        FieldValue::OptionalText(_) => 2,
                        _ => 0,
                    };
                    if kind == 1 {
                        self.set_value(sel, FieldValue::Text(string_of(&text)));
                    } else if kind == 2 {
                        if text.len() == 0 {
                            self.set_value(sel, FieldValue::OptionalText(None));
                        } else {
                            self.set_value(sel, FieldValue::OptionalText(Some(string_of(&text))));
                        }
                    }
                }
                self.queue(SettingsRequest::ValidateField(sel));
                assert(self.requests@ =~= old(self).requests@ + seq![SettingsRequest::ValidateField(sel)]);
            },
            _ => {
                let mut input = match self.editing_input.take() {
                    Some(i) => i,
                    None => {
                        return SettingsAction::Continue;
                    },
                };
                input.handle_key(key);
                self.editing_input = Some(input);
            },
        }
        SettingsAction::Continue
    }

    /// Reports the check of the field whose typed value was stored: an
    /// accepted value is applied and the error cleared; a refused value
    /// shows the error and is typed again.
    pub fn finish_validation(&mut self, result: Result<(), String>)
        requires
            old(self).wf(),
            old(self).selected_field < old(self).fields@.len(),
        ensures
            final(self).wf(),
            match result {
                Ok(()) => old(self).queued(
                    *final(self),
                    SettingsView { error_message: None, ..*old(self) },
                    seq![SettingsRequest::ApplyField(old(self).selected_field)],
                ),
                Err(e) => *final(self) == (SettingsView {
                    error_message: Some(e),
                    editing_input: final(self).editing_input,
                    ..*old(self)
                }) && match edit_text(old(self).fields@[old(self).selected_field as int].value) {
                    Some(t) => final(self).editing_input matches Some(i) && i.text() == t && i.cursor_pos()
                        == t.len(),
                    None => final(self).editing_input is None,
                },
            },
    {
        match result {
            Ok(()) => {
                let sel = self.selected_field;
                self.error_message = None;
                self.queue(SettingsRequest::ApplyField(sel));
                assert(self.requests@ =~= old(self).requests@ + seq![SettingsRequest::ApplyField(sel)]);
            },
            Err(e) => {
                let revert = match &self.fields[self.selected_field].value {
                    FieldValue::Text(v) => Some(TextInput::new(v.clone())),
                    FieldValue::OptionalText(v) => Some(
                        TextInput::new(
                            match v {
                                Some(t) => t.clone(),
                                None => String::new(),
                            },
                        ),
                    ),
                    FieldValue::Number(n) => Some(TextInput::new(string_of(&i64_to_decimal(*n as i64)))),
                    _ => None,
                };
                self.error_message = Some(e);
                self.editing_input = revert;
            },
        }
    }

    fn handle_list_edit_key(&mut self, key: KeyEvent)
        requires
            old(self).wf(),
            old(self).list_edit_state is Some,
            old(self).list_edit_state->0.editing_item is None,
            old(self).editing_input is None,
            old(self).custom_instruction_dialog is None,
        ensures
            old(self).list_edit_step(*final(self), key),
            final(self).wf(),
    {
        let mut st = match self.list_edit_state.take() {
            Some(s) => s,
            None => {
                return ;
            },
        };
        let sel = self.selected_field;
        match key.code {
            KeyCode::Esc => {
                return ;
            },
            KeyCode::Up | KeyCode::Char('k') => {
                if st.selected_index > 0 {
                    st.selected_index -= 1;
                }
            },
            KeyCode::Down | KeyCode::Char('j') => {
                let len = match &self.fields[sel].value {
                    FieldValue::List(items) => items.len(),
                    _ => 0,
                };
                if len > 0 && st.selected_index < len - 1 {
                    st.selected_index += 1;
                }
            },
            KeyCode::Char('a') => {
                st.adding_new = true;
                st.editing_item = Some(TextInput::default());
            },
            KeyCode::Char('d') => {
                let idx = st.selected_index;
                let mut new_idx = idx;
                let updated: Option<Vec<String>> = match &self.fields[sel].value {
                    FieldValue::List(items) => {
                        if idx < items.len() {
                            let mut rest = copy_strings(items);
                            rest.remove(idx);
                            proof {
                                assert(string_seq(rest@) =~= string_seq(items@).remove(idx as int));
                            }
                            if idx >= rest.len() && rest.len() > 0 {
                                new_idx = rest.len() - 1;
                            }
                            Some(rest)
                        } else {
                            None
                        }
                    },
                    _ => None,
                };
                match updated {
                    Some(rest) => {
                        self.set_value(sel, FieldValue::List(rest));
                    },
                    None => {},
                }
                st.selected_index = new_idx;
                self.queue(SettingsRequest::ApplyField(sel));
                assert(self.requests@ =~= old(self).requests@ + seq![SettingsRequest::ApplyField(sel)]);
            },
            KeyCode::Enter => {
                let item: Option<String> = match &self.fields[sel].value {
                    FieldValue::List(items) => {
                        if st.selected_index < items.len() {
                            Some(items[st.selected_index].clone())
                        } else {
                            None
                        }
                    },
                    _ => None,
                };
                match item {
                    Some(t) => {
                        st.editing_item = Some(TextInput::new(t));
                    },
                    None => {},
                }
            },
            _ => {},
        }
        self.list_edit_state = Some(st);
    }

    fn handle_list_item_edit_key(&mut self, key: KeyEvent)
        requires
            old(self).wf(),
            old(self).list_edit_state is Some,
            old(self).list_edit_state->0.editing_item is Some,
            old(self).editing_input is None,
            old(self).custom_instruction_dialog is None,
        ensures
            old(self).list_item_step(*final(self), key),
            final(self).wf(),
    {
        let mut st = match self.list_edit_state.take() {
            Some(s) => s,
            None => {
                return ;
            },
        };
        let sel = self.selected_field;
        match key.code {
            KeyCode::Esc => {
                st.editing_item = None;
                st.adding_new = false;
            },
            KeyCode::Enter => {
                let input = match st.editing_item.take() {
                    Some(i) => i,
                    None => {
                        self.list_edit_state = Some(st);
                        return ;
                    },
                };
                let adding_new = st.adding_new;
                let idx = st.selected_index;
                st.adding_new = false;
                let text = chars_of(input.value());
                if text.len() > 0 {
                    let ghost start = self.requests@;
                    if self.fields[sel].key == FieldKey::Environment {
                        self.queue(SettingsRequest::CheckEnvEntry(string_of(&text)));
                        assert(self.requests@[start.len() as int] matches SettingsRequest::CheckEnvEntry(t) && t@ == text@);
                    }
                    let ghost mid = self.requests@;
                    let updated: Option<Vec<String>> = match &self.fields[sel].value {
                        FieldValue::List(items) => {
                            if adding_new {
                                let mut v = copy_strings(items);
                                v.push(string_of(&text));
                                proof {
                                    assert(string_seq(v@) =~= string_seq(items@).push(text@));
                                }
                                st.selected_index = v.len() - 1;
                                Some(v)
                            } else if idx < items.len() {
                                let mut v = copy_strings(items);
                                v.set(idx, string_of(&text));
                                proof {
                                    assert(string_seq(v@) =~= string_seq(items@).update(idx as int, text@));
                                }
                                Some(v)
                            } else {
                                None
                            }
                        },
                        _ => None,
                    };
                    match updated {
                        Some(v) => {
                            self.set_value(sel, FieldValue::List(v));
                        },
                        None => {},
                    }
                    self.queue(SettingsRequest::ApplyField(sel));
                    proof {
                        if self.fields@[sel as int].key == FieldKey::Environment {
                            let x = self.requests@[start.len() as int];
                            assert(self.requests@ =~= start + (seq![SettingsRequest::CheckEnvEntry(x->CheckEnvEntry_0)] + seq![SettingsRequest::ApplyField(sel)]));
                        } else {
                            assert(self.requests@ =~= start + (Seq::<SettingsRequest>::empty() + seq![SettingsRequest::ApplyField(sel)]));
                        }
                    }
                }
            },
            _ => {
                let mut input = match st.editing_item.take() {
                    Some(i) => i,
                    None => {
                        self.list_edit_state = Some(st);
                        return ;
                    },
                };
                input.handle_key(key);
                st.editing_item = Some(input);
            },
        }
        self.list_edit_state = Some(st);
    }

    fn handle_normal_key(&mut self, key: KeyEvent) -> (r: SettingsAction)
        requires
            old(self).wf(),
            old(self).custom_instruction_dialog is None,
            old(self).editing_input is None,
            old(self).list_edit_state is None,
        ensures
            old(self).normal_step(*final(self), key, r),
            final(self).wf(),
    {
        let n = self.fields.len();
        let sel = self.selected_field;
        let on_field = self.focus == SettingsFocus::Fields && n > 0;
        match key.code {
            KeyCode::Char('s') if key.modifiers == KeyModifiers::CONTROL => {
                self.queue(SettingsRequest::Save);
                assert(self.requests@ =~= old(self).requests@ + seq![SettingsRequest::Save]);
                SettingsAction::Continue
            },
            KeyCode::Char('q') => self.close_action_now(),
            KeyCode::Esc => {
                if self.focus == SettingsFocus::Fields {
                    self.focus = SettingsFocus::Categories;
                    SettingsAction::Continue
                } else {
                    self.close_action_now()
                }
            },
            KeyCode::Char(']') | KeyCode::Char('[') => {
                if self.has_changes {
                    return SettingsAction::UnsavedChangesWarning;
                }
                let has_project = self.project_path.is_some();
                let forward = key.code == KeyCode::Char(']');
                self.scope = match self.scope {
                    SettingsScope::Global => if forward {
                        SettingsScope::Profile
                    } else if has_project {
                        SettingsScope::Repo
                    } else {
                        SettingsScope::Profile
                    },
                    SettingsScope::Profile => if !forward {
                        SettingsScope::Global
                    } else if has_project {
                        SettingsScope::Repo
                    } else {
                        SettingsScope::Global
                    },
                    SettingsScope::Repo => if forward {
                        SettingsScope::Global
                    } else {
                        SettingsScope::Profile
                    },
                };
                self.queue(SettingsRequest::RebuildFields);
                assert(self.requests@ =~= old(self).requests@ + seq![SettingsRequest::RebuildFields]);
                SettingsAction::Continue
            },
            KeyCode::Char('}') | KeyCode::Char('{') => {
                if self.scope == SettingsScope::Profile && self.available_profiles.len() > 0 {
                    if self.has_changes {
                        return SettingsAction::UnsavedChangesWarning;
                    }
                    let len = self.available_profiles.len();
                    let cur = self.current_profile_index();
                    let next_idx = if key.code == KeyCode::Char('}') {
                        (cur + 1) % len
                    } else if cur == 0 {
                        len - 1
                    } else {
                        cur - 1
                    };
                    let name = self.available_profiles[next_idx].clone();
                    self.queue(SettingsRequest::SwitchProfile(name));
                    assert(self.requests@.take(old(self).requests@.len() as int) =~= old(self).requests@);
                }
                SettingsAction::Continue
            },
            KeyCode::Tab | KeyCode::Right | KeyCode::Char('l') => {
                self.focus = SettingsFocus::Fields;
                SettingsAction::Continue
            },
            KeyCode::BackTab | KeyCode::Left | KeyCode::Char('h') => {
                self.focus = SettingsFocus::Categories;
                SettingsAction::Continue
            },
            KeyCode::Up | KeyCode::Char('k') => {
                if self.focus == SettingsFocus::Categories {
                    if self.selected_category > 0 {
                        self.selected_category -= 1;
                        self.queue(SettingsRequest::RebuildFields);
                        assert(self.requests@ =~= old(self).requests@ + seq![SettingsRequest::RebuildFields]);
                    }
                } else {
                    if sel > 0 {
                        self.selected_field -= 1;
                        self.queue(SettingsRequest::EnsureFieldVisible);
                        assert(self.requests@ =~= old(self).requests@ + seq![SettingsRequest::EnsureFieldVisible]);
                    }
                }
                SettingsAction::Continue
            },
            KeyCode::Down | KeyCode::Char('j') => {
                if self.focus == SettingsFocus::Categories {
                    if self.category_count > 0 && self.selected_category < self.category_count - 1 {
                        self.selected_category += 1;
                        self.queue(SettingsRequest::RebuildFields);
                        assert(self.requests@ =~= old(self).requests@ + seq![SettingsRequest::RebuildFields]);
                    }
                } else {
                    if n > 0 && sel < n - 1 {
                        self.selected_field += 1;
                        self.queue(SettingsRequest::EnsureFieldVisible);
                        assert(self.requests@ =~= old(self).requests@ + seq![SettingsRequest::EnsureFieldVisible]);
                    }
                }
                SettingsAction::Continue
            },
            KeyCode::Char(' ') => {
                if on_field {
                    let b = match &self.fields[sel].value {
                        FieldValue::Bool(b) => Some(*b),
                        _ => None,
                    };
                    match b {
                        Some(b) => {
                            self.set_value(sel, FieldValue::Bool(!b));
                            self.queue(SettingsRequest::ApplyField(sel));
                            assert(self.requests@ =~= old(self).requests@ + seq![SettingsRequest::ApplyField(sel)]);
                        },
                        None => {},
                    }
                }
                SettingsAction::Continue
            },
            KeyCode::Enter => {
                if on_field {
                    self.handle_enter_on_field()
                } else {
                    if self.focus == SettingsFocus::Categories {
                        self.focus = SettingsFocus::Fields;
                    }
                    SettingsAction::Continue
                }
            },
            KeyCode::Char('?') => {
                self.show_help = true;
                SettingsAction::Continue
            },
            KeyCode::Char('r') => {
                if (self.scope == SettingsScope::Profile || self.scope == SettingsScope::Repo) && on_field {
                    let was_theme = self.fields[sel].key == FieldKey::ThemeName;
                    let ghost before = self.requests@;
                    self.clear_profile_override(sel);
                    let ghost mid = self.requests@;
                    self.queue(SettingsRequest::RebuildFields);
                    if was_theme {
                        self.queue(SettingsRequest::PreviewThemeAfterRebuild);
                    }
                    proof {
                        let sync: Seq<SettingsRequest> = if old(self).scope == SettingsScope::Repo {
                            seq![SettingsRequest::SyncRepoConfig]
                        } else {
                            seq![]
                        };
                        let theme: Seq<SettingsRequest> = if was_theme {
                            seq![SettingsRequest::PreviewThemeAfterRebuild]
                        } else {
                            seq![]
                        };
                        assert(mid =~= before + sync);
                        assert(self.requests@ =~= before + (sync + seq![SettingsRequest::RebuildFields] + theme));
                    }
                }
                SettingsAction::Continue
            },
            _ => SettingsAction::Continue,
        }
    }

    fn close_action_now(&self) -> (r: SettingsAction)
        ensures
            r == self.close_action(),
    {
        if self.has_changes {
            SettingsAction::UnsavedChangesWarning
        } else {
            SettingsAction::Close
        }
    }

    fn current_profile_index(&self) -> (r: usize)
        ensures
            r == profile_position(string_seq(self.available_profiles@), self.profile@),
            self.available_profiles@.len() > 0 ==> r < self.available_profiles@.len(),
    {
        let ghost names = string_seq(self.available_profiles@);
        let want = chars_of(self.profile.as_str());
        let mut i: usize = 0;
        while i < self.available_profiles.len()
            invariant
                i <= self.available_profiles@.len(),
                names == string_seq(self.available_profiles@),
                want@ == self.profile@,
                forall|k: int| 0 <= k < i ==> names[k] != want@,
            decreases self.available_profiles@.len() - i,
        {
            if chars_eq(&chars_of(self.available_profiles[i].as_str()), &want) {
                proof {
                    assert(names[i as int] == want@);
                    assert(names.contains(want@));
                    lemma_first_index(names, want@, i as int);
                }
                return i;
            }
            i += 1;
        }
        proof {
            assert(!names.contains(want@));
        }
        0
    }

    fn handle_enter_on_field(&mut self) -> (r: SettingsAction)
        requires
            old(self).wf(),
            old(self).focus == SettingsFocus::Fields,
            old(self).fields@.len() > 0,
            old(self).custom_instruction_dialog is None,
            old(self).editing_input is None,
            old(self).list_edit_state is None,
        ensures
            old(self).enter_step(*final(self), r),
            final(self).wf(),
    {
        let sel = self.selected_field;
        let key = self.fields[sel].key;
        assert(select_has_options(self.fields@[sel as int].value));
        match &self.fields[sel].value {
            FieldValue::Bool(b) => {
                let nb = !*b;
                self.set_value(sel, FieldValue::Bool(nb));
                self.queue(SettingsRequest::ApplyField(sel));
                assert(self.requests@ =~= old(self).requests@ + seq![SettingsRequest::ApplyField(sel)]);
                SettingsAction::Continue
            },
            FieldValue::Text(v) => {
                self.editing_input = Some(TextInput::new(v.clone()));
                SettingsAction::Continue
            },
            FieldValue::OptionalText(v) => {
                if key == FieldKey::CustomInstruction {
                    let current = match v {
                        Some(t) => Some(t.clone()),
                        None => None,
                    };
                    self.custom_instruction_dialog = Some(CustomInstructionDialog::new(current));
                } else {
                    let t = match v {
                        Some(t) => t.clone(),
                        None => String::new(),
                    };
                    self.editing_input = Some(TextInput::new(t));
                }
                SettingsAction::Continue
            },
            FieldValue::Number(n) => {
                let t = string_of(&i64_to_decimal(*n as i64));
                self.editing_input = Some(TextInput::new(t));
                SettingsAction::Continue
            },
            FieldValue::Select { selected, options } => {
                assert(*selected < options.len());
                let ns = (*selected + 1) % options.len();
                let opts = copy_strings(options);
                assert(string_seq(opts@)[ns as int] == string_seq(options@)[ns as int]);
                let preview = if key == FieldKey::ThemeName && ns < opts.len() {
                    Some(opts[ns].clone())
                } else {
                    None
                };
                self.set_value(sel, FieldValue::Select { selected: ns, options: opts });
                self.queue(SettingsRequest::ApplyField(sel));
                assert(self.requests@ =~= old(self).requests@ + seq![SettingsRequest::ApplyField(sel)]);
                match preview {
                    Some(name) => SettingsAction::PreviewTheme(name),
                    None => SettingsAction::Continue,
                }
            },
            FieldValue::List(_) => {
                self.list_edit_state = Some(ListEditState::default());
                SettingsAction::Continue
            },
        }
    }

    fn queue(&mut self, req: SettingsRequest)
        ensures
            final(self).requests@ == old(self).requests@.push(req),
            *final(self) == (SettingsView { requests: final(self).requests, ..*old(self) }),
    {
        self.requests.push(req);
    }

    /// Clears the override of field `field_index` in the configuration of
    /// the current scope (the repository's in the repository scope, else
    /// the profile's) and marks the view changed; in the repository scope
    /// the caller then derives the repository configuration again.
    pub fn clear_profile_override(&mut self, field_index: usize)
        ensures
            field_index >= old(self).fields@.len() ==> *final(self) == *old(self),
            field_index < old(self).fields@.len() ==> ({
                let key = old(self).fields@[field_index as int].key;
                let repo = old(self).scope == SettingsScope::Repo;
                old(self).queued(
                    *final(self),
                    if repo {
                        SettingsView {
                            repo_as_profile: cleared(old(self).repo_as_profile, key),
                            has_changes: true,
                            ..*old(self)
                        }
                    } else {
                        SettingsView {
                            profile_config: cleared(old(self).profile_config, key),
                            has_changes: true,
                            ..*old(self)
                        }
                    },
                    if repo {
                        seq![SettingsRequest::SyncRepoConfig]
                    } else {
                        seq![]
                    },
                )
            }),
    {
        if field_index >= self.fields.len() {
            return ;
        }
        let key = self.fields[field_index].key;
        if self.scope == SettingsScope::Repo {
            clear_override(&mut self.repo_as_profile, key);
            self.queue(SettingsRequest::SyncRepoConfig);
            assert(self.requests@ =~= old(self).requests@ + seq![SettingsRequest::SyncRepoConfig]);
        } else {
            clear_override(&mut self.profile_config, key);
            assert(self.requests@ =~= old(self).requests@ + seq![]);
        }
        self.has_changes = true;
    }

    /// Forgets unsaved changes so that the view can close.
    pub fn force_close(&mut self)
        ensures
            *final(self) == (SettingsView { has_changes: false, ..*old(self) }),
    {
        self.has_changes = false;
    }

    /// Takes freshly loaded overrides for the profile and the repository
    /// in place of the edited ones: no changes remain and the caller
    /// rebuilds the fields.
    pub fn discard_changes(&mut self, profile_config: ProfileConfig, repo_as_profile: ProfileConfig)
        ensures
            old(self).queued(
                *final(self),
                SettingsView { profile_config, repo_as_profile, has_changes: false, ..*old(self) },
                seq![SettingsRequest::RebuildFields],
            ),
    {
        self.profile_config = profile_config;
        self.repo_as_profile = repo_as_profile;
        self.has_changes = false;
        self.queue(SettingsRequest::RebuildFields);
        assert(self.requests@ =~= old(self).requests@ + seq![SettingsRequest::RebuildFields]);
    }

    /// Reports the outcome of saving.
    pub fn record_save_result(&mut self, result: Result<(), String>)
        ensures
            match result {
                Ok(()) => *final(self) == *old(self),
                Err(e) => final(self).error_message matches Some(m) && m@ == "Failed to save: "@ + e@
                    && *final(self) == (SettingsView {
                    error_message: final(self).error_message,
                    ..*old(self)
                }),
            },
    {
        proof {
            reveal_strlit("Failed to save: ");
        }
        if let Err(e) = result {
            let mut m = chars_of("Failed to save: ");
            crate::text::extend_chars(&mut m, &chars_of(e.as_str()));
            self.error_message = Some(string_of(&m));
        }
    }

    /// Reports the outcome of switching profile.
    pub fn record_switch_result(&mut self, result: Result<(), String>)
        ensures
            match result {
                Ok(()) => *final(self) == *old(self),
                Err(e) => final(self).error_message matches Some(m) && m@ == "Failed to load profile: "@
                    + e@ && *final(self) == (SettingsView {
                    error_message: final(self).error_message,
                    ..*old(self)
                }),
            },
    {
        proof {
            reveal_strlit("Failed to load profile: ");
        }
        if let Err(e) = result {
            let mut m = chars_of("Failed to load profile: ");
            crate::text::extend_chars(&mut m, &chars_of(e.as_str()));
            self.error_message = Some(string_of(&m));
        }
    }

    /// Sets the error message.
    pub fn set_error(&mut self, error: Option<String>)
        ensures
            *final(self) == (SettingsView { error_message: error, ..*old(self) }),
    {
        self.error_message = error;
    }

    /// The theme name the theme field shows, if there is such a field
    /// with a valid choice.
    pub fn theme_preview(&self) -> (r: Option<String>)
        ensures
            match r {
                Some(name) => exists|i: int|
                    0 <= i < self.fields@.len() && (#[trigger] self.fields@[i]).key == FieldKey::ThemeName
                        && (forall|k: int| 0 <= k < i ==> self.fields@[k].key != FieldKey::ThemeName)
                        && (self.fields@[i].value matches FieldValue::Select { selected, options }
                        && selected < options@.len() && name@ == options@[selected as int]@),
                None => forall|i: int|
                    0 <= i < self.fields@.len() && (#[trigger] self.fields@[i]).key == FieldKey::ThemeName
                        && (forall|k: int| 0 <= k < i ==> self.fields@[k].key != FieldKey::ThemeName)
                        ==> !(self.fields@[i].value matches FieldValue::Select { selected, options }
                        && selected < options@.len()),
            },
    {
        let mut i: usize = 0;
        while i < self.fields.len()
            invariant
                i <= self.fields@.len(),
                forall|k: int| 0 <= k < i ==> self.fields@[k].key != FieldKey::ThemeName,
            decreases self.fields@.len() - i,
        {
            if self.fields[i].key == FieldKey::ThemeName {
                match &self.fields[i].value {
                    FieldValue::Select { selected, options } => {
                        if *selected < options.len() {
                            return Some(options[*selected].clone());
                        }
                    },
                    _ => {},
                }
                return None;
            }
            i += 1;
        }
        None
    }
}

/// The character view of key hints.
pub open spec fn hint_views(hs: Seq<(&str, &str)>) -> Seq<(Seq<char>, Seq<char>)> {
    hs.map_values(|h: (&str, &str)| (h.0@, h.1@))
}

impl SettingsView {
    /// Whether the selected field was marked as overridden when the field
    /// list was built for the scope shown.
    pub open spec fn selected_overridden(self) -> bool {
        self.fields@[self.selected_field as int].has_override
    }

    /// The key hints of the footer, each a key and what it does: those of
    /// the instruction editor, of typing a value or of editing a list
    /// while one is open; otherwise moving about (with `r` to reset where
    /// the selected field is overridden in the scope shown), switching
    /// scope, switching profile (in the profile scope with another profile
    /// to go to), saving, help and closing.
    pub open spec fn footer(self) -> Seq<(Seq<char>, Seq<char>)> {
        if self.custom_instruction_dialog is Some {
            seq![("Tab"@, ": focus  "@), ("Enter"@, ": confirm  "@), ("Esc"@, ": cancel"@)]
        } else if self.editing_input is Some {
            seq![("Enter"@, ": confirm  "@), ("Esc"@, ": cancel"@)]
        } else if self.list_edit_state is Some {
            seq![("a"@, ": add  "@), ("d"@, ": delete  "@), ("Enter"@, ": edit  "@), ("Esc"@, ": close list"@)]
        } else {
            let nav = match self.focus {
                SettingsFocus::Categories => seq![("j/k"@, ": nav  "@), ("Enter/Tab"@, ": fields  "@)],
                SettingsFocus::Fields => seq![("j/k"@, ": nav  "@), ("Enter"@, ": edit  "@), ("Space"@, ": toggle  "@)]
                    + (if self.scope != SettingsScope::Global && self.fields@.len() > 0 && self.selected_overridden() {
                    seq![("r"@, ": reset  "@)]
                } else {
                    Seq::empty()
                }),
            };
            nav + seq![("[]"@, ": scope  "@)] + (if self.scope == SettingsScope::Profile && self.available_profiles@.len() > 1 {
                seq![("{}"@, ": profile  "@)]
            } else {
                Seq::empty()
            }) + seq![("Ctrl+s"@, ": save  "@), ("?"@, ": help  "@), ("q"@, ": close"@)]
        }
    }

    /// The key hints of the footer.
    pub fn footer_hints(&self) -> (r: Vec<(&'static str, &'static str)>)
        requires
            self.fields@.len() > 0 ==> self.selected_field < self.fields@.len(),
        ensures
            hint_views(r@) == self.footer(),
    {
        let mut hs: Vec<(&'static str, &'static str)> = Vec::new();
        if self.custom_instruction_dialog.is_some() {
            hs.push(("Tab", ": focus  "));
            hs.push(("Enter", ": confirm  "));
            hs.push(("Esc", ": cancel"));
        } else if self.editing_input.is_some() {
            hs.push(("Enter", ": confirm  "));
            hs.push(("Esc", ": cancel"));
        } else if self.list_edit_state.is_some() {
            hs.push(("a", ": add  "));
            hs.push(("d", ": delete  "));
            hs.push(("Enter", ": edit  "));
            hs.push(("Esc", ": close list"));
        } else {
            match self.focus {
                SettingsFocus::Categories => {
                    hs.push(("j/k", ": nav  "));
                    hs.push(("Enter/Tab", ": fields  "));
                },
                SettingsFocus::Fields => {
                    hs.push(("j/k", ": nav  "));
                    hs.push(("Enter", ": edit  "));
                    hs.push(("Space", ": toggle  "));
                    let overridden = if self.fields.len() == 0 {
                        false
                    } else {
                        self.fields[self.selected_field].has_override
                    };
                    if self.scope != SettingsScope::Global && self.fields.len() > 0 && overridden {
                        hs.push(("r", ": reset  "));
                    }
                },
            }
            hs.push(("[]", ": scope  "));
            if self.scope == SettingsScope::Profile && self.available_profiles.len() > 1 {
                hs.push(("{}", ": profile  "));
            }
            hs.push(("Ctrl+s", ": save  "));
            hs.push(("?", ": help  "));
            hs.push(("q", ": close"));
        }
        assert(hint_views(hs@) =~= self.footer());
        hs
    }
}

// ----------------------------------------------------------------------
// Where the fields are drawn
// ----------------------------------------------------------------------

impl SettingsView {
    /// The rows field `i` takes: label, description and value; a list
    /// being edited takes its header, one row per item and the row for a
    /// new item instead of the value (the item count kept to 16 bits).
    pub open spec fn field_rows(self, i: int) -> nat {
        match self.fields@[i].value {
            FieldValue::List(items) => if self.list_edit_state is Some && i == self.selected_field {
                4 + (items@.len() as u16) as nat
            } else {
                3
            },
            _ => 3,
        }
    }

    /// The rows field `index` takes.
    pub fn field_height(&self, index: usize) -> (r: u16)
        requires
            index < self.fields@.len(),
            self.field_rows(index as int) <= u16::MAX,
        ensures
            r == self.field_rows(index as int),
    {
        match &self.fields[index].value {
            FieldValue::List(items) => {
                if self.list_edit_state.is_some() && index == self.selected_field {
                    let n = items.len() as u16;
                    1 + 1 + 1 + n + 1
                } else {
                    3
                }
            },
            _ => 3,
        }
    }
}

/// Where a field is drawn in the viewport: its index, its first row and
/// how many of its rows are shown.
#[derive(PartialEq, Eq, Structural, Clone, Copy, Debug)]
pub struct FieldSlot {
    pub index: usize,
    pub y: u16,
    pub height: u16,
}

/// The sum of `hs`.
pub open spec fn sum_heights(hs: Seq<u16>) -> nat
    decreases hs.len(),
{
    if hs.len() == 0 {
        0
    } else {
        sum_heights(hs.drop_last()) + hs.last() as nat
    }
}

/// The height of fields `hs` stacked with one blank row between them.
pub open spec fn content_height(hs: Seq<u16>) -> nat {
    if hs.len() == 0 {
        0
    } else {
        (sum_heights(hs) + hs.len() - 1) as nat
    }
}

/// `a - b`, or 0 where `b` is larger.
pub open spec fn nat_sub(a: nat, b: nat) -> nat {
    if a >= b {
        (a - b) as nat
    } else {
        0
    }
}

/// The slots of fields `i` on, the first of them starting at row `y` of
/// the content, in a viewport of `viewport` rows scrolled down `scroll`
/// rows: fields ending above the viewport are skipped, the walk stops at
/// the first field starting below it, and each other field is shown from
/// its row in the viewport for as many rows as fit.
pub open spec fn slots_from(hs: Seq<u16>, i: nat, y: nat, scroll: nat, viewport: nat) -> Seq<(nat, nat, nat)>
    decreases hs.len() - i,
{
    if i >= hs.len() {
        Seq::empty()
    } else {
        let h = hs[i as int] as nat;
        if y + h <= scroll {
            slots_from(hs, i + 1, y + h + 1, scroll, viewport)
        } else if y >= scroll + viewport {
            Seq::empty()
        } else {
            let vy = nat_sub(y, scroll);
            let shown = if h <= nat_sub(viewport, vy) {
                h
            } else {
                nat_sub(viewport, vy)
            };
            seq![(i, vy, shown)] + slots_from(hs, i + 1, y + h + 1, scroll, viewport)
        }
    }
}

/// The character-free view of slots.
pub open spec fn slot_views(ss: Seq<FieldSlot>) -> Seq<(nat, nat, nat)> {
    ss.map_values(|s: FieldSlot| (s.index as nat, s.y as nat, s.height as nat))
}

proof fn lemma_sum_heights_push(hs: Seq<u16>, k: int)
    requires
        0 <= k < hs.len(),
    ensures
        sum_heights(hs.take(k + 1)) == sum_heights(hs.take(k)) + hs[k] as nat,
{
    assert(hs.take(k + 1).drop_last() =~= hs.take(k));
}

impl SettingsView {
    /// Whether the view is well formed (`wf`): the selection points at a
    /// field, an edit in progress is on an existing field, and every
    /// choice field has its chosen option.
    pub fn is_well_formed(&self) -> (r: bool)
        ensures
            r == self.wf(),
    {
        let n = self.fields.len();
        if n == 0 && self.selected_field != 0 {
            return false;
        }
        if n > 0 && self.selected_field >= n {
            return false;
        }
        if (self.editing_input.is_some() || self.list_edit_state.is_some() || self.custom_instruction_dialog.is_some())
            && self.selected_field >= n {
            return false;
        }
        let mut i: usize = 0;
        while i < n
            invariant
                i <= n,
                n == self.fields@.len(),
                forall|j: int| 0 <= j < i ==> select_has_options(#[trigger] self.fields@[j].value),
            decreases n - i,
        {
            let ok = match &self.fields[i].value {
                FieldValue::Select { selected, options } => *selected < options.len(),
                _ => true,
            };
            if !ok {
                assert(!select_has_options(self.fields@[i as int].value));
                return false;
            }
            i += 1;
        }
        true
    }
}

/// Rows left for the fields inside the settings panel: its inner height
/// less two rows for a message and three for the warning that sounds do
/// not play over SSH, never below zero.
pub open spec fn viewport_rows(inner_height: nat, has_message: bool, sound_warning: bool) -> nat {
    nat_sub(
        nat_sub(
            inner_height,
            if has_message {
                2
            } else {
                0
            },
        ),
        if sound_warning {
            3
        } else {
            0
        },
    )
}

/// The rows left for the fields in a panel `inner_height` rows high.
pub fn fields_viewport_height(inner_height: u16, has_message: bool, sound_warning: bool) -> (r: u16)
    ensures
        r as nat == viewport_rows(inner_height as nat, has_message, sound_warning),
{
    let message_height: u16 = if has_message {
        2
    } else {
        0
    };
    let warning_height: u16 = if sound_warning {
        3
    } else {
        0
    };
    let a = if inner_height >= message_height {
        inner_height - message_height
    } else {
        0
    };
    if a >= warning_height {
        a - warning_height
    } else {
        0
    }
}

impl SettingsView {
    /// The rows left for the fields of this view in a panel `inner_height`
    /// rows high: a pending error or success message takes two rows; the
    /// SSH warning (`sound_warning`: the Sound category is shown in an SSH
    /// session) takes three.
    pub fn fields_viewport(&self, inner_height: u16, sound_warning: bool) -> (r: u16)
        ensures
            r as nat == viewport_rows(
                inner_height as nat,
                self.error_message is Some || self.success_message is Some,
                sound_warning,
            ),
    {
        fields_viewport_height(
            inner_height,
            self.error_message.is_some() || self.success_message.is_some(),
            sound_warning,
        )
    }
}

/// Lays out fields of the given heights: the height of all of them with
/// blank rows between, and the slots of those drawn in a viewport of
/// `viewport` rows scrolled down `scroll` rows. The stacked height must
/// fit in 16 bits.
pub fn field_layout(heights: &Vec<u16>, scroll: u16, viewport: u16) -> (r: (u16, Vec<FieldSlot>))
    requires
        content_height(heights@) <= u16::MAX,
    ensures
        r.0 == content_height(heights@),
        slot_views(r.1@) == slots_from(heights@, 0, 0, scroll as nat, viewport as nat),
{
    let ghost hs = heights@;
    let mut total: u16 = 0;
    let mut i: usize = 0;
    while i < heights.len()
        invariant
            i <= hs.len(),
            hs == heights@,
            content_height(hs) <= u16::MAX,
            total == content_height(hs.take(i as int)),
            sum_heights(hs.take(i as int)) <= sum_heights(hs),
        decreases hs.len() - i,
    {
        proof {
            lemma_sum_heights_push(hs, i as int);
            lemma_sum_prefix_le(hs, i as int + 1);
        }
        if i > 0 {
            total = total + 1;
        }
        total = total + heights[i];
        i += 1;
    }
    assert(hs.take(hs.len() as int) =~= hs);
    let mut slots: Vec<FieldSlot> = Vec::new();
    let mut y: u32 = 0;
    let mut j: usize = 0;
    let mut done = false;
    let end: u32 = scroll as u32 + viewport as u32;
    while j < heights.len() && !done
        invariant
            j <= hs.len(),
            hs == heights@,
            end == scroll + viewport,
            y == sum_heights(hs.take(j as int)) + j,
            sum_heights(hs.take(j as int)) <= sum_heights(hs),
            content_height(hs) <= u16::MAX,
            done ==> slots_from(hs, j as nat, y as nat, scroll as nat, viewport as nat) == Seq::<(nat, nat, nat)>::empty(),
            slot_views(slots@) + slots_from(hs, j as nat, y as nat, scroll as nat, viewport as nat) == slots_from(
                hs,
                0,
                0,
                scroll as nat,
                viewport as nat,
            ),
        decreases hs.len() - j, (if done { 0int } else { 1int }),
    {
        proof {
            lemma_sum_heights_push(hs, j as int);
            lemma_sum_prefix_le(hs, j as int + 1);
        }
        let h = heights[j] as u32;
        if y + h <= scroll as u32 {
            y = y + h + 1;
            j += 1;
        } else if y >= end {
            done = true;
        } else {
            let vy: u32 = if y >= scroll as u32 {
                y - scroll as u32
            } else {
                0
            };
            let room: u32 = if viewport as u32 >= vy {
                viewport as u32 - vy
            } else {
                0
            };
            let shown: u32 = if h <= room {
                h
            } else {
                room
            };
            let ghost before = slot_views(slots@);
            slots.push(FieldSlot { index: j, y: vy as u16, height: shown as u16 });
            assert(slot_views(slots@) =~= before.push((j as nat, vy as nat, shown as nat)));
            assert(slots_from(hs, j as nat, y as nat, scroll as nat, viewport as nat) =~= seq![
                (j as nat, vy as nat, shown as nat),
            ] + slots_from(hs, j as nat + 1, (y + h + 1) as nat, scroll as nat, viewport as nat));
            y = y + h + 1;
            j += 1;
        }
    }
    assert(slots_from(hs, j as nat, y as nat, scroll as nat, viewport as nat) =~= Seq::<(nat, nat, nat)>::empty());
    assert(slot_views(slots@) =~= slot_views(slots@) + Seq::<(nat, nat, nat)>::empty());
    (total, slots)
}

proof fn lemma_sum_prefix_le(hs: Seq<u16>, k: int)
    requires
        0 <= k <= hs.len(),
    ensures
        sum_heights(hs.take(k)) <= sum_heights(hs),
    decreases hs.len() - k,
{
    if k < hs.len() {
        lemma_sum_heights_push(hs, k);
        lemma_sum_prefix_le(hs, k + 1);
    } else {
        assert(hs.take(k) =~= hs);
    }
}

/// Every drawn field stays within the viewport: it starts inside it and
/// its shown rows end by its last row.
pub proof fn drawn_fields_stay_in_viewport(hs: Seq<u16>, i: nat, y: nat, scroll: nat, viewport: nat)
    ensures
        forall|k: int|
            0 <= k < slots_from(hs, i, y, scroll, viewport).len() ==> {
                let s = #[trigger] slots_from(hs, i, y, scroll, viewport)[k];
                s.1 + s.2 <= viewport
            },
    decreases hs.len() - i,
{
    if i < hs.len() {
        let h = hs[i as int] as nat;
        drawn_fields_stay_in_viewport(hs, i + 1, y + h + 1, scroll, viewport);
        let rest = slots_from(hs, i + 1, y + h + 1, scroll, viewport);
        if y + h <= scroll {
            assert(slots_from(hs, i, y, scroll, viewport) == rest);
            assert forall|k: int| 0 <= k < rest.len() implies #[trigger] rest[k].1 + rest[k].2 <= viewport by {
            }
        } else if !(y >= scroll + viewport) {
            let vy = nat_sub(y, scroll);
            assert(vy <= viewport);
            let all = slots_from(hs, i, y, scroll, viewport);
            let rest = slots_from(hs, i + 1, y + h + 1, scroll, viewport);
            assert forall|k: int| 0 <= k < all.len() implies #[trigger] all[k].1 + all[k].2 <= viewport by {
                if k > 0 {
                    assert(all[k] == rest[k - 1]);
                }
            }
        }
    }
}

} // verus!
