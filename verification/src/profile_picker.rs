//! The profile picker: a list of profiles to switch to, a name prompt to
//! create one, and a confirmation before one is deleted.

use crate::dialogs::DialogResult;
use crate::keys::{KeyCode, KeyEvent};
use crate::text::{chars_of, contains_char, extend_chars, string_of, trim, trim_spec};
use crate::text_input::TextInput;
use vstd::prelude::*;

verus! {

broadcast use vstd::string::group_string_axioms;

/// What the picker asks of its caller when it closes with a result.
pub enum ProfilePickerAction {
    Switch(String),
    Created(String),
    Deleted(String),
}

/// The picker's sub-mode.
#[derive(PartialEq, Eq, Structural, Clone, Copy, Debug)]
pub enum Mode {
    /// Browsing the profile list.
    List,
    /// Typing a name for a new profile.
    CreateInput,
    /// Confirming deletion of the selected profile.
    ConfirmDelete,
}

/// One profile in the list.
pub struct ProfileEntry {
    pub name: String,
    pub session_count: usize,
    pub is_active: bool,
}

pub struct ProfilePickerDialog {
    pub mode: Mode,
    pub profiles: Vec<ProfileEntry>,
    pub selected: usize,
    /// The name typed for a new profile.
    pub name_input: TextInput,
    /// The message shown when a typed name is refused.
    pub error: Option<String>,
    /// In the delete confirmation: true when "Yes" is highlighted.
    pub confirm_selected: bool,
}

/// The names of the profiles.
pub open spec fn profile_names(profiles: Seq<ProfileEntry>) -> Seq<Seq<char>> {
    profiles.map_values(|p: ProfileEntry| p.name@)
}

/// Why `name` cannot be the name of a new profile, if it cannot.
pub open spec fn name_error(profiles: Seq<ProfileEntry>, name: Seq<char>) -> Option<Seq<char>> {
    if name.len() == 0 {
        Some("Profile name cannot be empty"@)
    } else if name.contains('/') || name.contains('\\') {
        Some("Profile name cannot contain path separators"@)
    } else if profile_names(profiles).contains(name) {
        Some("Profile '"@ + name + "' already exists"@)
    } else {
        None
    }
}

/// `i` is the index of the first profile named `name`, or 0 where no
/// profile has that name.
pub open spec fn first_named(profiles: Seq<ProfileEntry>, name: Seq<char>, i: nat) -> bool {
    if profile_names(profiles).contains(name) {
        i < profiles.len() && profiles[i as int].name@ == name && forall|k: int|
            0 <= k < i ==> profiles[k].name@ != name
    } else {
        i == 0
    }
}

impl ProfilePickerDialog {
    /// The selected profile may be deleted: it exists, is not the active
    /// profile and is not the default profile.
    pub open spec fn deletable(self) -> bool {
        &&& self.selected < self.profiles@.len()
        &&& !self.profiles@[self.selected as int].is_active
        &&& self.profiles@[self.selected as int].name@ != "default"@
    }

    /// The effect of a key while browsing the list.
    pub open spec fn list_step(self, next: Self, key: KeyEvent, r: DialogResult<ProfilePickerAction>) -> bool {
        let n = self.profiles@.len();
        let sel = self.selected;
        match key.code {
            KeyCode::Esc => r is Cancel && next == self,
            KeyCode::Up | KeyCode::Char('k') => r is Continue && next == (ProfilePickerDialog {
                selected: if sel > 0 {
                    (sel - 1) as usize
                } else {
                    sel
                },
                ..self
            }),
            KeyCode::Down | KeyCode::Char('j') => r is Continue && next == (ProfilePickerDialog {
                selected: if n > 0 && sel < n - 1 {
                    (sel + 1) as usize
                } else {
                    sel
                },
                ..self
            }),
            KeyCode::Enter => next == self && if sel < n && !self.profiles@[sel as int].is_active {
                r matches DialogResult::Submit(ProfilePickerAction::Switch(s)) && s@
                    == self.profiles@[sel as int].name@
            } else {
                r is Cancel
            },
            KeyCode::Char('n') => r is Continue && next.mode == Mode::CreateInput
                && next.name_input.text().len() == 0 && next.name_input.cursor_pos() == 0
                && next.error is None && next.profiles == self.profiles && next.selected == sel
                && next.confirm_selected == self.confirm_selected,
            KeyCode::Char('d') => r is Continue && next == if self.deletable() {
                ProfilePickerDialog { mode: Mode::ConfirmDelete, confirm_selected: false, ..self }
            } else {
                self
            },
            _ => r is Continue && next == self,
        }
    }

    /// The effect of a key while typing a new name.
    pub open spec fn create_step(self, next: Self, key: KeyEvent, r: DialogResult<ProfilePickerAction>) -> bool {
        let name = trim_spec(self.name_input.text());
        match key.code {
            KeyCode::Esc => r is Continue && next.mode == Mode::List && next.error is None
                && next.name_input == self.name_input && next.profiles == self.profiles
                && next.selected == self.selected && next.confirm_selected == self.confirm_selected,
            KeyCode::Enter => match name_error(self.profiles@, name) {
                Some(e) => {
                    &&& r is Continue
                    &&& (next.error matches Some(m) && m@ == e)
                    &&& next.mode == self.mode
                    &&& next.name_input == self.name_input
                    &&& next.profiles == self.profiles
                    &&& next.selected == self.selected
                    &&& next.confirm_selected == self.confirm_selected
                },
                None => r matches DialogResult::Submit(ProfilePickerAction::Created(s)) && s@ == name
                    && next == self,
            },
            _ => r is Continue && crate::text_input::key_edits(
                self.name_input.text(),
                self.name_input.cursor_pos(),
                key,
                next.name_input.text(),
                next.name_input.cursor_pos(),
            ) && next.error is None && next.mode == self.mode && next.profiles == self.profiles
                && next.selected == self.selected && next.confirm_selected == self.confirm_selected,
        }
    }

    /// The effect of a key while confirming a deletion.
    pub open spec fn confirm_step(self, next: Self, key: KeyEvent, r: DialogResult<ProfilePickerAction>) -> bool {
        let sel = self.selected;
        let exists = sel < self.profiles@.len();
        let back = ProfilePickerDialog { mode: Mode::List, ..self };
        match key.code {
            KeyCode::Esc | KeyCode::Char('n') | KeyCode::Char('N') => r is Continue && next == back,
            KeyCode::Char('y') | KeyCode::Char('Y') => if exists {
                r matches DialogResult::Submit(ProfilePickerAction::Deleted(s)) && s@
                    == self.profiles@[sel as int].name@ && next == self
            } else {
                r is Continue && next == back
            },
            KeyCode::Enter => if exists && self.confirm_selected {
                r matches DialogResult::Submit(ProfilePickerAction::Deleted(s)) && s@
                    == self.profiles@[sel as int].name@ && next == self
            } else {
                r is Continue && next == back
            },
            KeyCode::Left | KeyCode::Char('h') => r is Continue && next == (ProfilePickerDialog {
                confirm_selected: true,
                ..self
            }),
            KeyCode::Right | KeyCode::Char('l') => r is Continue && next == (ProfilePickerDialog {
                confirm_selected: false,
                ..self
            }),
            KeyCode::Tab => r is Continue && next == (ProfilePickerDialog {
                confirm_selected: !self.confirm_selected,
                ..self
            }),
            _ => r is Continue && next == self,
        }
    }

    /// A picker over `profiles` in the list mode, with the profile named
    /// `active_profile` selected (the first one where none is).
    pub fn new(profiles: Vec<ProfileEntry>, active_profile: &str) -> (r: ProfilePickerDialog)
        ensures
            r.mode == Mode::List,
            r.profiles == profiles,
            first_named(profiles@, active_profile@, r.selected as nat),
            r.name_input.text().len() == 0,
            r.error is None,
            !r.confirm_selected,
    {
        let ghost names = profile_names(profiles@);
        let want = chars_of(active_profile);
        let mut selected: usize = 0;
        let mut i: usize = 0;
        let mut found = false;
        while i < profiles.len()
            invariant
                i <= profiles@.len(),
                names == profile_names(profiles@),
                want@ == active_profile@,
                found ==> selected < i && names[selected as int] == want@ && forall|k: int|
                    0 <= k < selected ==> names[k] != want@,
                !found ==> selected == 0 && forall|k: int| 0 <= k < i ==> names[k] != want@,
            decreases profiles@.len() - i,
        {
            if !found && crate::text::chars_eq(&chars_of(profiles[i].name.as_str()), &want) {
                selected = i;
                found = true;
            }
            i += 1;
        }
        proof {
            if found {
                assert(names.contains(want@));
                assert forall|k: int| 0 <= k < selected implies profiles@[k].name@ != want@ by {
                    assert(names[k] != want@);
                }
            } else {
                assert(!names.contains(want@));
            }
        }
        ProfilePickerDialog {
            mode: Mode::List,
            profiles,
            selected,
            name_input: TextInput::default(),
            error: None,
            confirm_selected: false,
        }
    }

    fn can_delete_selected(&self) -> (r: bool)
        ensures
            r == self.deletable(),
    {
        proof {
            reveal_strlit("default");
        }
        if self.selected < self.profiles.len() {
            let p = &self.profiles[self.selected];
            !p.is_active && !crate::text::chars_eq(&chars_of(p.name.as_str()), &chars_of("default"))
        } else {
            false
        }
    }

    pub fn handle_key(&mut self, key: KeyEvent) -> (r: DialogResult<ProfilePickerAction>)
        ensures
            match old(self).mode {
                Mode::List => old(self).list_step(*final(self), key, r),
                Mode::CreateInput => old(self).create_step(*final(self), key, r),
                Mode::ConfirmDelete => old(self).confirm_step(*final(self), key, r),
            },
    {
        match self.mode {
            Mode::List => self.handle_list_key(key),
            Mode::CreateInput => self.handle_create_key(key),
            Mode::ConfirmDelete => self.handle_confirm_delete_key(key),
        }
    }

    fn handle_list_key(&mut self, key: KeyEvent) -> (r: DialogResult<ProfilePickerAction>)
        ensures
            old(self).list_step(*final(self), key, r),
    {
        match key.code {
            KeyCode::Esc => DialogResult::Cancel,
            KeyCode::Up | KeyCode::Char('k') => {
                if self.selected > 0 {
                    self.selected -= 1;
                }
                DialogResult::Continue
            },
            KeyCode::Down | KeyCode::Char('j') => {
                if self.profiles.len() > 0 && self.selected < self.profiles.len() - 1 {
                    self.selected += 1;
                }
                DialogResult::Continue
            },
            KeyCode::Enter => {
                if self.selected < self.profiles.len() {
                    let p = &self.profiles[self.selected];
                    if p.is_active {
                        DialogResult::Cancel
                    } else {
                        DialogResult::Submit(ProfilePickerAction::Switch(p.name.clone()))
                    }
                } else {
                    DialogResult::Cancel
                }
            },
            KeyCode::Char('n') => {
                self.mode = Mode::CreateInput;
                self.name_input = TextInput::default();
                self.error = None;
                DialogResult::Continue
            },
            KeyCode::Char('d') => {
                if self.can_delete_selected() {
                    self.mode = Mode::ConfirmDelete;
                    self.confirm_selected = false;
                }
                DialogResult::Continue
            },
            _ => DialogResult::Continue,
        }
    }

    fn handle_create_key(&mut self, key: KeyEvent) -> (r: DialogResult<ProfilePickerAction>)
        ensures
            old(self).create_step(*final(self), key, r),
    {
        match key.code {
            KeyCode::Esc => {
                self.mode = Mode::List;
                self.error = None;
                DialogResult::Continue
            },
            KeyCode::Enter => {
                let name = trim(&chars_of(self.name_input.value()));
                match self.validate_name(&name) {
                    Some(err) => {
                        self.error = Some(err);
                        DialogResult::Continue
                    },
                    None => DialogResult::Submit(ProfilePickerAction::Created(string_of(&name))),
                }
            },
            _ => {
                self.name_input.handle_key(key);
                self.error = None;
                DialogResult::Continue
            },
        }
    }

    fn handle_confirm_delete_key(&mut self, key: KeyEvent) -> (r: DialogResult<ProfilePickerAction>)
        ensures
            old(self).confirm_step(*final(self), key, r),
    {
        match key.code {
            KeyCode::Esc | KeyCode::Char('n') | KeyCode::Char('N') => {
                self.mode = Mode::List;
                DialogResult::Continue
            },
            KeyCode::Char('y') | KeyCode::Char('Y') => {
                if self.selected < self.profiles.len() {
                    DialogResult::Submit(
                        ProfilePickerAction::Deleted(self.profiles[self.selected].name.clone()),
                    )
                } else {
                    self.mode = Mode::List;
                    DialogResult::Continue
                }
            },
            KeyCode::Enter => {
                if self.confirm_selected && self.selected < self.profiles.len() {
                    return DialogResult::Submit(
                        ProfilePickerAction::Deleted(self.profiles[self.selected].name.clone()),
                    );
                }
                self.mode = Mode::List;
                DialogResult::Continue
            },
            KeyCode::Left | KeyCode::Char('h') => {
                self.confirm_selected = true;
                DialogResult::Continue
            },
            KeyCode::Right | KeyCode::Char('l') => {
                self.confirm_selected = false;
                DialogResult::Continue
            },
            KeyCode::Tab => {
                self.confirm_selected = !self.confirm_selected;
                DialogResult::Continue
            },
            _ => DialogResult::Continue,
        }
    }

    /// Why `name` cannot be the name of a new profile, or `None` where it
    /// can.
    pub fn validate_name(&self, name: &Vec<char>) -> (r: Option<String>)
        ensures
            match name_error(self.profiles@, name@) {
                None => r is None,
                Some(e) => r matches Some(s) && s@ == e,
            },
    {
        proof {
            reveal_strlit("Profile name cannot be empty");
            reveal_strlit("Profile name cannot contain path separators");
            reveal_strlit("Profile '");
            reveal_strlit("' already exists");
        }
        if name.len() == 0 {
            return Some("Profile name cannot be empty".to_string());
        }
        if contains_char(name, '/') || contains_char(name, '\\') {
            return Some("Profile name cannot contain path separators".to_string());
        }
        let ghost names = profile_names(self.profiles@);
        let mut i: usize = 0;
        while i < self.profiles.len()
            invariant
                i <= self.profiles@.len(),
                names == profile_names(self.profiles@),
                forall|k: int| 0 <= k < i ==> names[k] != name@,
                name@.len() > 0,
                !name@.contains('/') && !name@.contains('\\'),
            decreases self.profiles@.len() - i,
        {
            if crate::text::chars_eq(&chars_of(self.profiles[i].name.as_str()), name) {
                assert(names[i as int] == name@);
                assert(names.contains(name@));
                let mut msg = chars_of("Profile '");
                extend_chars(&mut msg, name);
                extend_chars(&mut msg, &chars_of("' already exists"));
                return Some(string_of(&msg));
            }
            i += 1;
        }
        None
    }
}

// ----------------------------------------------------------------------
// What the picker shows
// ----------------------------------------------------------------------

/// `n session` or `n sessions`.
pub open spec fn sessions_text(n: usize) -> Seq<char> {
    crate::civilizations::decimal_digits(n as nat) + " session"@ + (if n == 1 {
        Seq::empty()
    } else {
        seq!['s']
    })
}

/// The note after a profile's name: `  (active)` for the active one,
/// else its session count.
pub open spec fn profile_note(p: ProfileEntry) -> Seq<char> {
    if p.is_active {
        "  (active)"@
    } else {
        "  "@ + sessions_text(p.session_count)
    }
}

/// The first profile shown in a list `height` rows high: scrolled just
/// far enough to show the highlighted one.
pub open spec fn first_shown(selected: int, height: int) -> int {
    if selected >= height {
        selected - height + 1
    } else {
        0
    }
}

/// A drawn profile line: whether it is highlighted, the marker and name,
/// and the note.
pub open spec fn profile_line(p: ProfileEntry, highlighted: bool) -> (bool, Seq<char>, Seq<char>) {
    (highlighted, (if highlighted {
        "> "@
    } else {
        "  "@
    }) + p.name@, profile_note(p))
}

/// The lines of profiles `from` on, at most `count` of them.
pub open spec fn profile_lines_from(ps: Seq<ProfileEntry>, selected: int, from: int, count: int) -> Seq<
    (bool, Seq<char>, Seq<char>),
>
    decreases count,
{
    if count <= 0 || from < 0 || from >= ps.len() {
        Seq::empty()
    } else {
        seq![profile_line(ps[from], from == selected)] + profile_lines_from(ps, selected, from + 1, count - 1)
    }
}

/// One drawn line of the profile list.
pub struct ProfileLine {
    pub highlighted: bool,
    pub label: String,
    pub note: String,
}

/// The character view of profile lines.
pub open spec fn profile_line_views(ls: Seq<ProfileLine>) -> Seq<(bool, Seq<char>, Seq<char>)> {
    ls.map_values(|l: ProfileLine| (l.highlighted, l.label@, l.note@))
}

fn sessions_chars(n: usize) -> (r: Vec<char>)
    ensures
        r@ == sessions_text(n),
{
    let mut v = crate::civilizations::u64_to_decimal(n as u64);
    extend_chars(&mut v, &chars_of(" session"));
    if n != 1 {
        v.push('s');
    }
    v
}

impl ProfilePickerDialog {
    /// The highlighted profile, where there is one.
    pub fn selected_profile(&self) -> (r: Option<&ProfileEntry>)
        ensures
            match r {
                Some(p) => self.selected < self.profiles@.len() && *p == self.profiles@[self.selected as int],
                None => self.selected >= self.profiles@.len(),
            },
    {
        if self.selected < self.profiles.len() {
            Some(&self.profiles[self.selected])
        } else {
            None
        }
    }

    /// The lines of the profile list in a view `height` rows high.
    pub fn list_lines(&self, height: usize) -> (r: Vec<ProfileLine>)
        requires
            self.selected < usize::MAX || height > 0,
        ensures
            profile_line_views(r@) == profile_lines_from(
                self.profiles@,
                self.selected as int,
                first_shown(self.selected as int, height as int),
                height as int,
            ),
    {
        proof {
            reveal_strlit("  (active)");
        }
        let from: usize = if self.selected >= height {
            self.selected - height + 1
        } else {
            0
        };
        let len = self.profiles.len();
        let end: usize = if from >= len {
            from
        } else if height < len - from {
            from + height
        } else {
            len
        };
        let ghost ps = self.profiles@;
        let mut out: Vec<ProfileLine> = Vec::new();
        let mut i: usize = from;
        while i < end
            invariant
                from <= i <= end,
                end <= from + height,
                end == from + height || end == ps.len() || (end == from && from >= ps.len()),
                end <= ps.len() || end == from,
                ps == self.profiles@,
                profile_line_views(out@) + profile_lines_from(ps, self.selected as int, i as int, from + height - i)
                    == profile_lines_from(ps, self.selected as int, from as int, height as int),
            decreases end - i,
        {
            proof {
                reveal_strlit("  (active)");
            }
            let p = &self.profiles[i];
            let hl = i == self.selected;
            let mut label = if hl {
                chars_of("> ")
            } else {
                chars_of("  ")
            };
            extend_chars(&mut label, &chars_of(p.name.as_str()));
            let note = if p.is_active {
                "  (active)".to_string()
            } else {
                let mut n = chars_of("  ");
                extend_chars(&mut n, &sessions_chars(p.session_count));
                string_of(&n)
            };
            let ghost before = profile_line_views(out@);
            out.push(ProfileLine { highlighted: hl, label: string_of(&label), note });
            assert(profile_line_views(out@) =~= before.push(profile_line(ps[i as int], i == self.selected)));
            assert(profile_lines_from(ps, self.selected as int, i as int, from + height - i) =~= seq![
                profile_line(ps[i as int], i == self.selected),
            ] + profile_lines_from(ps, self.selected as int, i + 1, from + height - (i + 1)));
            i += 1;
        }
        assert(profile_lines_from(ps, self.selected as int, i as int, from + height - i) =~= Seq::empty());
        assert(profile_line_views(out@) =~= profile_line_views(out@) + Seq::<(bool, Seq<char>, Seq<char>)>::empty());
        out
    }

    /// The question asked before deleting the highlighted profile:
    /// `Delete 'name' (n session(s))?`; none where nothing is highlighted.
    pub fn delete_question(&self) -> (r: Option<String>)
        ensures
            match r {
                Some(q) => self.selected < self.profiles@.len() && q@ == "Delete '"@
                    + self.profiles@[self.selected as int].name@ + "' ("@ + sessions_text(
                    self.profiles@[self.selected as int].session_count,
                ) + ")?"@,
                None => self.selected >= self.profiles@.len(),
            },
    {
        match self.selected_profile() {
            Some(p) => {
                let mut q = chars_of("Delete '");
                extend_chars(&mut q, &chars_of(p.name.as_str()));
                extend_chars(&mut q, &chars_of("' ("));
                extend_chars(&mut q, &sessions_chars(p.session_count));
                extend_chars(&mut q, &chars_of(")?"));
                Some(string_of(&q))
            },
            None => None,
        }
    }
}

/// With at least one row, the highlighted profile is always among the
/// lines shown.
pub proof fn highlighted_profile_is_shown(selected: int, height: int)
    requires
        selected >= 0,
        height >= 1,
    ensures
        first_shown(selected, height) <= selected < first_shown(selected, height) + height,
{
}

} // verus!
