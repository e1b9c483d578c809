//! Key handling of the small modal dialogs: a yes/no confirmation, an
//! information box, and the options shown when a group is deleted.

use crate::keys::{KeyCode, KeyEvent};
use vstd::prelude::*;

verus! {

/// A rectangle of terminal cells: its top-left corner and its size.
#[derive(PartialEq, Eq, Structural, Clone, Copy, Debug)]
pub struct Rect {
    pub x: u16,
    pub y: u16,
    pub width: u16,
    pub height: u16,
}

/// A dialog of `width` by `height` centred in `area`: shrunk to the area
/// where it is larger, and placed half the spare room from the area's
/// left and top edges.
pub open spec fn centered(area: Rect, width: u16, height: u16) -> Rect {
    let spare_w = if area.width >= width { area.width - width } else { 0 };
    let spare_h = if area.height >= height { area.height - height } else { 0 };
    Rect {
        x: (area.x + spare_w / 2) as u16,
        y: (area.y + spare_h / 2) as u16,
        width: if width <= area.width { width } else { area.width },
        height: if height <= area.height { height } else { area.height },
    }
}

/// Centres a dialog of the given size within `area`, clamping it to fit.
/// The corner must stay within the terminal's coordinates.
pub fn centered_rect(area: Rect, width: u16, height: u16) -> (r: Rect)
    requires
        area.x + (if area.width >= width { area.width - width } else { 0 }) / 2 <= u16::MAX,
        area.y + (if area.height >= height { area.height - height } else { 0 }) / 2 <= u16::MAX,
    ensures
        r == centered(area, width, height),
{
    let spare_w = area.width.saturating_sub(width);
    let spare_h = area.height.saturating_sub(height);
    Rect {
        x: area.x + spare_w / 2,
        y: area.y + spare_h / 2,
        width: if width <= area.width { width } else { area.width },
        height: if height <= area.height { height } else { area.height },
    }
}

/// A centred dialog lies inside the area it is centred in.
pub proof fn centered_dialog_stays_inside(area: Rect, width: u16, height: u16)
    requires
        area.x + area.width <= u16::MAX,
        area.y + area.height <= u16::MAX,
    ensures
        ({
            let r = centered(area, width, height);
            &&& area.x <= r.x
            &&& r.x + r.width <= area.x + area.width
            &&& area.y <= r.y
            &&& r.y + r.height <= area.y + area.height
        }),
{
}

/// What a dialog asks of its caller after a key press.
pub enum DialogResult<T> {
    /// Keep the dialog open.
    Continue,
    /// Close the dialog without a result.
    Cancel,
    /// Close the dialog with a result.
    Submit(T),
}

/// A message box with a title.
pub struct InfoDialog {
    pub title: String,
    pub message: String,
}

impl InfoDialog {
    pub fn new(title: &str, message: &str) -> (r: InfoDialog)
        ensures
            r.title@ == title@,
            r.message@ == message@,
    {
        InfoDialog { title: title.to_string(), message: message.to_string() }
    }
}

/// A yes/no question; `selected` is true when "Yes" is highlighted.
pub struct ConfirmDialog {
    pub title: String,
    pub message: String,
    pub action: String,
    pub selected: bool,
}

/// The answer of a confirmation dialog to a key, and whether "Yes" is
/// highlighted afterwards: `y` confirms, `n` and Esc cancel, Enter takes
/// the highlighted answer, Left/`h` highlight "Yes", Right/`l` "No", Tab
/// switches; other keys change nothing.
pub open spec fn confirm_step(selected: bool, code: KeyCode) -> (DialogResult<()>, bool) {
    match code {
        KeyCode::Esc | KeyCode::Char('n') | KeyCode::Char('N') => (DialogResult::Cancel, selected),
        KeyCode::Enter => (
            if selected {
                DialogResult::Submit(())
            } else {
                DialogResult::Cancel
            },
            selected,
        ),
        KeyCode::Char('y') | KeyCode::Char('Y') => (DialogResult::Submit(()), selected),
        KeyCode::Left | KeyCode::Char('h') => (DialogResult::Continue, true),
        KeyCode::Right | KeyCode::Char('l') => (DialogResult::Continue, false),
        KeyCode::Tab => (DialogResult::Continue, !selected),
        _ => (DialogResult::Continue, selected),
    }
}

impl ConfirmDialog {
    /// A dialog asking `message` under `title` before `action`, with "No"
    /// highlighted.
    pub fn new(title: &str, message: &str, action: &str) -> (r: ConfirmDialog)
        ensures
            r.title@ == title@,
            r.message@ == message@,
            r.action@ == action@,
            !r.selected,
    {
        ConfirmDialog {
            title: title.to_string(),
            message: message.to_string(),
            action: action.to_string(),
            selected: false,
        }
    }

    /// The action this dialog confirms.
    pub fn action(&self) -> (r: &str)
        ensures
            r@ == self.action@,
    {
        self.action.as_str()
    }

    pub fn handle_key(&mut self, key: KeyEvent) -> (r: DialogResult<()>)
        ensures
            (r, final(self).selected) == confirm_step(old(self).selected, key.code),
            final(self).title == old(self).title,
            final(self).message == old(self).message,
            final(self).action == old(self).action,
    {
        match key.code {
            KeyCode::Esc | KeyCode::Char('n') | KeyCode::Char('N') => DialogResult::Cancel,
            KeyCode::Enter => {
                if self.selected {
                    DialogResult::Submit(())
                } else {
                    DialogResult::Cancel
                }
            },
            KeyCode::Char('y') | KeyCode::Char('Y') => DialogResult::Submit(()),
            KeyCode::Left | KeyCode::Char('h') => {
                self.selected = true;
                DialogResult::Continue
            },
            KeyCode::Right | KeyCode::Char('l') => {
                self.selected = false;
                DialogResult::Continue
            },
            KeyCode::Tab => {
                self.selected = !self.selected;
                DialogResult::Continue
            },
            _ => DialogResult::Continue,
        }
    }
}

/// What to do with the sessions of a group that is deleted.
#[derive(Clone, Copy, Debug)]
pub struct GroupDeleteOptions {
    pub delete_sessions: bool,
    pub delete_worktrees: bool,
    pub force_delete_worktrees: bool,
    pub delete_branches: bool,
    pub delete_containers: bool,
}

impl Default for GroupDeleteOptions {
    /// Nothing is deleted: the sessions move out of the group.
    fn default() -> (r: GroupDeleteOptions)
        ensures
            !r.delete_sessions,
            !r.delete_worktrees,
            !r.force_delete_worktrees,
            !r.delete_branches,
            !r.delete_containers,
    {
        GroupDeleteOptions {
            delete_sessions: false,
            delete_worktrees: false,
            force_delete_worktrees: false,
            delete_branches: false,
            delete_containers: false,
        }
    }
}

/// The dialog that asks what to do with a group's sessions. Its fields,
/// in focus order: "move" (0), "delete" (1), and while deleting, the
/// worktree box, the force box (while worktrees are deleted), the branch
/// box (these three where sessions have managed worktrees) and the
/// container box (where sessions have containers).
pub struct GroupDeleteOptionsDialog {
    pub group_path: String,
    pub session_count: usize,
    pub has_managed_worktrees: bool,
    pub has_containers: bool,
    pub options: GroupDeleteOptions,
    pub focused_field: usize,
}

impl GroupDeleteOptionsDialog {
    /// The number of fields shown.
    pub open spec fn field_count(self) -> nat {
        if !self.options.delete_sessions {
            2
        } else {
            2 + (if self.has_managed_worktrees {
                2nat + (if self.options.delete_worktrees {
                    1nat
                } else {
                    0
                })
            } else {
                0
            }) + (if self.has_containers {
                1nat
            } else {
                0
            })
        }
    }

    pub open spec fn worktree_field(self) -> Option<nat> {
        if self.options.delete_sessions && self.has_managed_worktrees {
            Some(2)
        } else {
            None
        }
    }

    pub open spec fn force_field(self) -> Option<nat> {
        if self.options.delete_sessions && self.has_managed_worktrees && self.options.delete_worktrees {
            Some(3)
        } else {
            None
        }
    }

    pub open spec fn branch_field(self) -> Option<nat> {
        if self.options.delete_sessions && self.has_managed_worktrees {
            if self.options.delete_worktrees {
                Some(4)
            } else {
                Some(3)
            }
        } else {
            None
        }
    }

    pub open spec fn container_field(self) -> Option<nat> {
        if self.options.delete_sessions && self.has_containers {
            Some(
                2 + (if self.has_managed_worktrees {
                    2nat + (if self.options.delete_worktrees {
                        1nat
                    } else {
                        0
                    })
                } else {
                    0
                }),
            )
        } else {
            None
        }
    }

    /// The options are consistent with what the dialog shows: nothing but
    /// "delete sessions" is set while moving, forcing needs worktree
    /// deletion, the worktree, force and branch boxes need managed
    /// worktrees, the container box needs containers; and the focus is on
    /// a field that is shown.
    pub open spec fn consistent(self) -> bool {
        &&& !self.options.delete_sessions ==> !self.options.delete_worktrees
            && !self.options.force_delete_worktrees && !self.options.delete_branches
            && !self.options.delete_containers
        &&& self.options.force_delete_worktrees ==> self.options.delete_worktrees
        &&& self.options.delete_worktrees || self.options.delete_branches ==> self.has_managed_worktrees
        &&& self.options.delete_containers ==> self.has_containers
        &&& self.focused_field < self.field_count()
    }

    /// The new options after Space on `field`: "move" clears everything,
    /// "delete" sets deletion, a box flips (turning worktree deletion off
    /// also turns forcing off), anything else changes nothing.
    pub open spec fn toggled(self, field: nat) -> GroupDeleteOptions {
        let o = self.options;
        if field == 0 {
            GroupDeleteOptions {
                delete_sessions: false,
                delete_worktrees: false,
                force_delete_worktrees: false,
                delete_branches: false,
                delete_containers: false,
            }
        } else if field == 1 {
            GroupDeleteOptions { delete_sessions: true, ..o }
        } else if self.worktree_field() == Some(field) {
            GroupDeleteOptions {
                delete_worktrees: !o.delete_worktrees,
                force_delete_worktrees: if o.delete_worktrees {
                    false
                } else {
                    o.force_delete_worktrees
                },
                ..o
            }
        } else if self.force_field() == Some(field) {
            GroupDeleteOptions { force_delete_worktrees: !o.force_delete_worktrees, ..o }
        } else if self.branch_field() == Some(field) {
            GroupDeleteOptions { delete_branches: !o.delete_branches, ..o }
        } else if self.container_field() == Some(field) {
            GroupDeleteOptions { delete_containers: !o.delete_containers, ..o }
        } else {
            o
        }
    }

    pub fn new(group_path: String, session_count: usize, has_managed_worktrees: bool, has_containers: bool) -> (r:
        GroupDeleteOptionsDialog)
        ensures
            r.group_path == group_path,
            r.session_count == session_count,
            r.has_managed_worktrees == has_managed_worktrees,
            r.has_containers == has_containers,
            !r.options.delete_sessions,
            !r.options.delete_worktrees,
            !r.options.force_delete_worktrees,
            !r.options.delete_branches,
            !r.options.delete_containers,
            r.focused_field == 0,
            r.consistent(),
    {
        GroupDeleteOptionsDialog {
            group_path,
            session_count,
            has_managed_worktrees,
            has_containers,
            options: GroupDeleteOptions::default(),
            focused_field: 0,
        }
    }

    /// The number of fields shown.
    pub fn max_field(&self) -> (r: usize)
        ensures
            r == self.field_count(),
            2 <= r <= 6,
    {
        if !self.options.delete_sessions {
            return 2;
        }
        let mut count: usize = 2;
        if self.has_managed_worktrees {
            count += 2;
            if self.options.delete_worktrees {
                count += 1;
            }
        }
        if self.has_containers {
            count += 1;
        }
        count
    }

    pub fn worktree_field_index(&self) -> (r: Option<usize>)
        ensures
            match r {
                Some(i) => self.worktree_field() == Some(i as nat),
                None => self.worktree_field() is None,
            },
    {
        if self.options.delete_sessions && self.has_managed_worktrees {
            Some(2)
        } else {
            None
        }
    }

    pub fn force_field_index(&self) -> (r: Option<usize>)
        ensures
            match r {
                Some(i) => self.force_field() == Some(i as nat),
                None => self.force_field() is None,
            },
    {
        if self.options.delete_sessions && self.has_managed_worktrees && self.options.delete_worktrees {
            Some(3)
        } else {
            None
        }
    }

    pub fn branch_field_index(&self) -> (r: Option<usize>)
        ensures
            match r {
                Some(i) => self.branch_field() == Some(i as nat),
                None => self.branch_field() is None,
            },
    {
        if self.options.delete_sessions && self.has_managed_worktrees {
            if self.options.delete_worktrees {
                Some(4)
            } else {
                Some(3)
            }
        } else {
            None
        }
    }

    pub fn container_field_index(&self) -> (r: Option<usize>)
        ensures
            match r {
                Some(i) => self.container_field() == Some(i as nat),
                None => self.container_field() is None,
            },
    {
        if self.options.delete_sessions && self.has_containers {
            let base: usize = 2;
            let mut offset: usize = 0;
            if self.has_managed_worktrees {
                offset += 2;
                if self.options.delete_worktrees {
                    offset += 1;
                }
            }
            Some(base + offset)
        } else {
            None
        }
    }

    /// Esc cancels; Enter submits the options; Tab/Down/`j` and
    /// BackTab/Up/`k` move the focus forward and back around the shown
    /// fields; Space acts on the focused field. A consistent dialog stays
    /// consistent.
    pub fn handle_key(&mut self, key: KeyEvent) -> (r: DialogResult<GroupDeleteOptions>)
        requires
            old(self).focused_field < usize::MAX,
        ensures
            final(self).group_path == old(self).group_path,
            final(self).session_count == old(self).session_count,
            final(self).has_managed_worktrees == old(self).has_managed_worktrees,
            final(self).has_containers == old(self).has_containers,
            match key.code {
                KeyCode::Esc => r is Cancel && *final(self) == *old(self),
                KeyCode::Enter => r matches DialogResult::Submit(o) && o == old(self).options
                    && *final(self) == *old(self),
                KeyCode::Tab | KeyCode::Down | KeyCode::Char('j') => r is Continue
                    && final(self).options == old(self).options && final(self).focused_field as int == (
                old(self).focused_field + 1) % (old(self).field_count() as int),
                KeyCode::BackTab | KeyCode::Up | KeyCode::Char('k') => r is Continue
                    && final(self).options == old(self).options && final(self).focused_field as nat == (
                if old(self).focused_field == 0 {
                    (old(self).field_count() - 1) as nat
                } else {
                    (old(self).focused_field - 1) as nat
                }),
                KeyCode::Char(' ') => r is Continue && final(self).focused_field == old(self).focused_field
                    && final(self).options == old(self).toggled(
                    old(self).focused_field as nat,
                ),
                _ => r is Continue && *final(self) == *old(self),
            },
            old(self).consistent() ==> final(self).consistent(),
    {
        match key.code {
            KeyCode::Esc => DialogResult::Cancel,
            KeyCode::Enter => DialogResult::Submit(self.options),
            KeyCode::Tab | KeyCode::Down | KeyCode::Char('j') => {
                let max = self.max_field();
                self.focused_field = (self.focused_field + 1) % max;
                DialogResult::Continue
            },
            KeyCode::BackTab | KeyCode::Up | KeyCode::Char('k') => {
                let max = self.max_field();
                self.focused_field = if self.focused_field == 0 {
                    max - 1
                } else {
                    self.focused_field - 1
                };
                DialogResult::Continue
            },
            KeyCode::Char(' ') => {
                let f = self.focused_field;
                if f == 0 {
                    self.options.delete_sessions = false;
                    self.options.delete_worktrees = false;
                    self.options.force_delete_worktrees = false;
                    self.options.delete_branches = false;
                    self.options.delete_containers = false;
                } else if f == 1 {
                    self.options.delete_sessions = true;
                } else if self.worktree_field_index() == Some(f) {
                    self.options.delete_worktrees = !self.options.delete_worktrees;
                    if !self.options.delete_worktrees {
                        self.options.force_delete_worktrees = false;
                    }
                } else if self.force_field_index() == Some(f) {
                    self.options.force_delete_worktrees = !self.options.force_delete_worktrees;
                } else if self.branch_field_index() == Some(f) {
                    self.options.delete_branches = !self.options.delete_branches;
                } else if self.container_field_index() == Some(f) {
                    self.options.delete_containers = !self.options.delete_containers;
                }
                DialogResult::Continue
            },
            _ => DialogResult::Continue,
        }
    }
}

// ----------------------------------------------------------------------
// What the group-delete dialog shows
// ----------------------------------------------------------------------

/// How an option row is drawn: underlined where it has the focus, in its
/// colour where it is chosen, dimmed otherwise.
#[derive(PartialEq, Eq, Structural, Clone, Copy, Debug)]
pub enum RowLook {
    Focused,
    Chosen,
    Dimmed,
}

/// The colour family of an option row: the accent for keeping sessions,
/// the error colour for deleting anything.
#[derive(PartialEq, Eq, Structural, Clone, Copy, Debug)]
pub enum RowTone {
    Accent,
    Error,
}

/// One option row: indentation, radio button or check box, label, and
/// how it is drawn.
#[derive(Clone, Copy, Debug)]
pub struct OptionRow {
    pub indent: usize,
    pub mark: &'static str,
    pub label: &'static str,
    pub tone: RowTone,
    pub look: RowLook,
}

/// The look of a row that has the focus or not and is chosen or not.
pub open spec fn look_of(focused: bool, chosen: bool) -> RowLook {
    if focused {
        RowLook::Focused
    } else if chosen {
        RowLook::Chosen
    } else {
        RowLook::Dimmed
    }
}

/// A radio button, filled where chosen.
pub open spec fn radio(on: bool) -> Seq<char> {
    if on {
        "(•)"@
    } else {
        "( )"@
    }
}

/// A check box, ticked where chosen.
pub open spec fn checkbox(on: bool) -> Seq<char> {
    if on {
        "[x]"@
    } else {
        "[ ]"@
    }
}

/// The character view of an option row.
pub open spec fn row_view(r: OptionRow) -> (nat, Seq<char>, Seq<char>, RowTone, RowLook) {
    (r.indent as nat, r.mark@, r.label@, r.tone, r.look)
}

fn look(focused: bool, chosen: bool) -> (r: RowLook)
    ensures
        r == look_of(focused, chosen),
{
    if focused {
        RowLook::Focused
    } else if chosen {
        RowLook::Chosen
    } else {
        RowLook::Dimmed
    }
}

fn radio_mark(on: bool) -> (r: &'static str)
    ensures
        r@ == radio(on),
{
    if on {
        "(•)"
    } else {
        "( )"
    }
}

fn checkbox_mark(on: bool) -> (r: &'static str)
    ensures
        r@ == checkbox(on),
{
    if on {
        "[x]"
    } else {
        "[ ]"
    }
}

impl GroupDeleteOptionsDialog {
    /// The option rows shown, top to bottom: moving and deleting the
    /// sessions; where sessions are deleted and there are managed
    /// worktrees, deleting them, forcing that (only while it is chosen)
    /// and deleting their branches; where sessions are deleted and there
    /// are containers, deleting those.
    pub open spec fn shown_rows(self) -> Seq<(nat, Seq<char>, Seq<char>, RowTone, RowLook)> {
        let o = self.options;
        let f = self.focused_field as nat;
        let show_wt = o.delete_sessions && self.has_managed_worktrees;
        let show_force = show_wt && o.delete_worktrees;
        let show_ct = o.delete_sessions && self.has_containers;
        let mv = (
            0nat,
            radio(!o.delete_sessions),
            " Move sessions to default group"@,
            RowTone::Accent,
            look_of(f == 0, !o.delete_sessions),
        );
        let del = (0nat, radio(o.delete_sessions), " Delete all sessions"@, RowTone::Error, look_of(f == 1, o.delete_sessions));
        let wt = (
            4nat,
            checkbox(o.delete_worktrees),
            " Also delete managed worktrees"@,
            RowTone::Error,
            look_of(Some(f) == self.worktree_field(), o.delete_worktrees),
        );
        let fc = (
            8nat,
            checkbox(o.force_delete_worktrees),
            " Force delete"@,
            RowTone::Error,
            look_of(Some(f) == self.force_field(), o.force_delete_worktrees),
        );
        let br = (
            4nat,
            checkbox(o.delete_branches),
            " Also delete git branches"@,
            RowTone::Error,
            look_of(Some(f) == self.branch_field(), o.delete_branches),
        );
        let ct = (
            4nat,
            checkbox(o.delete_containers),
            " Also delete containers"@,
            RowTone::Error,
            look_of(Some(f) == self.container_field(), o.delete_containers),
        );
        seq![mv, del] + (if show_wt {
            seq![wt] + (if show_force {
                seq![fc]
            } else {
                Seq::empty()
            }) + seq![br]
        } else {
            Seq::empty()
        }) + (if show_ct {
            seq![ct]
        } else {
            Seq::empty()
        })
    }

    /// The dialog's height: eleven rows, two more for the worktree and
    /// branch boxes, one more for forcing and one for containers where
    /// those are shown.
    pub open spec fn height(self) -> nat {
        let o = self.options;
        let show_wt = o.delete_sessions && self.has_managed_worktrees;
        let show_force = show_wt && o.delete_worktrees;
        let show_ct = o.delete_sessions && self.has_containers;
        11 + (if show_wt {
            2nat + (if show_force {
                1nat
            } else {
                0
            })
        } else {
            0
        }) + (if show_ct {
            1nat
        } else {
            0
        })
    }

    /// The option rows to draw.
    pub fn option_rows(&self) -> (r: Vec<OptionRow>)
        ensures
            r@.map_values(|x: OptionRow| row_view(x)) == self.shown_rows(),
    {
        proof {
            reveal_strlit(" Move sessions to default group");
            reveal_strlit(" Delete all sessions");
            reveal_strlit(" Also delete managed worktrees");
            reveal_strlit(" Force delete");
            reveal_strlit(" Also delete git branches");
            reveal_strlit(" Also delete containers");
        }
        let o = self.options;
        let f = self.focused_field;
        let show_wt = o.delete_sessions && self.has_managed_worktrees;
        let show_force = show_wt && o.delete_worktrees;
        let show_ct = o.delete_sessions && self.has_containers;
        let mut rows: Vec<OptionRow> = Vec::new();
        rows.push(
            OptionRow {
                indent: 0,
                mark: radio_mark(!o.delete_sessions),
                label: " Move sessions to default group",
                tone: RowTone::Accent,
                look: look(f == 0, !o.delete_sessions),
            },
        );
        rows.push(
            OptionRow {
                indent: 0,
                mark: radio_mark(o.delete_sessions),
                label: " Delete all sessions",
                tone: RowTone::Error,
                look: look(f == 1, o.delete_sessions),
            },
        );
        if show_wt {
            let wt_focus = match self.worktree_field_index() {
                Some(i) => i == f,
                None => false,
            };
            rows.push(
                OptionRow {
                    indent: 4,
                    mark: checkbox_mark(o.delete_worktrees),
                    label: " Also delete managed worktrees",
                    tone: RowTone::Error,
                    look: look(wt_focus, o.delete_worktrees),
                },
            );
            if show_force {
                let fc_focus = match self.force_field_index() {
                    Some(i) => i == f,
                    None => false,
                };
                rows.push(
                    OptionRow {
                        indent: 8,
                        mark: checkbox_mark(o.force_delete_worktrees),
                        label: " Force delete",
                        tone: RowTone::Error,
                        look: look(fc_focus, o.force_delete_worktrees),
                    },
                );
            }
            let br_focus = match self.branch_field_index() {
                Some(i) => i == f,
                None => false,
            };
            rows.push(
                OptionRow {
                    indent: 4,
                    mark: checkbox_mark(o.delete_branches),
                    label: " Also delete git branches",
                    tone: RowTone::Error,
                    look: look(br_focus, o.delete_branches),
                },
            );
        }
        if show_ct {
            let ct_focus = match self.container_field_index() {
                Some(i) => i == f,
                None => false,
            };
            rows.push(
                OptionRow {
                    indent: 4,
                    mark: checkbox_mark(o.delete_containers),
                    label: " Also delete containers",
                    tone: RowTone::Error,
                    look: look(ct_focus, o.delete_containers),
                },
            );
        }
        assert(rows@.map_values(|x: OptionRow| row_view(x)) =~= self.shown_rows());
        rows
    }

    /// The dialog's height in rows.
    pub fn dialog_height(&self) -> (r: u16)
        ensures
            r == self.height(),
    {
        let o = self.options;
        let show_wt = o.delete_sessions && self.has_managed_worktrees;
        let show_force = show_wt && o.delete_worktrees;
        let show_ct = o.delete_sessions && self.has_containers;
        let mut h: u16 = 11;
        if show_wt {
            h = h + 2;
            if show_force {
                h = h + 1;
            }
        }
        if show_ct {
            h = h + 1;
        }
        h
    }

    /// The group line's three parts: `Group: `, the quoted group path,
    /// and the session count with `session` or `sessions`.
    pub fn info_parts(&self) -> (r: (String, String, String))
        ensures
            r.0@ == "Group: "@,
            r.1@ == seq!['"'] + self.group_path@ + seq!['"'],
            r.2@ == " ("@ + crate::civilizations::decimal_digits(self.session_count as nat) + seq![' '] + (if self.session_count == 1 {
                "session"@
            } else {
                "sessions"@
            }) + seq![')'],
    {
        let mut quoted: Vec<char> = Vec::new();
        quoted.push('"');
        crate::text::extend_chars(&mut quoted, &crate::text::chars_of(self.group_path.as_str()));
        quoted.push('"');
        let mut count = crate::text::chars_of(" (");
        crate::text::extend_chars(&mut count, &crate::civilizations::u64_to_decimal(self.session_count as u64));
        count.push(' ');
        let word = if self.session_count == 1 {
            "session"
        } else {
            "sessions"
        };
        crate::text::extend_chars(&mut count, &crate::text::chars_of(word));
        count.push(')');
        ("Group: ".to_string(), crate::text::string_of(&quoted), crate::text::string_of(&count))
    }
}

/// The option rows are the dialog's fields in order: there is one row for
/// each field, and the row drawn as focused is the focused field's.
pub proof fn rows_follow_fields(d: GroupDeleteOptionsDialog)
    ensures
        d.shown_rows().len() == d.field_count(),
        forall|i: int|
            0 <= i < d.shown_rows().len() ==> ((#[trigger] d.shown_rows()[i]).4 == RowLook::Focused <==> i
                == d.focused_field),
{
}

} // verus!
