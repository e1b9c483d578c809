//! The editor for a sandbox's custom instruction: a multi-line text area
//! with Save and Cancel buttons below it.

use crate::dialogs::DialogResult;
use crate::environment::joined;
use crate::keys::{has_modifier, KeyCode, KeyEvent, KeyModifiers};
use crate::text::{chars_of, extend_chars, lines, split_lines, string_of, trim, trim_spec, views};
use crate::text_input::string_seq;
use tui_textarea::Key;
use vstd::prelude::*;

verus! {

broadcast use vstd::string::group_string_axioms;

/// The keys a text area reacts to.
#[derive(PartialEq, Eq, Structural, Clone, Copy, Debug)]
pub enum AreaKey {
    Char(char),
    F(u8),
    Backspace,
    Enter,
    Left,
    Right,
    Up,
    Down,
    Tab,
    Delete,
    Home,
    End,
    PageUp,
    PageDown,
    Esc,
    Null,
}

/// The lines and cursor (row, column) that a `tui_textarea` text area
/// holds after it handles `key` with the control, alt and shift flags on
/// `lines` with the cursor at (`row`, `col`), where nothing is selected
/// and the key is not one that reads the editor's other state.
pub uninterp spec fn edited_area(lines: Seq<Seq<char>>, row: nat, col: nat, key: AreaKey, ctrl: bool, alt: bool, shift: bool) -> (
    Seq<Seq<char>>,
    nat,
    nat,
);

/// The lines a `tui_textarea` text area holds.
pub uninterp spec fn area_lines(area: TextAreaState) -> Seq<Seq<char>>;

/// The cursor (row, column) of a `tui_textarea` text area.
pub uninterp spec fn area_cursor(area: TextAreaState) -> (nat, nat);

/// Whether a selection is under way in a `tui_textarea` text area (what
/// `TextArea::is_selecting` reports).
pub uninterp spec fn area_selecting(area: TextAreaState) -> bool;

/// The key type of `tui_textarea`, carried through opaquely.
#[verifier::external_type_specification]
#[verifier::external_body]
pub struct ExTextAreaKey(tui_textarea::Key);

/// The text area of `tui_textarea` that the editor works in, held whole:
/// its lines, its cursor, the undo and redo history, the text last cut or
/// copied, the start of a selection and the part shown.  (Verus does not
/// take the text area's type declared on its own.)
#[verifier::external_body]
pub struct TextAreaState {
    area: tui_textarea::TextArea<'static>,
}

/// `tui_textarea::Key` for an area key, one variant for one.
#[verifier::external_body]
fn textarea_key(k: AreaKey) -> tui_textarea::Key {
    match k {
        AreaKey::Char(c) => Key::Char(c), AreaKey::F(n) => Key::F(n),
        AreaKey::Backspace => Key::Backspace, AreaKey::Enter => Key::Enter,
        AreaKey::Left => Key::Left, AreaKey::Right => Key::Right,
        AreaKey::Up => Key::Up, AreaKey::Down => Key::Down,
        AreaKey::Tab => Key::Tab, AreaKey::Delete => Key::Delete,
        AreaKey::Home => Key::Home, AreaKey::End => Key::End,
        AreaKey::PageUp => Key::PageUp, AreaKey::PageDown => Key::PageDown,
        AreaKey::Esc => Key::Esc, AreaKey::Null => Key::Null,
    }
}

/// The cursor lies on a line, at most at its end, and there is a line.
pub open spec fn cursor_on_lines(lines: Seq<Seq<char>>, cursor: (nat, nat)) -> bool {
    &&& lines.len() > 0
    &&& cursor.0 < lines.len()
    &&& cursor.1 <= lines[cursor.0 as int].len()
}

/// `tui_textarea::TextArea::new`: an area holding `lines` (one empty
/// line where there are none), with the cursor at the start.
#[verifier::external_body]
fn new_area(lines: Vec<String>) -> (r: TextAreaState)
    ensures
        area_lines(r) == (if lines@.len() == 0 {
            seq![Seq::<char>::empty()]
        } else {
            string_seq(lines@)
        }),
        area_cursor(r) == (0nat, 0nat),
{
    TextAreaState { area: tui_textarea::TextArea::new(lines) }
}

/// `tui_textarea::TextArea::into_lines` of a clone: the lines held.
#[verifier::external_body]
fn lines_of_area(area: &TextAreaState) -> (r: Vec<String>)
    ensures
        string_seq(r@) == area_lines(*area),
{
    area.area.clone().into_lines()
}

/// `tui_textarea::TextArea::cursor`.
#[verifier::external_body]
fn cursor_of_area(area: &TextAreaState) -> (r: (usize, usize))
    ensures
        (r.0 as nat, r.1 as nat) == area_cursor(*area),
{
    area.area.cursor()
}

/// Keys whose effect reads more of the editor than its lines and cursor:
/// undo (Ctrl+U), redo (Ctrl+R), paste (Ctrl+Y), cut (Ctrl+X) and copy
/// (Ctrl+C), and the page moves, which depend on the part shown.
pub open spec fn reads_editor_state(key: AreaKey, ctrl: bool, alt: bool) -> bool {
    ||| ctrl && !alt && (key == AreaKey::Char('u') || key == AreaKey::Char('r') || key == AreaKey::Char('y')
        || key == AreaKey::Char('x') || key == AreaKey::Char('c') || key == AreaKey::Char('v'))
    ||| !ctrl && alt && key == AreaKey::Char('v')
    ||| key == AreaKey::PageUp
    ||| key == AreaKey::PageDown
}

/// Hands the area one key with `tui_textarea::TextArea::input`.  Where
/// nothing was selected and the key reads nothing else of the editor, the
/// new lines and cursor are named by `edited_area`; in every case the
/// cursor stays on the lines, as the crate checks after each input.  What
/// undo, redo, paste, cut, copy, the page moves and edits of a selection
/// do is left unsaid: it rests on state inside the area.
#[verifier::external_body]
fn area_input(area: &mut TextAreaState, key: AreaKey, ctrl: bool, alt: bool, shift: bool)
    ensures
        !area_selecting(*old(area)) && !reads_editor_state(key, ctrl, alt) ==> (
        area_lines(*final(area)),
        area_cursor(*final(area)).0,
        area_cursor(*final(area)).1,
        ) == edited_area(
            area_lines(*old(area)),
            area_cursor(*old(area)).0,
            area_cursor(*old(area)).1,
            key,
            ctrl,
            alt,
            shift,
        ),
        cursor_on_lines(area_lines(*final(area)), area_cursor(*final(area))),
{
    area.area.input(tui_textarea::Input { key: textarea_key(key), ctrl, alt, shift });
}

/// The text-area key for a key code; keys a text area does not know are
/// `Null`, which it ignores.
pub open spec fn area_key_of(code: KeyCode) -> AreaKey {
    match code {
        KeyCode::Char(c) => AreaKey::Char(c),
        KeyCode::F(n) => AreaKey::F(n),
        KeyCode::Backspace => AreaKey::Backspace,
        KeyCode::Enter => AreaKey::Enter,
        KeyCode::Left => AreaKey::Left,
        KeyCode::Right => AreaKey::Right,
        KeyCode::Up => AreaKey::Up,
        KeyCode::Down => AreaKey::Down,
        KeyCode::Tab => AreaKey::Tab,
        KeyCode::Delete => AreaKey::Delete,
        KeyCode::Home => AreaKey::Home,
        KeyCode::End => AreaKey::End,
        KeyCode::PageUp => AreaKey::PageUp,
        KeyCode::PageDown => AreaKey::PageDown,
        KeyCode::Esc => AreaKey::Esc,
        _ => AreaKey::Null,
    }
}

fn area_key(code: KeyCode) -> (r: AreaKey)
    ensures
        r == area_key_of(code),
{
    match code {
        KeyCode::Char(c) => AreaKey::Char(c),
        KeyCode::F(n) => AreaKey::F(n),
        KeyCode::Backspace => AreaKey::Backspace,
        KeyCode::Enter => AreaKey::Enter,
        KeyCode::Left => AreaKey::Left,
        KeyCode::Right => AreaKey::Right,
        KeyCode::Up => AreaKey::Up,
        KeyCode::Down => AreaKey::Down,
        KeyCode::Tab => AreaKey::Tab,
        KeyCode::Delete => AreaKey::Delete,
        KeyCode::Home => AreaKey::Home,
        KeyCode::End => AreaKey::End,
        KeyCode::PageUp => AreaKey::PageUp,
        KeyCode::PageDown => AreaKey::PageDown,
        KeyCode::Esc => AreaKey::Esc,
        _ => AreaKey::Null,
    }
}

/// The lines an instruction is edited as: its lines, or one empty line
/// for an empty instruction.
pub open spec fn initial_lines(text: Seq<char>) -> Seq<Seq<char>> {
    if text.len() == 0 {
        seq![Seq::empty()]
    } else {
        lines(text)
    }
}

/// The instruction editor. `focused_zone` is 0 for the text area and 1
/// for the buttons; `focused_button` is 0 for Save and 1 for Cancel.
pub struct CustomInstructionDialog {
    pub focused_zone: usize,
    pub focused_button: usize,
    /// The text area, with its history, cut text and selection.
    pub area: TextAreaState,
}

impl CustomInstructionDialog {
    /// The edited lines.
    pub closed spec fn lines_view(self) -> Seq<Seq<char>> {
        area_lines(self.area)
    }

    /// The cursor: row and column.
    pub closed spec fn cursor_view(self) -> (nat, nat) {
        area_cursor(self.area)
    }

    /// The edited text: the lines joined with line breaks.
    pub open spec fn text(self) -> Seq<char> {
        joined(self.lines_view(), seq!['\n'])
    }

    /// The value Save hands back: the text, or nothing where it is blank.
    pub open spec fn saved_value(self) -> Option<Seq<char>> {
        if trim_spec(self.text()).len() == 0 {
            None
        } else {
            Some(self.text())
        }
    }

    /// An editor on `current_value` (empty where there is none), with the
    /// text area focused and Save highlighted.
    pub fn new(current_value: Option<String>) -> (r: CustomInstructionDialog)
        ensures
            r.focused_zone == 0,
            r.focused_button == 0,
            r.cursor_view() == (0nat, 0nat),
            r.lines_view() == initial_lines(
                match current_value {
                    Some(s) => s@,
                    None => Seq::empty(),
                },
            ),
    {
        let text = match current_value {
            Some(s) => chars_of(s.as_str()),
            None => Vec::new(),
        };
        let mut out: Vec<String> = Vec::new();
        if text.len() == 0 {
            out.push(String::new());
            assert(string_seq(out@) =~= seq![Seq::<char>::empty()]);
        } else {
            let parts = split_lines(&text);
            let mut i: usize = 0;
            while i < parts.len()
                invariant
                    i <= parts@.len(),
                    string_seq(out@) == views(parts@).take(i as int),
                decreases parts@.len() - i,
            {
                let ghost before = out@;
                out.push(string_of(&parts[i]));
                assert(string_seq(out@) =~= string_seq(before).push(parts@[i as int]@));
                assert(string_seq(out@) =~= views(parts@).take(i + 1));
                i += 1;
            }
            assert(views(parts@).take(parts@.len() as int) =~= views(parts@));
            assert(lines(text@).len() > 0);
            assert(out@.len() > 0);
        }
        CustomInstructionDialog { focused_zone: 0, focused_button: 0, area: new_area(out) }
    }

    /// The edited lines.
    pub fn lines(&self) -> (r: Vec<String>)
        ensures
            string_seq(r@) == self.lines_view(),
    {
        lines_of_area(&self.area)
    }

    /// The cursor: row and column.
    pub fn cursor(&self) -> (r: (usize, usize))
        ensures
            (r.0 as nat, r.1 as nat) == self.cursor_view(),
    {
        cursor_of_area(&self.area)
    }

    /// The edited text: the lines joined with line breaks.
    pub fn get_text(&self) -> (r: String)
        ensures
            r@ == self.text(),
    {
        let lines = self.lines();
        let ghost parts = string_seq(lines@);
        let mut out: Vec<char> = Vec::new();
        let mut i: usize = 0;
        while i < lines.len()
            invariant
                i <= lines@.len(),
                parts == string_seq(lines@),
                out@ == joined(parts.take(i as int), seq!['\n']),
            decreases lines@.len() - i,
        {
            if i > 0 {
                out.push('\n');
            }
            extend_chars(&mut out, &chars_of(lines[i].as_str()));
            assert(parts.take(i + 1).drop_last() =~= parts.take(i as int));
            if i == 0 {
                assert(parts.take(1) =~= seq![parts[0]]);
            }
            assert(out@ =~= joined(parts.take(i + 1), seq!['\n']));
            i += 1;
        }
        assert(parts.take(lines@.len() as int) =~= parts);
        string_of(&out)
    }

    /// The text area after `key`: where nothing was selected and the key
    /// is not undo, redo, paste, cut, copy or a page move, the lines and
    /// cursor `edited_area` names; in every case the cursor on the lines.
    pub open spec fn area_edited(self, next: Self, key: KeyEvent) -> bool {
        let ctrl = key.modifiers & KeyModifiers::CONTROL == KeyModifiers::CONTROL;
        let alt = key.modifiers & KeyModifiers::ALT == KeyModifiers::ALT;
        let shift = key.modifiers & KeyModifiers::SHIFT == KeyModifiers::SHIFT;
        &&& cursor_on_lines(next.lines_view(), next.cursor_view())
        &&& !reads_editor_state(area_key_of(key.code), ctrl, alt) ==> (area_selecting(self.area) || (
        next.lines_view(),
        next.cursor_view().0,
        next.cursor_view().1,
        ) == edited_area(
            self.lines_view(),
            self.cursor_view().0,
            self.cursor_view().1,
            area_key_of(key.code),
            ctrl,
            alt,
            shift,
        ))
    }

    /// The effect of a key: Esc cancels; Tab and BackTab switch between
    /// the text area and the buttons; on the buttons Enter saves (Save) or
    /// cancels (Cancel) and Left/Right pick the button; in the text area
    /// every other key edits the text.
    pub open spec fn key_step(self, next: Self, key: KeyEvent, r: DialogResult<Option<String>>) -> bool {
            match key.code {
                KeyCode::Esc => r is Cancel && next == self,
                KeyCode::Tab | KeyCode::BackTab => r is Continue && next == (
                CustomInstructionDialog {
                    focused_zone: if self.focused_zone == 0 {
                        1usize
                    } else {
                        0usize
                    },
                    ..self
                }),
                _ => if self.focused_zone == 1 {
                    match key.code {
                        KeyCode::Enter => next == self && if self.focused_button == 0 {
                            match self.saved_value() {
                                None => r matches DialogResult::Submit(v) && v is None,
                                Some(t) => r matches DialogResult::Submit(v) && (v matches Some(s)
                                    && s@ == t),
                            }
                        } else {
                            r is Cancel
                        },
                        KeyCode::Left => r is Continue && next == (CustomInstructionDialog {
                            focused_button: 0,
                            ..self
                        }),
                        KeyCode::Right => r is Continue && next == (CustomInstructionDialog {
                            focused_button: 1,
                            ..self
                        }),
                        _ => r is Continue && next == self,
                    }
                } else if self.focused_zone == 0 {
                    r is Continue && next.focused_zone == 0 && next.focused_button
                        == self.focused_button && self.area_edited(next, key)
                } else {
                    r is Continue && next == self
                },
            }
    }

    /// Handles one key press.
    pub fn handle_key(&mut self, key: KeyEvent) -> (r: DialogResult<Option<String>>)
        ensures
            old(self).key_step(*final(self), key, r),

    {
        match key.code {
            KeyCode::Esc => {
                return DialogResult::Cancel;
            },
            KeyCode::Tab | KeyCode::BackTab => {
                self.focused_zone = if self.focused_zone == 0 {
                    1
                } else {
                    0
                };
                return DialogResult::Continue;
            },
            _ => {},
        }
        if self.focused_zone == 1 {
            match key.code {
                KeyCode::Enter => {
                    if self.focused_button == 0 {
                        let text = self.get_text();
                        let trimmed = trim(&chars_of(text.as_str()));
                        if trimmed.len() == 0 {
                            DialogResult::Submit(None)
                        } else {
                            DialogResult::Submit(Some(text))
                        }
                    } else {
                        DialogResult::Cancel
                    }
                },
                KeyCode::Left => {
                    self.focused_button = 0;
                    DialogResult::Continue
                },
                KeyCode::Right => {
                    self.focused_button = 1;
                    DialogResult::Continue
                },
                _ => DialogResult::Continue,
            }
        } else if self.focused_zone == 0 {
            let ctrl = has_modifier(key.modifiers, KeyModifiers::CONTROL);
            let alt = has_modifier(key.modifiers, KeyModifiers::ALT);
            let shift = has_modifier(key.modifiers, KeyModifiers::SHIFT);
            area_input(&mut self.area, area_key(key.code), ctrl, alt, shift);
            DialogResult::Continue
        } else {
            DialogResult::Continue
        }
    }
}

/// `v` kept within `lo` and `hi`, the upper bound winning.
pub open spec fn clamp_to(v: int, lo: int, hi: int) -> int {
    let at_least = if v >= lo {
        v
    } else {
        lo
    };
    if at_least <= hi {
        at_least
    } else {
        hi
    }
}

/// The editor's size in an area `area_width` by `area_height`: 70% of
/// the width (at least 40 columns) and 60% of the height (at least 10
/// rows), never more than the area.
pub fn dialog_size(area_width: u16, area_height: u16) -> (r: (u16, u16))
    requires
        area_width * 70 <= u16::MAX,
        area_height * 60 <= u16::MAX,
    ensures
        r.0 == clamp_to(area_width * 70 / 100, 40, area_width as int),
        r.1 == clamp_to(area_height * 60 / 100, 10, area_height as int),
{
    let w0 = area_width * 70 / 100;
    let w1 = if w0 >= 40 {
        w0
    } else {
        40
    };
    let w = if w1 <= area_width {
        w1
    } else {
        area_width
    };
    let h0 = area_height * 60 / 100;
    let h1 = if h0 >= 10 {
        h0
    } else {
        10
    };
    let h = if h1 <= area_height {
        h1
    } else {
        area_height
    };
    (w, h)
}

impl CustomInstructionDialog {
    /// Which parts are drawn focused: the text area (in the text zone),
    /// the Save button and the Cancel button (in the button zone, the
    /// focused one).
    pub fn focus_marks(&self) -> (r: (bool, bool, bool))
        ensures
            r == (self.focused_zone == 0, self.focused_zone == 1 && self.focused_button == 0, self.focused_zone == 1
                && self.focused_button == 1),
    {
        (self.focused_zone == 0, self.focused_zone == 1 && self.focused_button == 0, self.focused_zone == 1
            && self.focused_button == 1)
    }
}

} // verus!
