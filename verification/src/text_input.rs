//! A single-line text input (a value and a cursor) edited by key presses,
//! and the ghost-text completion of group names typed into such an input.

use crate::keys::{KeyCode, KeyEvent};
use crate::text::{chars_of, is_prefix, string_of, extend_chars};
use tui_input::backend::crossterm::EventHandler;
use vstd::prelude::*;

verus! {

broadcast use vstd::string::group_string_axioms;

/// The keys that edit or move within a text input.
#[derive(PartialEq, Eq, Structural, Clone, Copy, Debug)]
pub enum EditKey {
    Backspace,
    Delete,
    Tab,
    Left,
    Right,
    Home,
    End,
    Char(char),
}

/// The text and cursor (in characters) that the `tui_input` editor holds
/// after it handles `key` with `modifiers` on `value` with the cursor at
/// `cursor`, for every key but the one that pastes the cut text.
pub uninterp spec fn edited_input(value: Seq<char>, cursor: nat, key: EditKey, modifiers: u8) -> (
    Seq<char>,
    nat,
);

/// The display column of the cursor, as `tui_input` measures it (the
/// display width of the text before the cursor).
pub uninterp spec fn input_visual_cursor(value: Seq<char>, cursor: nat) -> nat;

/// The text a `tui_input` editor holds.
pub uninterp spec fn input_text(editor: tui_input::Input) -> Seq<char>;

/// The number of characters before the cursor of a `tui_input` editor.
pub uninterp spec fn input_cursor(editor: tui_input::Input) -> nat;

/// The `tui_input` editor: its text, its cursor, the text last cut
/// (pasted back by Ctrl+Y) and whether the last edit was a cut.
#[verifier::external_type_specification]
#[verifier::external_body]
pub struct ExInput(tui_input::Input);

/// The key that pastes the text last cut: Ctrl+Y (the modifier bits above
/// the six that crossterm defines are dropped on the way to the editor).
pub open spec fn is_paste_key(key: EditKey, modifiers: u8) -> bool {
    key == EditKey::Char('y') && modifiers % 64 == 2
}

/// `tui_input::Input::new`: an editor holding `value`, with the cursor at
/// its end and nothing cut yet.
#[verifier::external_body]
fn new_editor(value: String) -> (r: tui_input::Input)
    ensures
        input_text(r) == value@,
        input_cursor(r) == value@.len(),
{
    tui_input::Input::new(value)
}

/// `tui_input::Input::with_cursor`: the cursor moved to `cursor`, or to
/// the end where the text is shorter; the text stays.
#[verifier::external_body]
fn editor_with_cursor(editor: tui_input::Input, cursor: usize) -> (r: tui_input::Input)
    ensures
        input_text(r) == input_text(editor),
        input_cursor(r) == if cursor <= input_text(editor).len() {
            cursor as nat
        } else {
            input_text(editor).len()
        },
{
    editor.with_cursor(cursor)
}

/// `tui_input::Input::value`: the text.
#[verifier::external_body]
fn editor_value(editor: &tui_input::Input) -> (r: &str)
    ensures
        r@ == input_text(*editor),
{
    editor.value()
}

/// `tui_input::Input::cursor`: the characters before the cursor, never
/// more than the text has.
#[verifier::external_body]
fn editor_cursor(editor: &tui_input::Input) -> (r: usize)
    ensures
        r as nat == input_cursor(*editor),
        r <= input_text(*editor).len(),
{
    editor.cursor()
}

/// `tui_input::Input::visual_cursor`.  The contract only names the result.
#[verifier::external_body]
fn editor_visual_cursor(editor: &tui_input::Input) -> (r: usize)
    ensures
        r as nat == input_visual_cursor(input_text(*editor), input_cursor(*editor)),
{
    editor.visual_cursor()
}

/// Hands one key press to `tui_input::Input::handle_event`.  For every
/// key but Ctrl+Y the new text and cursor depend on the old ones alone
/// (the cut text and whether the last edit was a cut only feed Ctrl+Y),
/// and are named by `edited_input`.  Ctrl+Y puts the text last cut back
/// at the cursor and moves the cursor past it; that text lives inside the
/// editor, so the contract states this for some text.  The cursor never
/// passes the end of the text.
#[verifier::external_body]
fn editor_handle_key(editor: &mut tui_input::Input, key: EditKey, modifiers: u8)
    ensures
        !is_paste_key(key, modifiers) ==> (input_text(*final(editor)), input_cursor(*final(editor)))
            == edited_input(input_text(*old(editor)), input_cursor(*old(editor)), key, modifiers),
        is_paste_key(key, modifiers) ==> exists|y: Seq<char>|
            input_text(*final(editor)) == input_text(*old(editor)).take(input_cursor(*old(editor)) as int) + y
                + input_text(*old(editor)).skip(input_cursor(*old(editor)) as int)
            && input_cursor(*final(editor)) == input_cursor(*old(editor)) + y.len(),
        input_cursor(*final(editor)) <= input_text(*final(editor)).len(),
{
    let code = match key {
        EditKey::Backspace => crossterm::event::KeyCode::Backspace,
        EditKey::Delete => crossterm::event::KeyCode::Delete,
        EditKey::Tab => crossterm::event::KeyCode::Tab,
        EditKey::Left => crossterm::event::KeyCode::Left,
        EditKey::Right => crossterm::event::KeyCode::Right,
        EditKey::Home => crossterm::event::KeyCode::Home,
        EditKey::End => crossterm::event::KeyCode::End,
        EditKey::Char(c) => crossterm::event::KeyCode::Char(c),
    };
    let mods = crossterm::event::KeyModifiers::from_bits_truncate(modifiers);
    editor.handle_event(&crossterm::event::Event::Key(crossterm::event::KeyEvent::new(code, mods)));
}

/// The editing key a key code stands for; `tui_input` turns no other key
/// into an edit.
pub open spec fn edit_key_of(code: KeyCode) -> Option<EditKey> {
    match code {
        KeyCode::Backspace => Some(EditKey::Backspace),
        KeyCode::Delete => Some(EditKey::Delete),
        KeyCode::Tab => Some(EditKey::Tab),
        KeyCode::Left => Some(EditKey::Left),
        KeyCode::Right => Some(EditKey::Right),
        KeyCode::Home => Some(EditKey::Home),
        KeyCode::End => Some(EditKey::End),
        KeyCode::Char(c) => Some(EditKey::Char(c)),
        _ => None,
    }
}

/// Text and cursor after a key press: the editor's result for editing
/// keys, unchanged for any other key.
pub open spec fn after_key(value: Seq<char>, cursor: nat, key: KeyEvent) -> (Seq<char>, nat) {
    match edit_key_of(key.code) {
        Some(k) => edited_input(value, cursor, k, key.modifiers),
        None => (value, cursor),
    }
}

/// Whether `key` is Ctrl+Y, which pastes the text last cut.
pub open spec fn pastes(key: KeyEvent) -> bool {
    edit_key_of(key.code) matches Some(k) && is_paste_key(k, key.modifiers)
}

/// `new_text` and `new_cursor` follow from `text` and `cursor` by the key
/// press `key`: as `after_key` gives them for every key but Ctrl+Y, which
/// puts some text (the text last cut) in at the cursor and moves the
/// cursor past it.
pub open spec fn key_edits(text: Seq<char>, cursor: nat, key: KeyEvent, new_text: Seq<char>, new_cursor: nat) -> bool {
    if pastes(key) {
        exists|y: Seq<char>|
            new_text == text.take(cursor as int) + y + text.skip(cursor as int) && new_cursor == cursor + y.len()
    } else {
        (new_text, new_cursor) == after_key(text, cursor, key)
    }
}

fn edit_key(code: KeyCode) -> (r: Option<EditKey>)
    ensures
        r == edit_key_of(code),
{
    match code {
        KeyCode::Backspace => Some(EditKey::Backspace),
        KeyCode::Delete => Some(EditKey::Delete),
        KeyCode::Tab => Some(EditKey::Tab),
        KeyCode::Left => Some(EditKey::Left),
        KeyCode::Right => Some(EditKey::Right),
        KeyCode::Home => Some(EditKey::Home),
        KeyCode::End => Some(EditKey::End),
        KeyCode::Char(c) => Some(EditKey::Char(c)),
        _ => None,
    }
}

/// A single-line text input: the `tui_input` editor holding its text,
/// the cursor (counted in characters before it) and the text last cut.
pub struct TextInput {
    editor: tui_input::Input,
}

impl TextInput {
    /// The text.
    pub closed spec fn text(self) -> Seq<char> {
        input_text(self.editor)
    }

    /// The number of characters before the cursor.
    pub closed spec fn cursor_pos(self) -> nat {
        input_cursor(self.editor)
    }

    /// An input holding `value`, with the cursor at its end.
    pub fn new(value: String) -> (r: TextInput)
        ensures
            r.text() == value@,
            r.cursor_pos() == value@.len(),
    {
        TextInput { editor: new_editor(value) }
    }

    /// The same text with the cursor at `cursor`, or at the end where the
    /// text is shorter.
    pub fn with_cursor(self, cursor: usize) -> (r: TextInput)
        ensures
            r.text() == self.text(),
            r.cursor_pos() == if cursor <= self.text().len() {
                cursor as nat
            } else {
                self.text().len()
            },
    {
        TextInput { editor: editor_with_cursor(self.editor, cursor) }
    }

    /// The text.
    pub fn value(&self) -> (r: &str)
        ensures
            r@ == self.text(),
    {
        editor_value(&self.editor)
    }

    /// The number of characters before the cursor.
    pub fn cursor(&self) -> (r: usize)
        ensures
            r == self.cursor_pos(),
            r <= self.text().len(),
    {
        editor_cursor(&self.editor)
    }

    /// The display column of the cursor.
    pub fn visual_cursor(&self) -> (r: usize)
        ensures
            r == input_visual_cursor(self.text(), self.cursor_pos()),
    {
        editor_visual_cursor(&self.editor)
    }

    /// Edits the text with one key press: editing and cursor keys go to
    /// the editor, any other key changes nothing.  Ctrl+Y puts the text
    /// last cut (by Ctrl+U, Ctrl+W, Ctrl+K and the like) back at the
    /// cursor.
    pub fn handle_key(&mut self, key: KeyEvent)
        ensures
            key_edits(old(self).text(), old(self).cursor_pos(), key, final(self).text(), final(self).cursor_pos()),
    {
        match edit_key(key.code) {
            Some(k) => {
                editor_handle_key(&mut self.editor, k, key.modifiers);
            },
            None => {},
        }
    }
}

impl Default for TextInput {
    /// An empty input.
    fn default() -> (r: TextInput)
        ensures
            r.text() == Seq::<char>::empty(),
            r.cursor_pos() == 0,
    {
        TextInput { editor: new_editor(String::new()) }
    }
}

// ---------------------------------------------------------------------
// Longest common prefix
// ---------------------------------------------------------------------

/// The number of leading characters that `a` and `b` share.
pub open spec fn pair_common_len(a: Seq<char>, b: Seq<char>) -> nat
    decreases a.len(),
{
    if a.len() == 0 || b.len() == 0 || a[0] != b[0] {
        0
    } else {
        1 + pair_common_len(a.drop_first(), b.drop_first())
    }
}

/// The shortest of `first.len()` and the shared lengths of `first` with
/// each value.
pub open spec fn min_common_len(first: Seq<char>, vals: Seq<Seq<char>>) -> nat
    decreases vals.len(),
{
    if vals.len() == 0 {
        first.len()
    } else {
        let rest = min_common_len(first, vals.drop_last());
        let here = pair_common_len(first, vals.last());
        if here < rest {
            here
        } else {
            rest
        }
    }
}

/// The longest common prefix of `vals`; empty for no values.
pub open spec fn lcp_spec(vals: Seq<Seq<char>>) -> Seq<char> {
    if vals.len() == 0 {
        Seq::empty()
    } else {
        vals[0].take(min_common_len(vals[0], vals) as int)
    }
}

/// `p` is a prefix of every value.
pub open spec fn is_common_prefix(p: Seq<char>, vals: Seq<Seq<char>>) -> bool {
    forall|j: int| 0 <= j < vals.len() ==> is_prefix(p, #[trigger] vals[j])
}

/// The first `k` characters of `first` are a prefix of `v` exactly when
/// `first` and `v` share at least `k` leading characters.
pub proof fn lemma_take_prefix_iff(first: Seq<char>, v: Seq<char>, k: nat)
    requires
        k <= first.len(),
    ensures
        is_prefix(first.take(k as int), v) <==> k <= pair_common_len(first, v),
    decreases k,
{
    if k == 0 {
        assert(v.take(0) =~= first.take(0));
    } else if v.len() == 0 {
    } else if first[0] != v[0] {
        if is_prefix(first.take(k as int), v) {
            assert(v.take(k as int)[0] == first.take(k as int)[0]);
        }
    } else {
        lemma_take_prefix_iff(first.drop_first(), v.drop_first(), (k - 1) as nat);
        let a = first.take(k as int);
        let a1 = first.drop_first().take(k - 1);
        if is_prefix(a, v) {
            assert(v.drop_first().take(k - 1) =~= a1) by {
                assert forall|i: int| 0 <= i < k - 1 implies v.drop_first().take(k - 1)[i] == a1[i] by {
                    assert(v.take(k as int)[i + 1] == a[i + 1]);
                }
            }
        }
        if k <= pair_common_len(first, v) {
            assert(is_prefix(a1, v.drop_first()));
            assert(v.take(k as int) =~= a) by {
                assert forall|i: int| 0 <= i < k implies v.take(k as int)[i] == a[i] by {
                    if i > 0 {
                        assert(v.drop_first().take(k - 1)[i - 1] == a1[i - 1]);
                    }
                }
            }
        }
    }
}

proof fn lemma_min_common_len_bounds(first: Seq<char>, vals: Seq<Seq<char>>)
    ensures
        min_common_len(first, vals) <= first.len(),
        forall|j: int| 0 <= j < vals.len() ==> min_common_len(first, vals) <= pair_common_len(first, #[trigger] vals[j]),
        min_common_len(first, vals) == first.len() || exists|j: int|
            0 <= j < vals.len() && min_common_len(first, vals) == pair_common_len(first, #[trigger] vals[j]),
    decreases vals.len(),
{
    if vals.len() > 0 {
        let rest = vals.drop_last();
        lemma_min_common_len_bounds(first, rest);
        assert forall|j: int| 0 <= j < vals.len() implies min_common_len(first, vals) <= pair_common_len(first, #[trigger] vals[j]) by {
            if j < vals.len() - 1 {
                assert(rest[j] == vals[j]);
            }
        }
        let m = min_common_len(first, vals);
        if m != first.len() {
            if m == pair_common_len(first, vals.last()) {
                assert(vals[vals.len() - 1] == vals.last());
            } else {
                let j = choose|j: int| 0 <= j < rest.len() && min_common_len(first, rest) == pair_common_len(first, #[trigger] rest[j]);
                assert(rest[j] == vals[j]);
            }
        }
    }
}

/// The longest common prefix is a prefix of every value, and no longer
/// prefix of the first value is.
pub proof fn longest_common_prefix_is_longest(vals: Seq<Seq<char>>)
    requires
        vals.len() > 0,
    ensures
        is_common_prefix(lcp_spec(vals), vals),
        lcp_spec(vals).len() < vals[0].len() ==> !is_common_prefix(
            vals[0].take((lcp_spec(vals).len() + 1) as int),
            vals,
        ),
{
    let first = vals[0];
    let m = min_common_len(first, vals);
    lemma_min_common_len_bounds(first, vals);
    assert forall|j: int| 0 <= j < vals.len() implies is_prefix(lcp_spec(vals), #[trigger] vals[j]) by {
        lemma_take_prefix_iff(first, vals[j], m);
    }
    if m < first.len() {
        let j = choose|j: int| 0 <= j < vals.len() && m == pair_common_len(first, #[trigger] vals[j]);
        lemma_take_prefix_iff(first, vals[j], m + 1);
        assert(lcp_spec(vals).len() == m);
    }
}

fn common_len(a: &Vec<char>, b: &Vec<char>) -> (r: usize)
    ensures
        r == pair_common_len(a@, b@),
        r <= a.len(),
{
    let mut i: usize = 0;
    proof {
        assert(a@.skip(0) =~= a@);
        assert(b@.skip(0) =~= b@);
    }
    while i < a.len() && i < b.len() && a[i] == b[i]
        invariant
            i <= a.len(),
            i <= b.len(),
            pair_common_len(a@, b@) == i + pair_common_len(a@.skip(i as int), b@.skip(i as int)),
        decreases a.len() - i,
    {
        assert(a@.skip(i as int).drop_first() =~= a@.skip(i + 1));
        assert(b@.skip(i as int).drop_first() =~= b@.skip(i + 1));
        i += 1;
    }
    i
}

/// The views of a slice of strings.
pub open spec fn string_seq(v: Seq<String>) -> Seq<Seq<char>> {
    v.map_values(|s: String| s@)
}

/// The longest common prefix of `values`; empty for no values.
pub fn longest_common_prefix(values: &[String]) -> (r: String)
    ensures
        r@ == lcp_spec(string_seq(values@)),
{
    let ghost vals = string_seq(values@);
    if values.len() == 0 {
        return String::new();
    }
    let first = chars_of(values[0].as_str());
    let mut k: usize = first.len();
    let mut i: usize = 0;
    assert(vals.take(0) =~= Seq::<Seq<char>>::empty());
    while i < values.len()
        invariant
            i <= values@.len(),
            vals == string_seq(values@),
            first@ == vals[0],
            k == min_common_len(first@, vals.take(i as int)),
            k <= first@.len(),
        decreases values@.len() - i,
    {
        let v = chars_of(values[i].as_str());
        let c = common_len(&first, &v);
        assert(vals.take(i + 1).drop_last() =~= vals.take(i as int));
        assert(vals.take(i + 1).last() == vals[i as int]);
        if c < k {
            k = c;
        }
        i += 1;
    }
    assert(vals.take(values@.len() as int) =~= vals);
    let mut out: Vec<char> = Vec::new();
    let mut j: usize = 0;
    while j < k
        invariant
            j <= k,
            k <= first@.len(),
            out@ == first@.take(j as int),
        decreases k - j,
    {
        out.push(first[j]);
        j += 1;
        assert(out@ =~= first@.take(j as int));
    }
    string_of(&out)
}

// ---------------------------------------------------------------------
// Ghost completion of group names
// ---------------------------------------------------------------------

/// `a` comes before `b` in lexicographic character order.
pub open spec fn lex_lt(a: Seq<char>, b: Seq<char>) -> bool
    decreases a.len(),
{
    if a.len() == 0 {
        b.len() > 0
    } else if b.len() == 0 {
        false
    } else if a[0] != b[0] {
        (a[0] as int) < (b[0] as int)
    } else {
        lex_lt(a.drop_first(), b.drop_first())
    }
}

/// The first of `vals` in lexicographic order.
pub open spec fn lex_min(vals: Seq<Seq<char>>) -> Seq<char>
    decreases vals.len(),
{
    if vals.len() <= 1 {
        vals[0]
    } else {
        let rest = lex_min(vals.drop_last());
        if lex_lt(vals.last(), rest) {
            vals.last()
        } else {
            rest
        }
    }
}

/// The groups that start with `value`, in their order.
pub open spec fn matching_groups(groups: Seq<Seq<char>>, value: Seq<char>) -> Seq<Seq<char>>
    decreases groups.len(),
{
    if groups.len() == 0 {
        groups
    } else {
        let rest = matching_groups(groups.drop_last(), value);
        if is_prefix(value, groups.last()) {
            rest.push(groups.last())
        } else {
            rest
        }
    }
}

/// The text suggested after `value`: the rest of the single match; else
/// the rest of the matches' common prefix where it is longer than
/// `value`; else the rest of the first match in sorted order.
pub open spec fn suggestion(groups: Seq<Seq<char>>, value: Seq<char>) -> Seq<char> {
    let m = matching_groups(groups, value);
    if m.len() == 1 {
        m[0].skip(value.len() as int)
    } else if lcp_spec(m).len() > value.len() {
        lcp_spec(m).skip(value.len() as int)
    } else {
        lex_min(m).skip(value.len() as int)
    }
}

/// The ghost text shown after `value` when the cursor stands at display
/// column `visual_cursor`: none without groups, for an empty value, when
/// the cursor is not at the end, when no group starts with the value, or
/// when the suggestion is empty.
pub open spec fn ghost_for(groups: Seq<Seq<char>>, value: Seq<char>, visual_cursor: nat) -> Option<
    Seq<char>,
> {
    if groups.len() == 0 || value.len() == 0 || visual_cursor < value.len() || matching_groups(
        groups,
        value,
    ).len() == 0 || suggestion(groups, value).len() == 0 {
        None
    } else {
        Some(suggestion(groups, value))
    }
}

proof fn lemma_matching_in_groups(groups: Seq<Seq<char>>, value: Seq<char>)
    ensures
        forall|i: int|
            0 <= i < matching_groups(groups, value).len() ==> is_prefix(value, #[trigger] matching_groups(groups, value)[i])
                && groups.contains(matching_groups(groups, value)[i]),
    decreases groups.len(),
{
    if groups.len() > 0 {
        let rest = groups.drop_last();
        lemma_matching_in_groups(rest, value);
        let m = matching_groups(groups, value);
        assert forall|i: int| 0 <= i < m.len() implies is_prefix(value, #[trigger] m[i]) && groups.contains(m[i]) by {
            let mr = matching_groups(rest, value);
            if i < mr.len() {
                assert(m[i] == mr[i]);
                let k = choose|k: int| 0 <= k < rest.len() && rest[k] == mr[i];
                assert(groups[k] == rest[k]);
            } else {
                assert(m[i] == groups.last());
                assert(groups[groups.len() - 1] == groups.last());
            }
        }
    }
}

pub proof fn lemma_lex_min_member(vals: Seq<Seq<char>>)
    requires
        vals.len() > 0,
    ensures
        vals.contains(lex_min(vals)),
    decreases vals.len(),
{
    if vals.len() > 1 {
        lemma_lex_min_member(vals.drop_last());
        let k = choose|k: int| 0 <= k < vals.drop_last().len() && vals.drop_last()[k] == lex_min(vals.drop_last());
        assert(vals[k] == vals.drop_last()[k]);
        assert(vals[vals.len() - 1] == vals.last());
    } else {
        assert(vals[0] == lex_min(vals));
    }
}

/// A pending ghost completion: the input it was computed for and the
/// text that accepting it appends.
pub struct GroupGhostCompletion {
    input_snapshot: String,
    cursor_snapshot: usize,
    ghost_text: String,
}

impl GroupGhostCompletion {
    /// The input text the completion was computed for.
    pub closed spec fn snapshot(self) -> Seq<char> {
        self.input_snapshot@
    }

    /// The cursor column the completion was computed for.
    pub closed spec fn snapshot_cursor(self) -> nat {
        self.cursor_snapshot as nat
    }

    /// The text that accepting appends.
    pub closed spec fn ghost(self) -> Seq<char> {
        self.ghost_text@
    }

    /// The completion of `value` against `existing_groups` with the
    /// cursor at display column `visual_cursor`.
    pub fn compute_at(value: &str, visual_cursor: usize, existing_groups: &[String]) -> (r: Option<
        GroupGhostCompletion,
    >)
        ensures
            match ghost_for(string_seq(existing_groups@), value@, visual_cursor as nat) {
                None => r is None,
                Some(g) => r matches Some(c) && c.snapshot() == value@ && c.snapshot_cursor()
                    == value@.len() && c.ghost() == g,
            },
    {
        let ghost groups = string_seq(existing_groups@);
        if existing_groups.len() == 0 {
            return None;
        }
        let v = chars_of(value);
        if v.len() == 0 {
            return None;
        }
        let char_len = v.len();
        let cursor_char = if visual_cursor < char_len {
            visual_cursor
        } else {
            char_len
        };
        if cursor_char < char_len {
            return None;
        }
        let mut matches: Vec<String> = Vec::new();
        let mut i: usize = 0;
        while i < existing_groups.len()
            invariant
                i <= existing_groups@.len(),
                groups == string_seq(existing_groups@),
                v@ == value@,
                string_seq(matches@) == matching_groups(groups.take(i as int), value@),
            decreases existing_groups@.len() - i,
        {
            let g = chars_of(existing_groups[i].as_str());
            assert(groups.take(i + 1).drop_last() =~= groups.take(i as int));
            assert(groups.take(i + 1).last() == groups[i as int]);
            if crate::text::starts_with(&g, &v) {
                let ghost before = matches@;
                matches.push(existing_groups[i].clone());
                assert(string_seq(matches@) =~= string_seq(before).push(groups[i as int]));
            }
            i += 1;
        }
        assert(groups.take(existing_groups@.len() as int) =~= groups);
        if matches.len() == 0 {
            return None;
        }
        let ghost m = string_seq(matches@);
        let chosen: Vec<char> = if matches.len() == 1 {
            chars_of(matches[0].as_str())
        } else {
            let common = chars_of(longest_common_prefix(matches.as_slice()).as_str());
            if common.len() > char_len {
                common
            } else {
                lex_first(&matches)
            }
        };
        proof {
            lemma_matching_in_groups(groups, value@);
            if m.len() > 1 && lcp_spec(m).len() <= value@.len() {
                lemma_lex_min_member(m);
            }
            longest_common_prefix_is_longest(m);
            assert(is_prefix(value@, m[0]));
        }
        assert(chosen@.len() >= char_len) by {
            if m.len() > 1 && lcp_spec(m).len() <= value@.len() {
                let k = choose|k: int| 0 <= k < m.len() && m[k] == lex_min(m);
                assert(is_prefix(value@, m[k]));
            }
        }
        let mut rest: Vec<char> = Vec::new();
        let mut j: usize = char_len;
        while j < chosen.len()
            invariant
                char_len <= j <= chosen@.len(),
                rest@ == chosen@.subrange(char_len as int, j as int),
            decreases chosen@.len() - j,
        {
            rest.push(chosen[j]);
            j += 1;
            assert(rest@ =~= chosen@.subrange(char_len as int, j as int));
        }
        assert(rest@ =~= chosen@.skip(char_len as int));
        if rest.len() == 0 {
            return None;
        }
        Some(
            GroupGhostCompletion {
                input_snapshot: string_of(&v),
                cursor_snapshot: cursor_char,
                ghost_text: string_of(&rest),
            },
        )
    }

    /// The completion of the input's text against `existing_groups`, or
    /// `None` where there is nothing to suggest.
    pub fn compute(input: &TextInput, existing_groups: &[String]) -> (r: Option<GroupGhostCompletion>)
        ensures
            match ghost_for(
                string_seq(existing_groups@),
                input.text(),
                input_visual_cursor(input.text(), input.cursor_pos()),
            ) {
                None => r is None,
                Some(g) => r matches Some(c) && c.snapshot() == input.text() && c.snapshot_cursor()
                    == input.text().len() && c.ghost() == g,
            },
    {
        let vc = input.visual_cursor();
        GroupGhostCompletion::compute_at(input.value(), vc, existing_groups)
    }

    /// Accepting the completion on `value` with the cursor at display
    /// column `visual_cursor`: the completed text, or `None` where the
    /// input changed since the completion was computed.
    pub fn accept_at(self, value: &str, visual_cursor: usize) -> (r: Option<String>)
        ensures
            ({
                let n = value@.len();
                let col = if (visual_cursor as nat) < n {
                    visual_cursor as nat
                } else {
                    n
                };
                if self.snapshot() == value@ && self.snapshot_cursor() == col {
                    r matches Some(s) && s@ == value@ + self.ghost()
                } else {
                    r is None
                }
            }),
    {
        let v = chars_of(value);
        let n = v.len();
        let col = if visual_cursor < n {
            visual_cursor
        } else {
            n
        };
        let snap = chars_of(self.input_snapshot.as_str());
        if !crate::text::chars_eq(&snap, &v) || self.cursor_snapshot != col {
            return None;
        }
        let mut out = v;
        extend_chars(&mut out, &chars_of(self.ghost_text.as_str()));
        Some(string_of(&out))
    }

    /// Accepting the completion on the input: the completed text, or
    /// `None` where the input changed since the completion was computed.
    pub fn accept(self, input: &TextInput) -> (r: Option<String>)
        ensures
            ({
                let n = input.text().len();
                let vc = input_visual_cursor(input.text(), input.cursor_pos());
                let col = if vc < n {
                    vc
                } else {
                    n
                };
                if self.snapshot() == input.text() && self.snapshot_cursor() == col {
                    r matches Some(s) && s@ == input.text() + self.ghost()
                } else {
                    r is None
                }
            }),
    {
        let vc = input.visual_cursor();
        self.accept_at(input.value(), vc)
    }

    /// The text that accepting appends.
    pub fn ghost_text(&self) -> (r: &str)
        ensures
            r@ == self.ghost(),
    {
        self.ghost_text.as_str()
    }
}

/// The first of `vals` in lexicographic order.
pub fn lex_first(vals: &Vec<String>) -> (r: Vec<char>)
    requires
        vals.len() > 0,
    ensures
        r@ == lex_min(string_seq(vals@)),
{
    let ghost sv = string_seq(vals@);
    let mut best = chars_of(vals[0].as_str());
    let mut i: usize = 1;
    assert(sv.take(1) =~= seq![sv[0]]);
    while i < vals.len()
        invariant
            1 <= i <= vals@.len(),
            sv == string_seq(vals@),
            best@ == lex_min(sv.take(i as int)),
        decreases vals@.len() - i,
    {
        let c = chars_of(vals[i].as_str());
        assert(sv.take(i + 1).drop_last() =~= sv.take(i as int));
        assert(sv.take(i + 1).last() == sv[i as int]);
        if lex_less(&c, &best) {
            best = c;
        }
        i += 1;
    }
    assert(sv.take(vals@.len() as int) =~= sv);
    best
}

pub fn lex_less(a: &Vec<char>, b: &Vec<char>) -> (r: bool)
    ensures
        r == lex_lt(a@, b@),
{
    let mut i: usize = 0;
    proof {
        assert(a@.skip(0) =~= a@);
        assert(b@.skip(0) =~= b@);
    }
    while i < a.len() && i < b.len()
        invariant
            i <= a.len(),
            i <= b.len(),
            lex_lt(a@, b@) == lex_lt(a@.skip(i as int), b@.skip(i as int)),
        decreases a.len() - i,
    {
        if a[i] != b[i] {
            return a[i] < b[i];
        }
        assert(a@.skip(i as int).drop_first() =~= a@.skip(i + 1));
        assert(b@.skip(i as int).drop_first() =~= b@.skip(i + 1));
        i += 1;
    }
    i == a.len() && i < b.len()
}

/// Accepting a freshly computed ghost text completes the input to a
/// prefix of one of the existing groups, and a completion never stands
/// for an empty suggestion.
pub proof fn accepted_ghost_extends_to_a_group(groups: Seq<Seq<char>>, value: Seq<char>, visual_cursor: nat)
    requires
        ghost_for(groups, value, visual_cursor) is Some,
    ensures
        ({
            let g = ghost_for(groups, value, visual_cursor)->0;
            &&& g.len() > 0
            &&& exists|j: int| 0 <= j < groups.len() && is_prefix(value + g, #[trigger] groups[j])
        }),
{
    let m = matching_groups(groups, value);
    let g = suggestion(groups, value);
    lemma_matching_in_groups(groups, value);
    let target: Seq<char> = if m.len() == 1 {
        m[0]
    } else if lcp_spec(m).len() > value.len() {
        lcp_spec(m)
    } else {
        lex_min(m)
    };
    let whole: Seq<char> = if m.len() == 1 {
        m[0]
    } else if lcp_spec(m).len() > value.len() {
        m[0]
    } else {
        lex_min(m)
    };
    if m.len() > 1 && lcp_spec(m).len() <= value.len() {
        lemma_lex_min_member(m);
    }
    longest_common_prefix_is_longest(m);
    assert(m.contains(whole));
    let i = choose|i: int| 0 <= i < m.len() && m[i] == whole;
    assert(is_prefix(value, m[i]));
    assert(groups.contains(m[i]));
    let j = choose|j: int| 0 <= j < groups.len() && groups[j] == m[i];
    assert(is_prefix(target, whole)) by {
        assert(whole.take(whole.len() as int) =~= whole);
    }
    assert(is_prefix(value, target)) by {
        if m.len() > 1 && lcp_spec(m).len() > value.len() {
            assert(target.take(value.len() as int) =~= whole.take(value.len() as int));
        }
    }
    assert(value + g =~= target) by {
        assert(target.take(value.len() as int) =~= value);
    }
    assert(is_prefix(value + g, groups[j])) by {
        assert(groups[j].take(target.len() as int) =~= target) by {
            assert(whole.take(target.len() as int) =~= target);
        }
    }
}

proof fn lemma_lex_total_eq(a: Seq<char>, b: Seq<char>)
    ensures
        !lex_lt(a, b) && !lex_lt(b, a) ==> a == b,
    decreases a.len(),
{
    if a.len() > 0 && b.len() > 0 && a[0] == b[0] {
        lemma_lex_total_eq(a.drop_first(), b.drop_first());
        if !lex_lt(a, b) && !lex_lt(b, a) {
            assert(a.drop_first() =~= b.drop_first());
            assert forall|i: int| 0 <= i < a.len() implies a[i] == b[i] by {
                if i > 0 {
                    assert(a[i] == a.drop_first()[i - 1]);
                    assert(b[i] == b.drop_first()[i - 1]);
                }
            }
            assert(a =~= b);
        }
    } else if a.len() == 0 && b.len() == 0 {
        assert(a =~= b);
    } else if a.len() > 0 && b.len() > 0 {
        assert((a[0] as int) != (b[0] as int));
    }
}

proof fn lemma_lex_asym(a: Seq<char>, b: Seq<char>)
    ensures
        lex_lt(a, b) ==> !lex_lt(b, a),
    decreases a.len(),
{
    if a.len() > 0 && b.len() > 0 && a[0] == b[0] {
        lemma_lex_asym(a.drop_first(), b.drop_first());
    }
}

proof fn lemma_lex_trans(a: Seq<char>, b: Seq<char>, c: Seq<char>)
    ensures
        lex_lt(a, b) && lex_lt(b, c) ==> lex_lt(a, c),
    decreases a.len(),
{
    if a.len() > 0 && b.len() > 0 && c.len() > 0 {
        lemma_lex_trans(a.drop_first(), b.drop_first(), c.drop_first());
    }
}

/// Lexicographic order is total, asymmetric and transitive on character
/// sequences, and so is the order "not after".
pub proof fn lemma_lex_order(a: Seq<char>, b: Seq<char>, c: Seq<char>)
    ensures
        !lex_lt(a, b) && !lex_lt(b, a) ==> a == b,
        lex_lt(a, b) ==> !lex_lt(b, a),
        lex_lt(a, b) && lex_lt(b, c) ==> lex_lt(a, c),
        !lex_lt(b, a) && !lex_lt(c, b) ==> !lex_lt(c, a),
{
    lemma_lex_total_eq(a, b);
    lemma_lex_asym(a, b);
    lemma_lex_trans(a, b, c);
    lemma_lex_total_eq(b, c);
    lemma_lex_trans(c, a, b);
}

/// Where a value belongs in a sorted sequence: after every element not
/// above it, and before the first element above it.
pub proof fn lemma_lex_total(s: Seq<Seq<char>>, x: Seq<char>, pos: int)
    requires
        0 <= pos <= s.len(),
        forall|i: int, j: int| 0 <= i < j < s.len() ==> !lex_lt(s[j], s[i]),
        forall|k: int| 0 <= k < pos ==> !lex_lt(x, #[trigger] s[k]),
        pos < s.len() ==> lex_lt(x, s[pos]),
    ensures
        forall|k: int| pos <= k < s.len() ==> lex_lt(x, #[trigger] s[k]),
{
    assert forall|k: int| pos <= k < s.len() implies lex_lt(x, #[trigger] s[k]) by {
        lemma_lex_order(x, s[pos], s[k]);
        lemma_lex_order(s[pos], s[k], s[k]);
        if !lex_lt(s[pos], s[k]) {
            lemma_lex_order(s[k], s[pos], s[pos]);
        }
        lemma_lex_order(x, s[k], s[pos]);
    }
}

/// Inserting a value where it belongs keeps a sequence sorted.
pub proof fn lemma_insert_sorted(s: Seq<Seq<char>>, x: Seq<char>, pos: int)
    requires
        0 <= pos <= s.len(),
        forall|i: int, j: int| 0 <= i < j < s.len() ==> !lex_lt(s[j], s[i]),
        forall|k: int| 0 <= k < pos ==> !lex_lt(x, #[trigger] s[k]),
        forall|k: int| pos <= k < s.len() ==> lex_lt(x, #[trigger] s[k]),
    ensures
        forall|i: int, j: int| 0 <= i < j < s.insert(pos, x).len() ==> !lex_lt(s.insert(pos, x)[j], s.insert(pos, x)[i]),
{
    let t = s.insert(pos, x);
    assert forall|i: int, j: int| 0 <= i < j < t.len() implies !lex_lt(t[j], t[i]) by {
        if i < pos && j < pos {
        } else if i < pos && j == pos {
        } else if i < pos && j > pos {
            assert(t[j] == s[j - 1]);
        } else if i == pos {
            assert(t[j] == s[j - 1]);
            lemma_lex_order(x, s[j - 1], s[j - 1]);
        } else {
            assert(t[i] == s[i - 1]);
            assert(t[j] == s[j - 1]);
        }
    }
}

} // verus!
