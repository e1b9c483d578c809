//! The project path field of the new-session dialog: cursor shortcuts,
//! `~` expansion, and ghost-text completion of directory names.

use crate::keys::{has_modifier, KeyCode, KeyEvent, KeyModifiers};
use crate::paths::{join, join_spec};
use crate::text::{chars_eq, chars_of, extend_chars, is_prefix, last_index_of, rfind_char, starts_with, string_of};
use crate::text_input::{after_key, input_visual_cursor, pastes, lcp_spec, lex_min, longest_common_prefix, string_seq, TextInput};
use vstd::prelude::*;

verus! {

broadcast use vstd::string::group_string_axioms;

/// The user's home directory from `dirs::home_dir`, as text. What it
/// returns depends on the environment; the contract states nothing.
#[verifier::external_body]
fn home_dir_text() -> Option<String> {
    match dirs::home_dir() {
        Some(h) => Some(h.to_string_lossy().to_string()),
        None => None,
    }
}

/// The view of an optional string.
pub open spec fn opt_view(o: Option<String>) -> Option<Seq<char>> {
    match o {
        Some(s) => Some(s@),
        None => None,
    }
}

/// The view of an optional list of strings.
pub open spec fn opt_listing(o: Option<Vec<String>>) -> Option<Seq<Seq<char>>> {
    match o {
        Some(l) => Some(string_seq(l@)),
        None => None,
    }
}

/// The view of optional characters.
pub open spec fn opt_chars(o: Option<Vec<char>>) -> Option<Seq<char>> {
    match o {
        Some(v) => Some(v@),
        None => None,
    }
}

/// `path` with a leading `~` (alone or followed by `/`) replaced by the
/// home directory, where one is known.
pub open spec fn tilde_expanded(path: Seq<char>, home: Option<Seq<char>>) -> Seq<char> {
    if path == "~"@ {
        match home {
            Some(h) => h,
            None => path,
        }
    } else if is_prefix("~/"@, path) {
        match home {
            Some(h) => join_spec(h, path.skip(2)),
            None => path,
        }
    } else {
        path
    }
}

/// Expands a leading `~` in `path` with the home directory `home`.
pub fn expand_tilde_with(path: &str, home: Option<String>) -> (r: String)
    ensures
        r@ == tilde_expanded(path@, opt_view(home)),
{
    proof {
        reveal_strlit("~");
        reveal_strlit("~/");
    }
    let p = chars_of(path);
    if chars_eq(&p, &chars_of("~")) {
        return match home {
            Some(h) => h,
            None => path.to_string(),
        };
    }
    if starts_with(&p, &chars_of("~/")) {
        return match home {
            Some(h) => {
                let mut rest: Vec<char> = Vec::new();
                let mut i: usize = 2;
                while i < p.len()
                    invariant
                        2 <= i <= p.len(),
                        rest@ == p@.subrange(2, i as int),
                    decreases p.len() - i,
                {
                    rest.push(p[i]);
                    i += 1;
                    assert(rest@ =~= p@.subrange(2, i as int));
                }
                assert(rest@ =~= p@.skip(2));
                string_of(&join(&chars_of(h.as_str()), &rest))
            },
            None => path.to_string(),
        };
    }
    path.to_string()
}

/// Expands a leading `~` in `path` with the user's home directory.
pub fn expand_tilde(path: &str) -> (r: String)
    ensures
        exists|home: Option<Seq<char>>| r@ == tilde_expanded(path@, home),
{
    let home = home_dir_text();
    let r = expand_tilde_with(path, home);
    assert(r@ == tilde_expanded(path@, opt_view(home)));
    r
}

/// `s` without trailing `/` characters.
pub open spec fn trim_end_slashes(s: Seq<char>) -> Seq<char>
    decreases s.len(),
{
    if s.len() > 0 && s.last() == '/' {
        trim_end_slashes(s.drop_last())
    } else {
        s
    }
}

/// The directory whose entries complete a path typed up to
/// `parent_prefix` (the text before the segment being typed): `.` for
/// none, `/` for slashes only, the home directory for `~` (and below it
/// for `~/...`), else the prefix without trailing slashes.
pub open spec fn completion_base(parent_prefix: Seq<char>, home: Option<Seq<char>>) -> Option<Seq<char>> {
    let t = trim_end_slashes(parent_prefix);
    if parent_prefix.len() == 0 {
        Some("."@)
    } else if t.len() == 0 {
        Some("/"@)
    } else if t == "~"@ {
        home
    } else if is_prefix("~/"@, t) {
        match home {
            Some(h) => Some(join_spec(h, t.skip(2))),
            None => None,
        }
    } else {
        Some(t)
    }
}

/// The directory whose entries complete `parent_prefix`, with the home
/// directory `home`.
pub fn path_completion_base(parent_prefix: &str, home: Option<String>) -> (r: Option<String>)
    ensures
        opt_view(r) == completion_base(parent_prefix@, opt_view(home)),
{
    proof {
        reveal_strlit(".");
        reveal_strlit("/");
        reveal_strlit("~");
        reveal_strlit("~/");
    }
    let p = chars_of(parent_prefix);
    if p.len() == 0 {
        return Some(".".to_string());
    }
    let mut n: usize = p.len();
    proof {
        assert(p@.take(n as int) =~= p@);
    }
    while n > 0 && p[n - 1] == '/'
        invariant
            n <= p.len(),
            trim_end_slashes(p@) == trim_end_slashes(p@.take(n as int)),
        decreases n,
    {
        assert(p@.take(n as int).drop_last() =~= p@.take(n - 1));
        n -= 1;
    }
    let mut t: Vec<char> = Vec::new();
    let mut i: usize = 0;
    while i < n
        invariant
            i <= n <= p.len(),
            t@ == p@.take(i as int),
        decreases n - i,
    {
        t.push(p[i]);
        i += 1;
        assert(t@ =~= p@.take(i as int));
    }
    assert(trim_end_slashes(p@) == t@);
    if t.len() == 0 {
        return Some("/".to_string());
    }
    if chars_eq(&t, &chars_of("~")) {
        return match home {
            Some(h) => Some(h),
            None => None,
        };
    }
    if starts_with(&t, &chars_of("~/")) {
        return match home {
            Some(h) => {
                let mut rest: Vec<char> = Vec::new();
                let mut k: usize = 2;
                while k < t.len()
                    invariant
                        2 <= k <= t.len(),
                        rest@ == t@.subrange(2, k as int),
                    decreases t.len() - k,
                {
                    rest.push(t[k]);
                    k += 1;
                    assert(rest@ =~= t@.subrange(2, k as int));
                }
                assert(rest@ =~= t@.skip(2));
                Some(string_of(&join(&chars_of(h.as_str()), &rest)))
            },
            None => None,
        };
    }
    Some(string_of(&t))
}

/// Where the segment being typed starts: after the last `/`.
pub open spec fn segment_start(value: Seq<char>) -> nat {
    match last_index_of(value, '/') {
        Some(i) => (i + 1) as nat,
        None => 0,
    }
}

/// The directory names that complete `segment`: those starting with it,
/// hidden ones (starting with `.`) only where the segment does.
pub open spec fn completing_names(names: Seq<Seq<char>>, segment: Seq<char>) -> Seq<Seq<char>>
    decreases names.len(),
{
    if names.len() == 0 {
        names
    } else {
        let rest = completing_names(names.drop_last(), segment);
        let n = names.last();
        let hidden_ok = (segment.len() > 0 && segment[0] == '.') || !(n.len() > 0 && n[0] == '.');
        if hidden_ok && is_prefix(segment, n) {
            rest.push(n)
        } else {
            rest
        }
    }
}

/// The suggested completion of `segment` among `names`: the rest of the
/// single match and a `/`; else the rest of the matches' common prefix
/// where it is longer than the segment; else the rest of the first match
/// in sorted order and a `/`. None where nothing matches.
pub open spec fn path_suggestion(names: Seq<Seq<char>>, segment: Seq<char>) -> Option<Seq<char>> {
    let m = completing_names(names, segment);
    let k = segment.len() as int;
    if m.len() == 0 {
        None
    } else if m.len() == 1 {
        Some(m[0].skip(k).push('/'))
    } else if lcp_spec(m).len() > segment.len() {
        Some(lcp_spec(m).skip(k))
    } else {
        Some(lex_min(m).skip(k).push('/'))
    }
}

/// A pending completion of the path: the text and cursor it was computed
/// for and the text that accepting appends.
pub struct PathGhostCompletion {
    pub input_snapshot: String,
    pub cursor_snapshot: usize,
    pub ghost_text: String,
}

/// The path part of the new-session dialog.
pub struct NewSessionDialog {
    /// The index of the focused field.
    pub focused_field: usize,
    /// The index of the path field.
    pub path_field_index: usize,
    pub path: TextInput,
    pub path_ghost: Option<PathGhostCompletion>,
    pub error_message: Option<String>,
    /// Until when (in milliseconds) the path field flashes as invalid.
    pub path_invalid_flash_until: Option<u64>,
}

/// The text and cursor after pressing `key` `n` times.
pub open spec fn pressed(text: Seq<char>, cursor: nat, key: KeyEvent, n: nat) -> (Seq<char>, nat)
    decreases n,
{
    if n == 0 {
        (text, cursor)
    } else {
        let (t, c) = pressed(text, cursor, key, (n - 1) as nat);
        after_key(t, c, key)
    }
}

/// The plain Left key.
pub open spec fn left_key() -> KeyEvent {
    KeyEvent { code: KeyCode::Left, modifiers: 0 }
}

/// The plain Right key.
pub open spec fn right_key() -> KeyEvent {
    KeyEvent { code: KeyCode::Right, modifiers: 0 }
}

/// The column `cursor` clamped to the text's length.
pub open spec fn clamp(cursor: nat, len: nat) -> nat {
    if cursor < len {
        cursor
    } else {
        len
    }
}

/// The text and cursor after moving the cursor towards `target` by
/// pressing Left or Right as often as the distance from the current
/// column says.
pub open spec fn moved_to(text: Seq<char>, cursor: nat, target: nat) -> (Seq<char>, nat) {
    let len = text.len();
    let t = clamp(target, len);
    let cur = clamp(input_visual_cursor(text, cursor), len);
    if t < cur {
        pressed(text, cursor, left_key(), (cur - t) as nat)
    } else if t > cur {
        pressed(text, cursor, right_key(), (t - cur) as nat)
    } else {
        (text, cursor)
    }
}

/// The start of the path segment before column `c`: back over slashes,
/// then back over the segment's other characters.
pub open spec fn skip_back_non_slash(chars: Seq<char>, c: nat) -> nat
    decreases c,
{
    if c > 0 && c <= chars.len() && chars[c - 1] != '/' {
        skip_back_non_slash(chars, (c - 1) as nat)
    } else {
        c
    }
}

pub open spec fn skip_back_slash(chars: Seq<char>, c: nat) -> nat
    decreases c,
{
    if c > 0 && c <= chars.len() && chars[c - 1] == '/' {
        skip_back_slash(chars, (c - 1) as nat)
    } else {
        c
    }
}

pub open spec fn previous_segment_start(chars: Seq<char>, c: nat) -> nat {
    skip_back_non_slash(chars, skip_back_slash(chars, c))
}

impl NewSessionDialog {
    /// The text and cursor of the path field.
    pub open spec fn path_state(self) -> (Seq<char>, nat) {
        (self.path.text(), self.path.cursor_pos())
    }

    /// The column of the path cursor, clamped to the text.
    pub open spec fn cursor_column(self) -> nat {
        clamp(input_visual_cursor(self.path.text(), self.path.cursor_pos()), self.path.text().len())
    }

    /// The directory whose entries complete the path where the cursor
    /// stands at its end, with the home directory `home`.
    pub open spec fn ghost_base(self, home: Option<Seq<char>>) -> Option<Seq<char>> {
        let v = self.path.text();
        if self.cursor_column() < v.len() {
            None
        } else {
            completion_base(v.take(segment_start(v) as int), home)
        }
    }

    /// The ghost text for directory entries `listing` of the base (none
    /// where listing failed).
    pub open spec fn ghost_for_listing(self, listing: Option<Seq<Seq<char>>>) -> Option<Seq<char>> {
        let v = self.path.text();
        match listing {
            None => None,
            Some(names) => path_suggestion(names, v.skip(segment_start(v) as int)),
        }
    }

    /// The path text and cursor after moving to the start of the previous
    /// segment: unchanged where the cursor is at the start.
    pub open spec fn previous_segment_target(self) -> (Seq<char>, nat) {
        if self.cursor_column() == 0 {
            self.path_state()
        } else {
            moved_to(self.path.text(), self.path.cursor_pos(), previous_segment_start(self.path.text(), self.cursor_column()))
        }
    }

    /// `next` is `self` with the path text and cursor `target`, the error
    /// and the invalid flash cleared, and the completion computed again
    /// (with home directory `home`).
    pub open spec fn moved_and_recomputed<F: Fn(String) -> Option<Vec<String>>>(
        self,
        next: Self,
        target: (Seq<char>, nat),
        home: Option<Seq<char>>,
        list_dirs: F,
    ) -> bool {
        exists|mid: NewSessionDialog|
            mid == (NewSessionDialog {
                path: mid.path,
                error_message: None,
                path_invalid_flash_until: None,
                ..self
            }) && mid.path_state() == target && mid.ghost_recomputed(next, home, list_dirs)
    }

    /// `next` is `self` after accepting its pending completion (computed
    /// with home directory `home`): where the completion was made for the
    /// current text and cursor, the text gets the completion appended, the
    /// cursor goes to its end, the error and the invalid flash are cleared
    /// and the completion is computed again; otherwise only the stale
    /// completion is dropped.
    pub open spec fn ghost_accepted<F: Fn(String) -> Option<Vec<String>>>(
        self,
        next: Self,
        home: Option<Seq<char>>,
        list_dirs: F,
    ) -> bool {
        match self.path_ghost {
            None => next == self,
            Some(g) => if g.input_snapshot@ == self.path.text() && g.cursor_snapshot == self.cursor_column() {
                &&& next.error_message is None
                &&& next.path_invalid_flash_until is None
                &&& next.focused_field == self.focused_field
                &&& next.path_field_index == self.path_field_index
                &&& exists|mid: NewSessionDialog|
                    mid.path.text() == self.path.text() + g.ghost_text@
                    && mid.path.cursor_pos() == mid.path.text().len()
                    && mid.error_message is None && mid.path_invalid_flash_until is None
                    && mid.focused_field == self.focused_field
                    && mid.path_field_index == self.path_field_index
                    && mid.path_ghost is None
                    && mid.ghost_recomputed(next, home, list_dirs)
            } else {
                next == (NewSessionDialog { path_ghost: None, ..self })
            },
        }
    }

    /// `next` is `self` with the ghost completion computed again with the
    /// home directory `home` and the lister `list_dirs`.
    pub open spec fn ghost_recomputed<F: Fn(String) -> Option<Vec<String>>>(
        self,
        next: Self,
        home: Option<Seq<char>>,
        list_dirs: F,
    ) -> bool {
        &&& next == (NewSessionDialog { path_ghost: next.path_ghost, ..self })
        &&& match self.ghost_base(home) {
            None => next.path_ghost is None,
            Some(base) => exists|b: String, listing: Option<Vec<String>>|
                b@ == base && call_ensures(list_dirs, (b,), listing) && match self.ghost_for_listing(
                    opt_listing(listing),
                ) {
                    None => next.path_ghost is None,
                    Some(g) => next.path_ghost matches Some(pg) && pg.ghost_text@ == g
                        && pg.input_snapshot@ == self.path.text() && pg.cursor_snapshot == self.path.text().len(),
                },
        }
    }

    fn press(&mut self, key: KeyEvent, n: usize)
        requires
            !pastes(key),
        ensures
            final(self).path_state() == pressed(old(self).path.text(), old(self).path.cursor_pos(), key, n as nat),
            *final(self) == (NewSessionDialog { path: final(self).path, ..*old(self) }),
    {
        let mut i: usize = 0;
        while i < n
            invariant
                i <= n,
                self.path_state() == pressed(old(self).path.text(), old(self).path.cursor_pos(), key, i as nat),
                *self == (NewSessionDialog { path: self.path, ..*old(self) }),
                !pastes(key),
            decreases n - i,
        {
            self.path.handle_key(key);
            i += 1;
        }
    }

    /// Moves the path cursor to column `target_char_idx` (at most the end)
    /// with Left/Right presses.
    pub fn move_path_cursor_to(&mut self, target_char_idx: usize)
        ensures
            final(self).path_state() == moved_to(old(self).path.text(), old(self).path.cursor_pos(), target_char_idx as nat),
            *final(self) == (NewSessionDialog { path: final(self).path, ..*old(self) }),
    {
        let len = chars_of(self.path.value()).len();
        let target = if target_char_idx < len {
            target_char_idx
        } else {
            len
        };
        let vc = self.path.visual_cursor();
        let current = if vc < len {
            vc
        } else {
            len
        };
        if target < current {
            self.press(KeyEvent::new(KeyCode::Left, KeyModifiers::NONE), current - target);
        } else if target > current {
            self.press(KeyEvent::new(KeyCode::Right, KeyModifiers::NONE), target - current);
        }
    }

    /// Moves the path cursor to the start of the segment before it.
    pub fn move_path_cursor_to_previous_segment(&mut self)
        ensures
            old(self).cursor_column() == 0 ==> *final(self) == *old(self),
            old(self).cursor_column() > 0 ==> final(self).path_state() == moved_to(
                old(self).path.text(),
                old(self).path.cursor_pos(),
                previous_segment_start(old(self).path.text(), old(self).cursor_column()),
            ) && *final(self) == (NewSessionDialog { path: final(self).path, ..*old(self) }),
    {
        let chars = chars_of(self.path.value());
        let vc = self.path.visual_cursor();
        let mut cursor = if vc < chars.len() {
            vc
        } else {
            chars.len()
        };
        if cursor == 0 {
            return ;
        }
        let ghost c0 = cursor as nat;
        while cursor > 0 && chars[cursor - 1] == '/'
            invariant
                cursor <= chars.len(),
                skip_back_slash(chars@, c0) == skip_back_slash(chars@, cursor as nat),
            decreases cursor,
        {
            cursor -= 1;
        }
        let ghost c1 = cursor as nat;
        while cursor > 0 && chars[cursor - 1] != '/'
            invariant
                cursor <= chars.len(),
                skip_back_non_slash(chars@, c1) == skip_back_non_slash(chars@, cursor as nat),
            decreases cursor,
        {
            cursor -= 1;
        }
        self.move_path_cursor_to(cursor);
    }

    /// Replaces the path text with `value` and puts the cursor at column
    /// `cursor_char_idx` (at most the end) by pressing Left from the end.
    pub fn set_path_value_with_cursor(&mut self, value: String, cursor_char_idx: usize)
        ensures
            ({
                let total = value@.len();
                let target = clamp(cursor_char_idx as nat, total);
                final(self).path_state() == pressed(value@, total, left_key(), (total - target) as nat)
            }),
            *final(self) == (NewSessionDialog { path: final(self).path, ..*old(self) }),
    {
        self.path = TextInput::new(value);
        let total = chars_of(self.path.value()).len();
        let target = if cursor_char_idx < total {
            cursor_char_idx
        } else {
            total
        };
        self.press(KeyEvent::new(KeyCode::Left, KeyModifiers::NONE), total - target);
    }

    /// Computes the ghost completion of the path with the home directory
    /// `home`, listing directory entries with `list_dirs` (`None` where
    /// the directory cannot be read): there is none unless the cursor is at
    /// the end, the base directory is known and some entry completes the
    /// segment being typed.
    pub fn recompute_path_ghost_with<F: Fn(String) -> Option<Vec<String>>>(&mut self, home: Option<String>, list_dirs: &F)
        requires
            forall|b: String| call_requires(*list_dirs, (b,)),
        ensures
            old(self).ghost_recomputed(*final(self), opt_view(home), *list_dirs),
    {
        self.path_ghost = None;
        let value = chars_of(self.path.value());
        let char_len = value.len();
        let vc = self.path.visual_cursor();
        let cursor_char = if vc < char_len {
            vc
        } else {
            char_len
        };
        if cursor_char < char_len {
            return ;
        }
        let start: usize = match rfind_char(&value, '/') {
            Some(i) => i + 1,
            None => 0,
        };
        let mut prefix: Vec<char> = Vec::new();
        let mut i: usize = 0;
        while i < start
            invariant
                i <= start <= value.len(),
                prefix@ == value@.take(i as int),
            decreases start - i,
        {
            prefix.push(value[i]);
            i += 1;
            assert(prefix@ =~= value@.take(i as int));
        }
        let mut segment: Vec<char> = Vec::new();
        let mut j: usize = start;
        while j < value.len()
            invariant
                start <= j <= value.len(),
                segment@ == value@.subrange(start as int, j as int),
            decreases value.len() - j,
        {
            segment.push(value[j]);
            j += 1;
            assert(segment@ =~= value@.subrange(start as int, j as int));
        }
        assert(segment@ =~= value@.skip(start as int));
        let base = match path_completion_base(string_of(&prefix).as_str(), home) {
            Some(b) => b,
            None => {
                return ;
            },
        };
        let ghost b0 = base;
        let listing = list_dirs(base);
        let ghost l0 = listing;
        let names = match listing {
            Some(n) => n,
            None => {
                return ;
            },
        };
        match path_suggestion_of(&names, &segment) {
            Some(g) => {
                self.path_ghost = Some(
                    PathGhostCompletion {
                        input_snapshot: string_of(&value),
                        cursor_snapshot: cursor_char,
                        ghost_text: string_of(&g),
                    },
                );
            },
            None => {},
        }
        assert(call_ensures(*list_dirs, (b0,), l0));
    }

    /// Accepting the ghost completion with the home directory `home` and
    /// the lister `list_dirs`: where it is still valid for the text and
    /// cursor, the text becomes the completed text with the cursor at its
    /// end, the error and the invalid flash clear, and the completion is
    /// computed again. The pending completion is dropped either way.
    pub fn accept_path_ghost_with<F: Fn(String) -> Option<Vec<String>>>(&mut self, home: Option<String>, list_dirs: &F) -> (r: bool)
        requires
            forall|b: String| call_requires(*list_dirs, (b,)),
        ensures
            match old(self).path_ghost {
                None => !r && *final(self) == *old(self),
                Some(g) => if g.input_snapshot@ == old(self).path.text() && g.cursor_snapshot
                    == old(self).cursor_column() {
                    &&& r
                    &&& final(self).error_message is None
                    &&& final(self).path_invalid_flash_until is None
                    &&& final(self).focused_field == old(self).focused_field
                    &&& final(self).path_field_index == old(self).path_field_index
                    &&& exists|mid: NewSessionDialog|
                        mid.path.text() == old(self).path.text() + g.ghost_text@
                        && mid.path.cursor_pos() == mid.path.text().len()
                        && mid.error_message is None && mid.path_invalid_flash_until is None
                        && mid.focused_field == old(self).focused_field
                        && mid.path_field_index == old(self).path_field_index
                        && mid.path_ghost is None
                        && mid.ghost_recomputed(*final(self), opt_view(home), *list_dirs)
                } else {
                    !r && *final(self) == (NewSessionDialog { path_ghost: None, ..*old(self) })
                },
            },
    {
        let ghost_c = match self.path_ghost.take() {
            Some(g) => g,
            None => {
                return false;
            },
        };
        let value = chars_of(self.path.value());
        let vc = self.path.visual_cursor();
        let cursor_char = if vc < value.len() {
            vc
        } else {
            value.len()
        };
        if !chars_eq(&chars_of(ghost_c.input_snapshot.as_str()), &value) || ghost_c.cursor_snapshot != cursor_char {
            return false;
        }
        let mut nv = value;
        extend_chars(&mut nv, &chars_of(ghost_c.ghost_text.as_str()));
        let n = nv.len();
        self.set_path_value_with_cursor(string_of(&nv), n);
        self.error_message = None;
        self.path_invalid_flash_until = None;
        self.recompute_path_ghost_with(home, list_dirs);
        true
    }

    /// The path shortcuts, while the path field has the focus: Right or
    /// End at the end of the text accept the ghost completion; Home and
    /// Ctrl-A move to the start, Ctrl-Left and Alt-B to the start of the
    /// previous segment (clearing the error and the invalid flash and
    /// computing the completion again). Returns whether the key was used.
    pub fn handle_path_shortcuts_with<F: Fn(String) -> Option<Vec<String>>>(&mut self, key: KeyEvent, home: Option<String>, list_dirs: &F) -> (r: bool)
        requires
            forall|b: String| call_requires(*list_dirs, (b,)),
        ensures
            old(self).focused_field != old(self).path_field_index ==> !r && *final(self) == *old(self),
            old(self).focused_field == old(self).path_field_index && (key.code == KeyCode::Right || key.code
                == KeyCode::End) && key.modifiers == KeyModifiers::NONE ==> (r <==> (old(self).cursor_column()
                >= old(self).path.text().len() && old(self).path_ghost is Some)),
            old(self).focused_field == old(self).path_field_index && (key.code == KeyCode::Right || key.code
                == KeyCode::End) && key.modifiers == KeyModifiers::NONE ==> if r {
                old(self).ghost_accepted(*final(self), opt_view(home), *list_dirs)
            } else {
                *final(self) == *old(self)
            },
            old(self).focused_field == old(self).path_field_index && (key.code == KeyCode::Home || (key.code
                == KeyCode::Char('a') && key.modifiers & KeyModifiers::CONTROL == KeyModifiers::CONTROL)) && !((
            key.code == KeyCode::Right || key.code == KeyCode::End) && key.modifiers == KeyModifiers::NONE)
                ==> r && final(self).error_message is None && final(self).path_invalid_flash_until is None
                && final(self).path_state() == moved_to(old(self).path.text(), old(self).path.cursor_pos(), 0),
            old(self).focused_field == old(self).path_field_index && !((key.code == KeyCode::Right
                || key.code == KeyCode::End) && key.modifiers == KeyModifiers::NONE) && !(key.code
                == KeyCode::Home || (key.code == KeyCode::Char('a') && key.modifiers & KeyModifiers::CONTROL
                == KeyModifiers::CONTROL)) && ((key.code == KeyCode::Left && key.modifiers
                & KeyModifiers::CONTROL == KeyModifiers::CONTROL) || (key.code == KeyCode::Char('b')
                && key.modifiers & KeyModifiers::ALT == KeyModifiers::ALT)) ==> r
                && final(self).error_message is None && final(self).path_invalid_flash_until is None
                && final(self).path_state() == (if old(self).cursor_column() == 0 {
                old(self).path_state()
            } else {
                moved_to(
                    old(self).path.text(),
                    old(self).path.cursor_pos(),
                    previous_segment_start(old(self).path.text(), old(self).cursor_column()),
                )
            }),
            old(self).focused_field == old(self).path_field_index && (key.code == KeyCode::Home || (key.code
                == KeyCode::Char('a') && key.modifiers & KeyModifiers::CONTROL == KeyModifiers::CONTROL)) && !((
            key.code == KeyCode::Right || key.code == KeyCode::End) && key.modifiers == KeyModifiers::NONE)
                ==> old(self).moved_and_recomputed(
                *final(self),
                moved_to(old(self).path.text(), old(self).path.cursor_pos(), 0),
                opt_view(home),
                *list_dirs,
            ),
            old(self).focused_field == old(self).path_field_index && !((key.code == KeyCode::Right
                || key.code == KeyCode::End) && key.modifiers == KeyModifiers::NONE) && !(key.code
                == KeyCode::Home || (key.code == KeyCode::Char('a') && key.modifiers & KeyModifiers::CONTROL
                == KeyModifiers::CONTROL)) && ((key.code == KeyCode::Left && key.modifiers
                & KeyModifiers::CONTROL == KeyModifiers::CONTROL) || (key.code == KeyCode::Char('b')
                && key.modifiers & KeyModifiers::ALT == KeyModifiers::ALT)) ==> old(self).moved_and_recomputed(
                *final(self),
                old(self).previous_segment_target(),
                opt_view(home),
                *list_dirs,
            ),
            old(self).focused_field == old(self).path_field_index && !((key.code == KeyCode::Right
                || key.code == KeyCode::End) && key.modifiers == KeyModifiers::NONE) && !(key.code
                == KeyCode::Home || (key.code == KeyCode::Char('a') && key.modifiers & KeyModifiers::CONTROL
                == KeyModifiers::CONTROL)) && !((key.code == KeyCode::Left && key.modifiers
                & KeyModifiers::CONTROL == KeyModifiers::CONTROL) || (key.code == KeyCode::Char('b')
                && key.modifiers & KeyModifiers::ALT == KeyModifiers::ALT)) ==> !r && *final(self) == *old(self),
    {
        if self.focused_field != self.path_field_index {
            return false;
        }
        if (key.code == KeyCode::Right || key.code == KeyCode::End) && key.modifiers == KeyModifiers::NONE {
            let vc = self.path.visual_cursor();
            let len = chars_of(self.path.value()).len();
            let cursor = if vc < len {
                vc
            } else {
                len
            };
            if cursor >= len && self.path_ghost.is_some() {
                self.accept_path_ghost_with(home, list_dirs);
                return true;
            }
            return false;
        }
        if key.code == KeyCode::Home || (key.code == KeyCode::Char('a') && has_modifier(
            key.modifiers,
            KeyModifiers::CONTROL,
        )) {
            self.move_path_cursor_to(0);
            self.error_message = None;
            self.path_invalid_flash_until = None;
            let ghost p = self.path_state();
            let ghost mid = *self;
            self.recompute_path_ghost_with(home, list_dirs);
            assert(self.path_state() == p);
            assert(mid.ghost_recomputed(*self, opt_view(home), *list_dirs));
            return true;
        }
        if (key.code == KeyCode::Left && has_modifier(key.modifiers, KeyModifiers::CONTROL)) || (key.code
            == KeyCode::Char('b') && has_modifier(key.modifiers, KeyModifiers::ALT)) {
            self.move_path_cursor_to_previous_segment();
            self.error_message = None;
            self.path_invalid_flash_until = None;
            let ghost p = self.path_state();
            let ghost mid = *self;
            self.recompute_path_ghost_with(home, list_dirs);
            assert(self.path_state() == p);
            assert(mid.ghost_recomputed(*self, opt_view(home), *list_dirs));
            return true;
        }
        false
    }

    /// Computes the ghost completion of the path with the user's home
    /// directory (see `recompute_path_ghost_with`).
    pub fn recompute_path_ghost<F: Fn(String) -> Option<Vec<String>>>(&mut self, list_dirs: &F)
        requires
            forall|b: String| call_requires(*list_dirs, (b,)),
        ensures
            exists|home: Option<Seq<char>>| old(self).ghost_recomputed(*final(self), home, *list_dirs),
    {
        let home = home_dir_text();
        self.recompute_path_ghost_with(home, list_dirs);
    }

    /// Accepts the ghost completion with the user's home directory (see
    /// `accept_path_ghost_with`).
    pub fn accept_path_ghost<F: Fn(String) -> Option<Vec<String>>>(&mut self, list_dirs: &F) -> (r: bool)
        requires
            forall|b: String| call_requires(*list_dirs, (b,)),
        ensures
            match old(self).path_ghost {
                None => !r && *final(self) == *old(self),
                Some(g) => r == (g.input_snapshot@ == old(self).path.text() && g.cursor_snapshot
                    == old(self).cursor_column()),
            },
            r ==> final(self).error_message is None && final(self).path_invalid_flash_until is None,
    {
        let home = home_dir_text();
        self.accept_path_ghost_with(home, list_dirs)
    }

    /// The path shortcuts with the user's home directory (see
    /// `handle_path_shortcuts_with`).
    pub fn handle_path_shortcuts<F: Fn(String) -> Option<Vec<String>>>(&mut self, key: KeyEvent, list_dirs: &F) -> (r: bool)
        requires
            forall|b: String| call_requires(*list_dirs, (b,)),
        ensures
            old(self).focused_field != old(self).path_field_index ==> !r && *final(self) == *old(self),
            old(self).focused_field == old(self).path_field_index && (key.code == KeyCode::Right || key.code
                == KeyCode::End) && key.modifiers == KeyModifiers::NONE ==> (r <==> (old(self).cursor_column()
                >= old(self).path.text().len() && old(self).path_ghost is Some)),
            old(self).focused_field == old(self).path_field_index && (key.code == KeyCode::Right || key.code
                == KeyCode::End) && key.modifiers == KeyModifiers::NONE ==> if r {
                exists|home: Option<Seq<char>>| old(self).ghost_accepted(*final(self), home, *list_dirs)
            } else {
                *final(self) == *old(self)
            },
            old(self).focused_field == old(self).path_field_index && (key.code == KeyCode::Home || (key.code
                == KeyCode::Char('a') && key.modifiers & KeyModifiers::CONTROL == KeyModifiers::CONTROL)) && !((
            key.code == KeyCode::Right || key.code == KeyCode::End) && key.modifiers == KeyModifiers::NONE)
                ==> r && final(self).error_message is None && final(self).path_invalid_flash_until is None
                && final(self).path_state() == moved_to(old(self).path.text(), old(self).path.cursor_pos(), 0),
            old(self).focused_field == old(self).path_field_index && !((key.code == KeyCode::Right
                || key.code == KeyCode::End) && key.modifiers == KeyModifiers::NONE) && !(key.code
                == KeyCode::Home || (key.code == KeyCode::Char('a') && key.modifiers & KeyModifiers::CONTROL
                == KeyModifiers::CONTROL)) && ((key.code == KeyCode::Left && key.modifiers
                & KeyModifiers::CONTROL == KeyModifiers::CONTROL) || (key.code == KeyCode::Char('b')
                && key.modifiers & KeyModifiers::ALT == KeyModifiers::ALT)) ==> r
                && final(self).error_message is None && final(self).path_invalid_flash_until is None
                && final(self).path_state() == (if old(self).cursor_column() == 0 {
                old(self).path_state()
            } else {
                moved_to(
                    old(self).path.text(),
                    old(self).path.cursor_pos(),
                    previous_segment_start(old(self).path.text(), old(self).cursor_column()),
                )
            }),
            old(self).focused_field == old(self).path_field_index && (key.code == KeyCode::Home || (key.code
                == KeyCode::Char('a') && key.modifiers & KeyModifiers::CONTROL == KeyModifiers::CONTROL)) && !((
            key.code == KeyCode::Right || key.code == KeyCode::End) && key.modifiers == KeyModifiers::NONE)
                ==> exists|home: Option<Seq<char>>| #[trigger] old(self).moved_and_recomputed(
                *final(self),
                moved_to(old(self).path.text(), old(self).path.cursor_pos(), 0),
                home,
                *list_dirs,
            ),
            old(self).focused_field == old(self).path_field_index && !((key.code == KeyCode::Right
                || key.code == KeyCode::End) && key.modifiers == KeyModifiers::NONE) && !(key.code
                == KeyCode::Home || (key.code == KeyCode::Char('a') && key.modifiers & KeyModifiers::CONTROL
                == KeyModifiers::CONTROL)) && ((key.code == KeyCode::Left && key.modifiers
                & KeyModifiers::CONTROL == KeyModifiers::CONTROL) || (key.code == KeyCode::Char('b')
                && key.modifiers & KeyModifiers::ALT == KeyModifiers::ALT)) ==> exists|home: Option<Seq<char>>| #[trigger] old(self).moved_and_recomputed(
                *final(self),
                old(self).previous_segment_target(),
                home,
                *list_dirs,
            ),
            old(self).focused_field == old(self).path_field_index && !((key.code == KeyCode::Right
                || key.code == KeyCode::End) && key.modifiers == KeyModifiers::NONE) && !(key.code
                == KeyCode::Home || (key.code == KeyCode::Char('a') && key.modifiers & KeyModifiers::CONTROL
                == KeyModifiers::CONTROL)) && !((key.code == KeyCode::Left && key.modifiers
                & KeyModifiers::CONTROL == KeyModifiers::CONTROL) || (key.code == KeyCode::Char('b')
                && key.modifiers & KeyModifiers::ALT == KeyModifiers::ALT)) ==> !r && *final(self) == *old(self),
    {
        let home = home_dir_text();
        self.handle_path_shortcuts_with(key, home, list_dirs)
    }

    /// Drops the pending completion.
    pub fn clear_path_ghost(&mut self)
        ensures
            *final(self) == (NewSessionDialog { path_ghost: None, ..*old(self) }),
    {
        self.path_ghost = None;
    }

    /// The text the pending completion would append.
    pub fn ghost_text(&self) -> (r: Option<&str>)
        ensures
            match self.path_ghost {
                Some(g) => r matches Some(t) && t@ == g.ghost_text@,
                None => r is None,
            },
    {
        match &self.path_ghost {
            Some(g) => Some(g.ghost_text.as_str()),
            None => None,
        }
    }

    /// Whether the path field flashes as invalid.
    pub fn is_path_invalid_flash_active(&self) -> (r: bool)
        ensures
            r == self.path_invalid_flash_until is Some,
    {
        self.path_invalid_flash_until.is_some()
    }
}

/// The suggested completion of `segment` among `names`.
fn path_suggestion_of(names: &Vec<String>, segment: &Vec<char>) -> (r: Option<Vec<char>>)
    ensures
        opt_chars(r) == path_suggestion(string_seq(names@), segment@),
{
    let ghost ns = string_seq(names@);
    let include_hidden = segment.len() > 0 && segment[0] == '.';
    let mut matches: Vec<String> = Vec::new();
    let mut i: usize = 0;
    while i < names.len()
        invariant
            i <= names@.len(),
            ns == string_seq(names@),
            include_hidden == (segment@.len() > 0 && segment@[0] == '.'),
            string_seq(matches@) == completing_names(ns.take(i as int), segment@),
        decreases names@.len() - i,
    {
        let n = chars_of(names[i].as_str());
        assert(ns.take(i + 1).drop_last() =~= ns.take(i as int));
        assert(ns.take(i + 1).last() == ns[i as int]);
        let hidden = n.len() > 0 && n[0] == '.';
        if (include_hidden || !hidden) && starts_with(&n, segment) {
            let ghost before = matches@;
            matches.push(names[i].clone());
            assert(string_seq(matches@) =~= string_seq(before).push(ns[i as int]));
        }
        i += 1;
    }
    assert(ns.take(names@.len() as int) =~= ns);
    let ghost m = string_seq(matches@);
    if matches.len() == 0 {
        return None;
    }
    let k = segment.len();
    proof {
        lemma_completing_names_prefixed(ns, segment@);
        crate::text_input::longest_common_prefix_is_longest(m);
        if m.len() > 1 {
            crate::text_input::lemma_lex_min_member(m);
        }
    }
    let (chosen, slash): (Vec<char>, bool) = if matches.len() == 1 {
        (chars_of(matches[0].as_str()), true)
    } else {
        let common = chars_of(longest_common_prefix(matches.as_slice()).as_str());
        if common.len() > k {
            (common, false)
        } else {
            (crate::text_input::lex_first(&matches), true)
        }
    };
    assert(chosen@.len() >= k) by {
        if m.len() > 1 && lcp_spec(m).len() <= segment@.len() {
            let j = choose|j: int| 0 <= j < m.len() && m[j] == lex_min(m);
            assert(is_prefix(segment@, m[j]));
        }
        if m.len() == 1 {
            assert(is_prefix(segment@, m[0]));
        }
    }
    let mut out: Vec<char> = Vec::new();
    let mut j: usize = k;
    while j < chosen.len()
        invariant
            k <= j <= chosen@.len(),
            out@ == chosen@.subrange(k as int, j as int),
        decreases chosen@.len() - j,
    {
        out.push(chosen[j]);
        j += 1;
        assert(out@ =~= chosen@.subrange(k as int, j as int));
    }
    assert(out@ =~= chosen@.skip(k as int));
    if slash {
        out.push('/');
    }
    Some(out)
}

proof fn lemma_completing_names_prefixed(names: Seq<Seq<char>>, segment: Seq<char>)
    ensures
        forall|i: int|
            0 <= i < completing_names(names, segment).len() ==> is_prefix(segment, #[trigger] completing_names(names, segment)[i]),
    decreases names.len(),
{
    if names.len() > 0 {
        lemma_completing_names_prefixed(names.drop_last(), segment);
        let m = completing_names(names, segment);
        let mr = completing_names(names.drop_last(), segment);
        assert forall|i: int| 0 <= i < m.len() implies is_prefix(segment, #[trigger] m[i]) by {
            if i < mr.len() {
                assert(m[i] == mr[i]);
            }
        }
    }
}

} // verus!
