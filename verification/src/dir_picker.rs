//! The directory picker: lists the subdirectories of one directory at a
//! time, narrows the list with a typed filter, moves into and out of
//! directories, and hands back the directory chosen.
//!
//! Reading a directory is left to the caller, who passes a function from a
//! directory path to the names of its subdirectories (none where the
//! directory cannot be read); the picker decides what to show and where to
//! go.

use crate::keys::{has_modifier, KeyCode, KeyEvent, KeyModifiers};
use crate::path_input::opt_listing;
use crate::paths::{join, join_spec, parent, parent_spec};
use crate::text::{chars_eq, chars_of, contains_seq, contains_text, extend_chars, is_prefix, lowercase, starts_with, string_of, to_lowercase};
use crate::text_input::{key_edits, lemma_insert_sorted, lemma_lex_total, lex_less, lex_lt, string_seq, TextInput};
use vstd::prelude::*;

verus! {

broadcast use vstd::string::group_string_axioms;

/// The characters of the lowercase form of `s`.
fn lower_chars(s: &str) -> (r: Vec<char>)
    ensures
        r@ == lowercase(s@),
{
    let l = to_lowercase(s);
    chars_of(l.as_str())
}

/// Whether a directory named `name` is listed: names starting with `.`
/// only when hidden entries are shown.
pub open spec fn shown(name: Seq<char>, show_hidden: bool) -> bool {
    show_hidden || !(name.len() > 0 && name[0] == '.')
}

/// The names of `names` that are listed, in their order.
pub open spec fn shown_names(names: Seq<Seq<char>>, show_hidden: bool) -> Seq<Seq<char>>
    decreases names.len(),
{
    if names.len() == 0 {
        names
    } else {
        let rest = shown_names(names.drop_last(), show_hidden);
        if shown(names.last(), show_hidden) {
            rest.push(names.last())
        } else {
            rest
        }
    }
}

/// The lowercase forms of `s`.
pub open spec fn lowercase_all(s: Seq<Seq<char>>) -> Seq<Seq<char>> {
    s.map_values(|n: Seq<char>| lowercase(n))
}

/// `s` is ordered by the lowercase forms of its names.
pub open spec fn sorted_ignoring_case(s: Seq<Seq<char>>) -> bool {
    forall|i: int, j: int| 0 <= i < j < s.len() ==> !lex_lt(lowercase(s[j]), lowercase(s[i]))
}

/// The directories listed after reading a directory whose subdirectories
/// are `listing` (none where it could not be read): on a read error
/// nothing, and the error flag set; otherwise the listed names, ordered
/// ignoring case.
pub open spec fn listed(
    dirs: Seq<Seq<char>>,
    read_error: bool,
    listing: Option<Seq<Seq<char>>>,
    show_hidden: bool,
) -> bool {
    match listing {
        None => read_error && dirs.len() == 0,
        Some(names) => !read_error && dirs == ordered_ignoring_case(shown_names(names, show_hidden)),
    }
}

/// Where a name whose lowercase form is `key` goes in `s`: before the
/// first name whose lowercase form comes after `key`, so after every name
/// equal to it ignoring case.
pub open spec fn insertion_point(s: Seq<Seq<char>>, key: Seq<char>) -> nat
    decreases s.len(),
{
    if s.len() == 0 {
        0
    } else if lex_lt(key, lowercase(s[0])) {
        0
    } else {
        1 + insertion_point(s.drop_first(), key)
    }
}

/// `names` ordered ignoring case, names equal ignoring case in their
/// order in `names` (a stable sort by lowercase form).
pub open spec fn ordered_ignoring_case(names: Seq<Seq<char>>) -> Seq<Seq<char>>
    decreases names.len(),
{
    if names.len() == 0 {
        names
    } else {
        let rest = ordered_ignoring_case(names.drop_last());
        rest.insert(insertion_point(rest, lowercase(names.last())) as int, names.last())
    }
}

/// The insertion point is the first position whose name comes after the
/// key, all before it not coming after it.
proof fn lemma_insertion_point(s: Seq<Seq<char>>, key: Seq<char>, pos: int)
    requires
        0 <= pos <= s.len(),
        forall|k: int| 0 <= k < pos ==> !lex_lt(key, #[trigger] lowercase(s[k])),
        pos < s.len() ==> lex_lt(key, lowercase(s[pos])),
    ensures
        insertion_point(s, key) == pos,
    decreases pos,
{
    if pos > 0 {
        assert(!lex_lt(key, lowercase(s[0])));
        let t = s.drop_first();
        assert forall|k: int| 0 <= k < pos - 1 implies !lex_lt(key, #[trigger] lowercase(t[k])) by {
            assert(t[k] == s[k + 1]);
        }
        if pos < s.len() {
            assert(t[pos - 1] == s[pos]);
        }
        lemma_insertion_point(t, key, pos - 1);
    }
}

/// The subdirectory names to list, ordered by their lowercase forms;
/// names equal ignoring case keep their order.
pub fn sort_listing(names: &Vec<String>, show_hidden: bool) -> (r: Vec<String>)
    ensures
        string_seq(r@) == ordered_ignoring_case(shown_names(string_seq(names@), show_hidden)),
        sorted_ignoring_case(string_seq(r@)),
        string_seq(r@).to_multiset() == shown_names(string_seq(names@), show_hidden).to_multiset(),
{
    broadcast use vstd::seq_lib::group_to_multiset_ensures;

    let ghost ns = string_seq(names@);
    let mut out: Vec<String> = Vec::new();
    let mut i: usize = 0;
    while i < names.len()
        invariant
            i <= names@.len(),
            ns == string_seq(names@),
            sorted_ignoring_case(string_seq(out@)),
            string_seq(out@).to_multiset() == shown_names(ns.take(i as int), show_hidden).to_multiset(),
            string_seq(out@) == ordered_ignoring_case(shown_names(ns.take(i as int), show_hidden)),
        decreases names@.len() - i,
    {
        assert(ns.take(i + 1).drop_last() =~= ns.take(i as int));
        assert(ns.take(i + 1).last() == ns[i as int]);
        let name = chars_of(names[i].as_str());
        let visible = show_hidden || !(name.len() > 0 && name[0] == '.');
        if visible {
            let key = lower_chars(names[i].as_str());
            let ghost before = string_seq(out@);
            let ghost keys = lowercase_all(before);
            let mut pos: usize = 0;
            while pos < out.len() && !lex_less(&key, &lower_chars(out[pos].as_str()))
                invariant
                    pos <= out@.len(),
                    i < names@.len(),
                    ns == string_seq(names@),
                    key@ == lowercase(ns[i as int]),
                    before == string_seq(out@),
                    keys == lowercase_all(before),
                    forall|k: int| 0 <= k < pos ==> !lex_lt(key@, #[trigger] keys[k]),
                decreases out@.len() - pos,
            {
                pos += 1;
            }
            proof {
                assert forall|k: int| 0 <= k < pos implies !lex_lt(key@, #[trigger] lowercase(before[k])) by {
                    assert(keys[k] == lowercase(before[k]));
                }
                if pos < before.len() {
                    assert(keys[pos as int] == lowercase(before[pos as int]));
                }
                lemma_insertion_point(before, key@, pos as int);
                assert(forall|a: int, b: int|
                    0 <= a < b < keys.len() ==> !lex_lt(#[trigger] keys[b], #[trigger] keys[a]));
                lemma_lex_total(keys, key@, pos as int);
                lemma_insert_sorted(keys, key@, pos as int);
            }
            out.insert(pos, names[i].clone());
            proof {
                let after = string_seq(out@);
                assert(after =~= before.insert(pos as int, ns[i as int]));
                assert(lowercase_all(after) =~= keys.insert(pos as int, key@));
                assert forall|a: int, b: int| 0 <= a < b < after.len() implies !lex_lt(
                    lowercase(after[b]),
                    lowercase(after[a]),
                ) by {
                    assert(lowercase(after[b]) == keys.insert(pos as int, key@)[b]);
                    assert(lowercase(after[a]) == keys.insert(pos as int, key@)[a]);
                }
                assert(shown_names(ns.take(i + 1), show_hidden) == shown_names(
                    ns.take(i as int),
                    show_hidden,
                ).push(ns[i as int]));
                let sh = shown_names(ns.take(i as int), show_hidden);
                assert(sh.push(ns[i as int]).drop_last() =~= sh);
                assert(ordered_ignoring_case(sh.push(ns[i as int])) == before.insert(
                    insertion_point(before, lowercase(ns[i as int])) as int,
                    ns[i as int],
                ));
                vstd::seq_lib::to_multiset_insert(before, pos as int, ns[i as int]);
                vstd::seq_lib::to_multiset_build(shown_names(ns.take(i as int), show_hidden), ns[i as int]);
            }
        } else {
            assert(shown_names(ns.take(i + 1), show_hidden) == shown_names(ns.take(i as int), show_hidden));
        }
        i += 1;
    }
    assert(ns.take(names@.len() as int) =~= ns);
    out
}

/// `path` shortened from the left to at most `max_len` characters: as it
/// is where it fits; otherwise `...` followed by as many of its last
/// characters as fit after it, or just the first `max_len` dots where not
/// even one does.
pub open spec fn truncated(path: Seq<char>, max_len: nat) -> Seq<char> {
    if path.len() <= max_len {
        path
    } else if max_len <= 3 {
        "..."@.take(max_len as int)
    } else {
        "..."@ + path.skip(path.len() - (max_len - 3))
    }
}

/// What a key press in the picker leads to.
pub enum DirPickerResult {
    /// The picker stays open.
    Continue,
    /// The picker was closed without a choice.
    Cancelled,
    /// The picker was closed on this directory.
    Selected(String),
}

/// The directory picker's state.
pub struct DirPicker {
    /// Whether the picker is shown.
    pub active: bool,
    /// The filter typed over the listing.
    pub filter: TextInput,
    /// The index of the highlighted entry.
    pub selected: usize,
    /// The directory being listed.
    pub cwd: String,
    /// Its subdirectories, ordered ignoring case.
    pub dirs: Vec<String>,
    /// Whether the directory could not be read.
    pub read_error: bool,
    /// Whether names starting with `.` are listed.
    pub show_hidden: bool,
    /// Whether the key help is shown.
    pub show_help: bool,
}

/// The directory the picker opens on: the current directory (else `/`)
/// for an empty path; the path itself where it is a directory; else the
/// directory holding it (else `/`).
pub open spec fn start_dir(initial: Seq<char>, initial_is_dir: bool, current_dir: Option<Seq<char>>) -> Seq<char> {
    if initial.len() == 0 {
        match current_dir {
            Some(d) => d,
            None => "/"@,
        }
    } else if initial_is_dir {
        initial
    } else {
        match parent_spec(initial) {
            Some(p) => p,
            None => "/"@,
        }
    }
}

/// The subdirectories shown for the lowercase filter `f`: all of them
/// for an empty filter, else those whose lowercase name contains `f`.
pub open spec fn matching_dirs(dirs: Seq<Seq<char>>, f: Seq<char>) -> Seq<Seq<char>>
    decreases dirs.len(),
{
    if dirs.len() == 0 {
        dirs
    } else {
        let rest = matching_dirs(dirs.drop_last(), f);
        if f.len() == 0 || contains_seq(lowercase(dirs.last()), f) {
            rest.push(dirs.last())
        } else {
            rest
        }
    }
}

impl DirPicker {
    /// The entries shown under the filter: `./` (choose this directory)
    /// where the lowercase filter is empty or a prefix of `.`; `../` where
    /// the directory has a parent and the filter is empty or a prefix of
    /// `..`; then the matching subdirectories.
    pub open spec fn entries(self) -> Seq<Seq<char>> {
        let f = lowercase(self.filter.text());
        let dot: Seq<Seq<char>> = if f.len() == 0 || is_prefix(f, "."@) {
            seq!["./"@]
        } else {
            Seq::empty()
        };
        let up: Seq<Seq<char>> = if parent_spec(self.cwd@) is Some && (f.len() == 0 || is_prefix(f, ".."@)) {
            seq!["../"@]
        } else {
            Seq::empty()
        };
        dot + up + matching_dirs(string_seq(self.dirs@), f)
    }

    /// The directory an entry stands for: this directory for `./`, its
    /// parent (itself at the root) for `../`, else the subdirectory.
    pub open spec fn resolved(self, name: Seq<char>) -> Seq<char> {
        if name == "./"@ {
            self.cwd@
        } else if name == "../"@ {
            match parent_spec(self.cwd@) {
                Some(p) => p,
                None => self.cwd@,
            }
        } else {
            join_spec(self.cwd@, name)
        }
    }

    /// `next` is `self` with the listing read again through `list_dirs`.
    pub open spec fn refreshed<F: Fn(String) -> Option<Vec<String>>>(self, next: Self, list_dirs: F) -> bool {
        &&& next == (DirPicker { dirs: next.dirs, read_error: next.read_error, ..self })
        &&& exists|b: String, listing: Option<Vec<String>>|
            b@ == self.cwd@ && call_ensures(list_dirs, (b,), listing) && listed(
                string_seq(next.dirs@),
                next.read_error,
                opt_listing(listing),
                self.show_hidden,
            )
    }

    /// `next` is `self` moved to the directory `path`: filter cleared,
    /// first entry highlighted, listing read anew.
    pub open spec fn navigated<F: Fn(String) -> Option<Vec<String>>>(
        self,
        next: Self,
        path: Seq<char>,
        list_dirs: F,
    ) -> bool {
        &&& next.cwd@ == path
        &&& next.filter.text() == Seq::<char>::empty()
        &&& next.filter.cursor_pos() == 0
        &&& next.selected == 0
        &&& next.active == self.active
        &&& next.show_hidden == self.show_hidden
        &&& next.show_help == self.show_help
        &&& exists|b: String, listing: Option<Vec<String>>|
            b@ == path && call_ensures(list_dirs, (b,), listing) && listed(
                string_seq(next.dirs@),
                next.read_error,
                opt_listing(listing),
                self.show_hidden,
            )
    }

    /// `next` is `self` with `key` typed into the filter and the first
    /// entry highlighted.
    pub open spec fn filter_typed(self, next: Self, key: KeyEvent) -> bool {
        &&& key_edits(
            self.filter.text(),
            self.filter.cursor_pos(),
            key,
            next.filter.text(),
            next.filter.cursor_pos(),
        )
        &&& next == (DirPicker { filter: next.filter, selected: 0, ..self })
    }

    /// `next` is `self` moved to its parent directory, or unchanged at the
    /// root.
    pub open spec fn went_up<F: Fn(String) -> Option<Vec<String>>>(self, next: Self, list_dirs: F) -> bool {
        match parent_spec(self.cwd@) {
            Some(p) => self.navigated(next, p, list_dirs),
            None => next == self,
        }
    }

    /// What one key press does: with the help shown, `Esc` or `?` hides
    /// it and nothing else happens; `Ctrl+H` shows or hides the hidden
    /// directories and reads the listing again; `Esc` closes the picker;
    /// `Enter` or `Right` on `./` closes it on this directory, on another
    /// entry moves into it, on an empty list does nothing; `Left` moves to
    /// the parent; `Up` and `Down` move the highlight within the entries;
    /// `Backspace` edits the filter, or on an empty filter moves to the
    /// parent; `?` shows the help; other characters go into the filter.
    pub open spec fn stepped<F: Fn(String) -> Option<Vec<String>>>(
        self,
        key: KeyEvent,
        next: Self,
        r: DirPickerResult,
        list_dirs: F,
    ) -> bool {
        if self.show_help {
            &&& r is Continue
            &&& next == (DirPicker {
                show_help: !(key.code == KeyCode::Esc || key.code == KeyCode::Char('?')),
                ..self
            })
        } else if key.code == KeyCode::Char('h') && key.modifiers & KeyModifiers::CONTROL == KeyModifiers::CONTROL {
            &&& r is Continue
            &&& (DirPicker { show_hidden: !self.show_hidden, selected: 0, ..self }).refreshed(next, list_dirs)
        } else {
            let es = self.entries();
            match key.code {
                KeyCode::Esc => r is Cancelled && next == (DirPicker { active: false, ..self }),
                KeyCode::Enter | KeyCode::Right => if es.len() == 0 {
                    r is Continue && next == self
                } else {
                    let name = es[if self.selected < es.len() {
                        self.selected as int
                    } else {
                        es.len() - 1
                    }];
                    if name == "./"@ {
                        &&& r matches DirPickerResult::Selected(p) && p@ == self.cwd@
                        &&& next == (DirPicker { active: false, ..self })
                    } else {
                        r is Continue && self.navigated(next, self.resolved(name), list_dirs)
                    }
                },
                KeyCode::Left => r is Continue && self.went_up(next, list_dirs),
                KeyCode::Up => r is Continue && next == (DirPicker {
                    selected: if self.selected > 0 {
                        (self.selected - 1) as usize
                    } else {
                        self.selected
                    },
                    ..self
                }),
                KeyCode::Down => r is Continue && next == (DirPicker {
                    selected: if es.len() > 0 && self.selected < es.len() - 1 {
                        (self.selected + 1) as usize
                    } else {
                        self.selected
                    },
                    ..self
                }),
                KeyCode::Backspace => r is Continue && if self.filter.text().len() == 0 {
                    self.went_up(next, list_dirs)
                } else {
                    self.filter_typed(next, key)
                },
                KeyCode::Char(c) => r is Continue && if c == '?' {
                    next == (DirPicker { show_help: true, ..self })
                } else {
                    self.filter_typed(next, key)
                },
                _ => r is Continue && next == self,
            }
        }
    }

    /// A closed picker with nothing listed.
    pub fn new() -> (r: DirPicker)
        ensures
            !r.active,
            r.filter.text() == Seq::<char>::empty(),
            r.filter.cursor_pos() == 0,
            r.selected == 0,
            r.cwd@ == Seq::<char>::empty(),
            r.dirs@.len() == 0,
            !r.read_error,
            !r.show_hidden,
            !r.show_help,
    {
        DirPicker {
            active: false,
            filter: TextInput::default(),
            selected: 0,
            cwd: String::new(),
            dirs: Vec::new(),
            read_error: false,
            show_hidden: false,
            show_help: false,
        }
    }

    /// Whether the picker is shown.
    pub fn is_active(&self) -> (r: bool)
        ensures
            r == self.active,
    {
        self.active
    }

    /// Reads the listing of the current directory again.
    pub fn refresh_dirs<F: Fn(String) -> Option<Vec<String>>>(&mut self, list_dirs: &F)
        requires
            forall|b: String| call_requires(*list_dirs, (b,)),
        ensures
            old(self).refreshed(*final(self), *list_dirs),
    {
        let listing = list_dirs(self.cwd.clone());
        match listing {
            Some(names) => {
                self.read_error = false;
                self.dirs = sort_listing(&names, self.show_hidden);
            },
            None => {
                self.read_error = true;
                self.dirs = Vec::new();
            },
        }
    }

    /// Moves to the directory `path`: clears the filter, highlights the
    /// first entry and reads the listing.
    fn navigate_to<F: Fn(String) -> Option<Vec<String>>>(&mut self, path: String, list_dirs: &F)
        requires
            forall|b: String| call_requires(*list_dirs, (b,)),
        ensures
            old(self).navigated(*final(self), path@, *list_dirs),
    {
        self.cwd = path;
        self.filter = TextInput::default();
        self.selected = 0;
        self.refresh_dirs(list_dirs);
    }

    /// Opens the picker on the directory [`start_dir`] picks for
    /// `initial_path`, given whether that path is a directory and the
    /// current directory, with an empty filter and the help hidden.
    pub fn activate<F: Fn(String) -> Option<Vec<String>>>(
        &mut self,
        initial_path: &str,
        initial_is_dir: bool,
        current_dir: Option<String>,
        list_dirs: &F,
    )
        requires
            forall|b: String| call_requires(*list_dirs, (b,)),
        ensures
            final(self).active,
            !final(self).show_help,
            (DirPicker { show_help: false, active: false, ..*old(self) }).navigated(
                DirPicker { active: false, ..*final(self) },
                start_dir(initial_path@, initial_is_dir, crate::path_input::opt_view(current_dir)),
                *list_dirs,
            ),
    {
        proof {
            reveal_strlit("/");
        }
        let path: String = if chars_of(initial_path).len() == 0 {
            match current_dir {
                Some(d) => d,
                None => "/".to_string(),
            }
        } else if initial_is_dir {
            initial_path.to_string()
        } else {
            match parent(&chars_of(initial_path)) {
                Some(p) => string_of(&p),
                None => "/".to_string(),
            }
        };
        self.show_help = false;
        self.active = false;
        self.navigate_to(path, list_dirs);
        self.active = true;
    }

    /// The entries shown under the current filter.
    pub fn filtered_dirs(&self) -> (r: Vec<String>)
        ensures
            string_seq(r@) == self.entries(),
    {
        proof {
            reveal_strlit(".");
            reveal_strlit("..");
            reveal_strlit("./");
            reveal_strlit("../");
        }
        let f = lower_chars(self.filter.value());
        let has_parent = parent(&chars_of(self.cwd.as_str())).is_some();
        let mut result: Vec<String> = Vec::new();
        if f.len() == 0 || starts_with(&chars_of("."), &f) {
            result.push("./".to_string());
        }
        if has_parent && (f.len() == 0 || starts_with(&chars_of(".."), &f)) {
            result.push("../".to_string());
        }
        let ghost head = string_seq(result@);
        let ghost ds = string_seq(self.dirs@);
        let mut i: usize = 0;
        while i < self.dirs.len()
            invariant
                i <= self.dirs@.len(),
                ds == string_seq(self.dirs@),
                f@ == lowercase(self.filter.text()),
                string_seq(result@) == head + matching_dirs(ds.take(i as int), f@),
            decreases self.dirs@.len() - i,
        {
            assert(ds.take(i + 1).drop_last() =~= ds.take(i as int));
            assert(ds.take(i + 1).last() == ds[i as int]);
            if f.len() == 0 || contains_text(&lower_chars(self.dirs[i].as_str()), &f) {
                let ghost before = string_seq(result@);
                result.push(self.dirs[i].clone());
                assert(string_seq(result@) =~= before.push(ds[i as int]));
                assert(matching_dirs(ds.take(i + 1), f@) == matching_dirs(ds.take(i as int), f@).push(ds[i as int]));
                assert(string_seq(result@) =~= head + matching_dirs(ds.take(i + 1), f@));
            } else {
                assert(matching_dirs(ds.take(i + 1), f@) == matching_dirs(ds.take(i as int), f@));
            }
            i += 1;
        }
        assert(ds.take(self.dirs@.len() as int) =~= ds);
        assert(string_seq(result@) =~= self.entries());
        result
    }

    /// The directory the entry `name` stands for.
    pub fn resolve_path(&self, name: &str) -> (r: String)
        ensures
            r@ == self.resolved(name@),
    {
        proof {
            reveal_strlit("./");
            reveal_strlit("../");
        }
        let n = chars_of(name);
        if chars_eq(&n, &chars_of("./")) {
            self.cwd.clone()
        } else if chars_eq(&n, &chars_of("../")) {
            match parent(&chars_of(self.cwd.as_str())) {
                Some(p) => string_of(&p),
                None => self.cwd.clone(),
            }
        } else {
            string_of(&join(&chars_of(self.cwd.as_str()), &n))
        }
    }

    /// Moves to the parent directory, where there is one.
    fn go_up<F: Fn(String) -> Option<Vec<String>>>(&mut self, list_dirs: &F)
        requires
            forall|b: String| call_requires(*list_dirs, (b,)),
        ensures
            old(self).went_up(*final(self), *list_dirs),
    {
        match parent(&chars_of(self.cwd.as_str())) {
            Some(p) => self.navigate_to(string_of(&p), list_dirs),
            None => {},
        }
    }

    /// Handles one key press; `list_dirs` reads a directory where the
    /// press moves to one or shows the hidden ones.
    pub fn handle_key<F: Fn(String) -> Option<Vec<String>>>(&mut self, key: KeyEvent, list_dirs: &F) -> (r:
        DirPickerResult)
        requires
            forall|b: String| call_requires(*list_dirs, (b,)),
        ensures
            old(self).stepped(key, *final(self), r, *list_dirs),
    {
        proof {
            reveal_strlit("./");
        }
        if self.show_help {
            if key.code == KeyCode::Esc || key.code == KeyCode::Char('?') {
                self.show_help = false;
            }
            return DirPickerResult::Continue;
        }
        if key.code == KeyCode::Char('h') && has_modifier(key.modifiers, KeyModifiers::CONTROL) {
            self.show_hidden = !self.show_hidden;
            self.selected = 0;
            self.refresh_dirs(list_dirs);
            return DirPickerResult::Continue;
        }
        let filtered = self.filtered_dirs();
        let filtered_len = filtered.len();
        match key.code {
            KeyCode::Esc => {
                self.active = false;
                DirPickerResult::Cancelled
            },
            KeyCode::Enter | KeyCode::Right => {
                if filtered_len == 0 {
                    return DirPickerResult::Continue;
                }
                let idx = if self.selected < filtered_len {
                    self.selected
                } else {
                    filtered_len - 1
                };
                assert(filtered[idx as int]@ == self.entries()[idx as int]);
                if chars_eq(&chars_of(filtered[idx].as_str()), &chars_of("./")) {
                    self.active = false;
                    DirPickerResult::Selected(self.cwd.clone())
                } else {
                    let path = self.resolve_path(filtered[idx].as_str());
                    self.navigate_to(path, list_dirs);
                    DirPickerResult::Continue
                }
            },
            KeyCode::Left => {
                self.go_up(list_dirs);
                DirPickerResult::Continue
            },
            KeyCode::Up => {
                if self.selected > 0 {
                    self.selected -= 1;
                }
                DirPickerResult::Continue
            },
            KeyCode::Down => {
                if filtered_len > 0 && self.selected < filtered_len - 1 {
                    self.selected += 1;
                }
                DirPickerResult::Continue
            },
            KeyCode::Backspace => {
                if chars_of(self.filter.value()).len() == 0 {
                    self.go_up(list_dirs);
                } else {
                    self.filter.handle_key(key);
                    self.selected = 0;
                }
                DirPickerResult::Continue
            },
            KeyCode::Char(c) => {
                if c == '?' {
                    self.show_help = true;
                } else {
                    self.filter.handle_key(key);
                    self.selected = 0;
                }
                DirPickerResult::Continue
            },
            _ => DirPickerResult::Continue,
        }
    }

    /// `path` shortened from the left to fit in `max_len` characters.
    pub fn truncate_path(path: &str, max_len: usize) -> (r: String)
        ensures
            r@ == truncated(path@, max_len as nat),
    {
        proof {
            reveal_strlit("...");
        }
        let cs = chars_of(path);
        let n = cs.len();
        if n <= max_len {
            return path.to_string();
        }
        let dots = chars_of("...");
        let mut out: Vec<char> = Vec::new();
        if max_len <= 3 {
            let mut k: usize = 0;
            while k < max_len
                invariant
                    k <= max_len <= 3,
                    dots@ == "..."@,
                    dots@.len() == 3,
                    out@ == dots@.take(k as int),
                decreases max_len - k,
            {
                out.push(dots[k]);
                k += 1;
                assert(out@ =~= dots@.take(k as int));
            }
            return string_of(&out);
        }
        let available = max_len - 3;
        let skip = n - available;
        extend_chars(&mut out, &dots);
        let mut j: usize = skip;
        while j < n
            invariant
                skip <= j <= n,
                n == cs@.len(),
                out@ == dots@ + cs@.subrange(skip as int, j as int),
            decreases n - j,
        {
            out.push(cs[j]);
            j += 1;
            assert(out@ =~= dots@ + cs@.subrange(skip as int, j as int));
        }
        assert(cs@.subrange(skip as int, n as int) =~= cs@.skip(skip as int));
        string_of(&out)
    }
}

impl Default for DirPicker {
    fn default() -> (r: DirPicker)
        ensures
            !r.active,
            r.filter.text() == Seq::<char>::empty(),
            r.filter.cursor_pos() == 0,
            r.selected == 0,
            r.cwd@ == Seq::<char>::empty(),
            r.dirs@.len() == 0,
            !r.read_error,
            !r.show_hidden,
            !r.show_help,
    {
        DirPicker::new()
    }
}

/// The highlight never leaves the entries: where it is on the first
/// position or on an entry before a key press, it is so after it.
pub proof fn highlight_stays_on_an_entry<F: Fn(String) -> Option<Vec<String>>>(
    picker: DirPicker,
    key: KeyEvent,
    next: DirPicker,
    r: DirPickerResult,
    list_dirs: F,
)
    requires
        picker.selected == 0 || picker.selected < picker.entries().len(),
        picker.stepped(key, next, r, list_dirs),
    ensures
        next.selected == 0 || next.selected < next.entries().len(),
{
}

// ----------------------------------------------------------------------
// What the picker shows
// ----------------------------------------------------------------------

/// The part of a list of `total` entries that a view `height` rows high
/// shows around the highlighted entry `selected`: the first entry shown,
/// how many entries fit, and whether lines saying how many more lie above
/// and below take a row each.
#[derive(PartialEq, Eq, Structural, Clone, Copy, Debug)]
pub struct ListWindow {
    pub offset: usize,
    pub shown: usize,
    pub more_above: bool,
    pub more_below: bool,
}

/// `a - b`, or 0 where `b` is larger.
pub open spec fn sat_sub(a: int, b: int) -> int {
    if a >= b {
        a - b
    } else {
        0
    }
}

/// The first entry shown: the top where everything fits or the
/// highlight is on the first page; otherwise the highlight is kept on the
/// last row above the "more below" line, without scrolling past the end.
pub open spec fn window_offset(total: int, selected: int, height: int) -> int {
    if total <= height || height == 0 {
        0
    } else if selected < sat_sub(height, 1) {
        0
    } else {
        let mid_page = if sat_sub(height, 2) >= 1 {
            sat_sub(height, 2)
        } else {
            1
        };
        let raw = selected + 1 - mid_page;
        let max_offset = sat_sub(total, sat_sub(height, 1));
        if raw <= max_offset {
            raw
        } else {
            max_offset
        }
    }
}

/// The window a view of `height` rows shows of `total` entries.
pub open spec fn list_window(total: int, selected: int, height: int) -> ListWindow {
    let offset = window_offset(total, selected, height);
    let above = offset > 0;
    let below = total > offset + height;
    ListWindow {
        offset: offset as usize,
        shown: (if above && below {
            sat_sub(height, 2)
        } else if above || below {
            sat_sub(height, 1)
        } else {
            height
        }) as usize,
        more_above: above,
        more_below: below,
    }
}

/// Computes the window a view of `height` rows shows of `total` entries
/// with `selected` highlighted.
pub fn scroll_window(total: usize, selected: usize, height: usize) -> (r: ListWindow)
    requires
        selected < usize::MAX,
    ensures
        r == list_window(total as int, selected as int, height as int),
{
    let offset: usize = if total <= height || height == 0 {
        0
    } else {
        let first_page = height.saturating_sub(1);
        if selected < first_page {
            0
        } else {
            let mid_page = if height.saturating_sub(2) >= 1 {
                height.saturating_sub(2)
            } else {
                1
            };
            let raw = selected + 1 - mid_page;
            let max_offset = total.saturating_sub(height.saturating_sub(1));
            if raw <= max_offset {
                raw
            } else {
                max_offset
            }
        }
    };
    let above = offset > 0;
    let below = total > offset && total - offset > height;
    let shown = if above && below {
        height.saturating_sub(2)
    } else if above || below {
        height.saturating_sub(1)
    } else {
        height
    };
    ListWindow { offset, shown, more_above: above, more_below: below }
}

/// Where there are at least three rows, the highlighted entry is always
/// among those shown.
pub proof fn highlight_is_in_view(total: usize, selected: usize, height: usize)
    requires
        selected < total,
        height >= 3,
    ensures
        ({
            let w = list_window(total as int, selected as int, height as int);
            w.offset <= selected < w.offset + w.shown
        }),
{
}

/// How a line of the listing is drawn.
#[derive(PartialEq, Eq, Structural, Clone, Copy, Debug)]
pub enum LineLook {
    /// Notes: the "more above/below" counts and empty or unreadable
    /// directories.
    Dimmed,
    /// The highlighted entry.
    Selected,
    /// Any other entry.
    Normal,
}

/// How an entry is written: `./` and `../` as they are, a directory
/// with a trailing `/`.
pub open spec fn entry_text(name: Seq<char>) -> Seq<char> {
    if name == "./"@ || name == "../"@ {
        name
    } else {
        name + seq!['/']
    }
}

/// The entry lines from index `from` on, `count` of them at most, the
/// highlighted one marked with `> `.
pub open spec fn entry_lines(entries: Seq<Seq<char>>, selected: int, from: int, count: int) -> Seq<(Seq<char>, LineLook)>
    decreases count,
{
    if count <= 0 || from >= entries.len() || from < 0 {
        Seq::empty()
    } else {
        let line = if from == selected {
            ("> "@ + entry_text(entries[from]), LineLook::Selected)
        } else {
            ("  "@ + entry_text(entries[from]), LineLook::Normal)
        };
        seq![line] + entry_lines(entries, selected, from + 1, count - 1)
    }
}

/// The lines of the listing in a view of `height` rows: a note where the
/// directory could not be read or nothing matches; otherwise the "more
/// above" count, the entries in the window, and the "more below" count.
pub open spec fn listing_lines(entries: Seq<Seq<char>>, selected: int, height: int, read_error: bool) -> Seq<
    (Seq<char>, LineLook),
> {
    if read_error {
        seq![("  (permission denied)"@, LineLook::Dimmed)]
    } else if entries.len() == 0 {
        seq![("  (empty directory)"@, LineLook::Dimmed)]
    } else {
        let w = list_window(entries.len() as int, selected, height);
        (if w.more_above {
            seq![("  ["@ + crate::civilizations::decimal_digits(w.offset as nat) + " more above]"@, LineLook::Dimmed)]
        } else {
            Seq::empty()
        }) + entry_lines(entries, selected, w.offset as int, w.shown as int) + (if w.more_below {
            seq![
                (
                    "  ["@ + crate::civilizations::decimal_digits((entries.len() - w.offset - w.shown) as nat)
                        + " more below]"@,
                    LineLook::Dimmed,
                ),
            ]
        } else {
            Seq::empty()
        })
    }
}

/// The character view of listing lines.
pub open spec fn line_views(ls: Seq<(String, LineLook)>) -> Seq<(Seq<char>, LineLook)> {
    ls.map_values(|l: (String, LineLook)| (l.0@, l.1))
}

fn count_line(n: usize, tail: &str) -> (r: String)
    ensures
        r@ == "  ["@ + crate::civilizations::decimal_digits(n as nat) + tail@,
{
    let mut v = chars_of("  [");
    extend_chars(&mut v, &crate::civilizations::u64_to_decimal(n as u64));
    extend_chars(&mut v, &chars_of(tail));
    string_of(&v)
}

impl DirPicker {
    /// The lines of the listing for a view of `height` rows.
    pub fn listing(&self, height: usize) -> (r: Vec<(String, LineLook)>)
        requires
            self.selected < usize::MAX,
        ensures
            line_views(r@) == listing_lines(self.entries(), self.selected as int, height as int, self.read_error),
    {
        proof {
            reveal_strlit("./");
            reveal_strlit("../");
        }
        let mut lines: Vec<(String, LineLook)> = Vec::new();
        if self.read_error {
            lines.push(("  (permission denied)".to_string(), LineLook::Dimmed));
            assert(line_views(lines@) =~= listing_lines(self.entries(), self.selected as int, height as int, true));
            return lines;
        }
        let filtered = self.filtered_dirs();
        let ghost es = self.entries();
        if filtered.len() == 0 {
            lines.push(("  (empty directory)".to_string(), LineLook::Dimmed));
            assert(line_views(lines@) =~= listing_lines(es, self.selected as int, height as int, false));
            return lines;
        }
        let w = scroll_window(filtered.len(), self.selected, height);
        if w.more_above {
            lines.push((count_line(w.offset, " more above]"), LineLook::Dimmed));
        }
        let ghost head = line_views(lines@);
        let end: usize = if w.shown < filtered.len() - w.offset {
            w.offset + w.shown
        } else {
            filtered.len()
        };
        let mut i: usize = w.offset;
        while i < end
            invariant
                w.offset <= i <= end <= filtered@.len(),
                end == w.offset + w.shown || end == filtered@.len(),
                end <= w.offset + w.shown,
                string_seq(filtered@) == es,
                line_views(lines@) + entry_lines(es, self.selected as int, i as int, w.offset + w.shown - i) == head
                    + entry_lines(es, self.selected as int, w.offset as int, w.shown as int),
            decreases end - i,
        {
            proof {
                reveal_strlit("./");
                reveal_strlit("../");
            }
            let ghost before = line_views(lines@);
            let name = chars_of(filtered[i].as_str());
            let mut text = if i == self.selected {
                chars_of("> ")
            } else {
                chars_of("  ")
            };
            extend_chars(&mut text, &name);
            if !(chars_eq(&name, &chars_of("./")) || chars_eq(&name, &chars_of("../"))) {
                text.push('/');
            }
            let look = if i == self.selected {
                LineLook::Selected
            } else {
                LineLook::Normal
            };
            let ghost tv = text@;
            lines.push((string_of(&text), look));
            proof {
                assert(es[i as int] == filtered@[i as int]@);
                assert(name@ == es[i as int]);
                let el = entry_lines(es, self.selected as int, i as int, w.offset + w.shown - i);
                assert(w.offset + w.shown - i > 0);
                assert(i < es.len());
                assert(tv == (if i == self.selected { "> "@ } else { "  "@ }) + entry_text(es[i as int]));
                assert(el[0] == (tv, look));
                assert(line_views(lines@) =~= before.push((tv, look)));
                assert(line_views(lines@) =~= before.push(entry_lines(es, self.selected as int, i as int, w.offset + w.shown - i)[0]));
                assert(entry_lines(es, self.selected as int, i as int, w.offset + w.shown - i) =~= seq![
                    entry_lines(es, self.selected as int, i as int, w.offset + w.shown - i)[0],
                ] + entry_lines(es, self.selected as int, i + 1, w.offset + w.shown - (i + 1)));
            }
            i += 1;
        }
        proof {
            assert(entry_lines(es, self.selected as int, i as int, w.offset + w.shown - i) =~= Seq::empty());
            assert(line_views(lines@) =~= head + entry_lines(es, self.selected as int, w.offset as int, w.shown as int));
        }
        let ghost mid = line_views(lines@);
        if w.more_below {
            lines.push((count_line(filtered.len() - w.offset - w.shown, " more below]"), LineLook::Dimmed));
        }
        proof {
            let lw = list_window(es.len() as int, self.selected as int, height as int);
            assert(es.len() == filtered@.len());
            assert(w == lw);
            if w.more_below {
                assert(line_views(lines@) =~= mid.push(
                    (
                        "  ["@ + crate::civilizations::decimal_digits((es.len() - w.offset - w.shown) as nat)
                            + " more below]"@,
                        LineLook::Dimmed,
                    ),
                ));
            } else {
                assert(line_views(lines@) =~= mid);
            }
        }
        assert(line_views(lines@) =~= listing_lines(es, self.selected as int, height as int, false));
        lines
    }
}

impl DirPicker {
    /// The picker's key help, each key with what it does; `Ctrl+H` says
    /// whether it will hide or show the hidden directories.
    pub open spec fn help(self) -> Seq<(Seq<char>, Seq<char>)> {
        seq![
            ("Enter / \u{2192}"@, "Open directory"@),
            ("Enter on ./"@, "Select current directory"@),
            ("\u{2190} / Backspace"@, "Go to parent directory"@),
            ("\u{2191} / \u{2193}"@, "Move selection"@),
            ("Type"@, "Filter by name"@),
            ("Ctrl+H"@, if self.show_hidden {
                "Hide dotfiles"@
            } else {
                "Show dotfiles"@
            }),
            ("Esc"@, "Cancel"@),
        ]
    }

    /// The picker's key help.
    pub fn help_bindings(&self) -> (r: Vec<(&'static str, &'static str)>)
        ensures
            r@.map_values(|b: (&str, &str)| (b.0@, b.1@)) == self.help(),
    {
        let toggle = if self.show_hidden {
            "Hide dotfiles"
        } else {
            "Show dotfiles"
        };
        let r = vec![
            ("Enter / \u{2192}", "Open directory"),
            ("Enter on ./", "Select current directory"),
            ("\u{2190} / Backspace", "Go to parent directory"),
            ("\u{2191} / \u{2193}", "Move selection"),
            ("Type", "Filter by name"),
            ("Ctrl+H", toggle),
            ("Esc", "Cancel"),
        ];
        assert(r@.map_values(|b: (&str, &str)| (b.0@, b.1@)) =~= self.help());
        r
    }
}

} // verus!
