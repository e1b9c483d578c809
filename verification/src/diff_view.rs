//! State of the diff view: the changed files against a base branch, the
//! selected file, the cache of computed file diffs, scrolling, the branch
//! picker and the width of the file list. Reading the repository is the
//! caller's part: it hands the view the file lists, diffs and branch
//! lists it computed.

use crate::dialogs::InfoDialog;
use crate::text::{chars_eq, chars_of, extend_chars, string_of};
use vstd::prelude::*;
use vstd::string::StringSliceAdditionalSpecFns;

verus! {

broadcast use vstd::string::group_string_axioms;

/// A file that differs from the base branch.
pub struct DiffFile {
    pub path: String,
    /// Lines added.
    pub additions: usize,
    /// Lines removed.
    pub deletions: usize,
}

/// What a diff line does.
#[derive(PartialEq, Eq, Structural, Clone, Copy, Debug)]
pub enum ChangeTag {
    /// Unchanged context.
    Equal,
    /// Only in the base version.
    Delete,
    /// Only in the new version.
    Insert,
}

/// One line of a diff hunk, with its numbers in the base and new
/// versions where it has them.
pub struct DiffLine {
    pub tag: ChangeTag,
    pub old_line_num: Option<usize>,
    pub new_line_num: Option<usize>,
    pub content: String,
}

/// A hunk: where it starts and how many lines it spans in each version,
/// and its lines.
pub struct DiffHunk {
    pub old_start: usize,
    pub old_lines: usize,
    pub new_start: usize,
    pub new_lines: usize,
    pub lines: Vec<DiffLine>,
}

/// The computed diff of one file.
pub struct FileDiff {
    pub is_binary: bool,
    pub hunks: Vec<DiffHunk>,
}

/// State of the branch picker.
pub struct BranchSelectState {
    pub branches: Vec<String>,
    pub selected: usize,
}

pub struct DiffView {
    /// Path to the repository root.
    pub repo_path: String,
    /// Branch the changes are compared against.
    pub base_branch: String,
    /// The changed files.
    pub files: Vec<DiffFile>,
    /// Index of the selected file.
    pub selected_file: usize,
    /// Computed diffs, by file path; no path occurs twice.
    pub diff_cache: Vec<(String, FileDiff)>,
    /// First diff line shown.
    pub scroll_offset: u16,
    /// Number of diff lines that fit on screen (set while rendering).
    pub visible_lines: u16,
    /// Number of lines of the current diff (set while rendering).
    pub total_lines: u16,
    /// The branch picker, while it is open.
    pub branch_select: Option<BranchSelectState>,
    pub error_message: Option<String>,
    pub success_message: Option<String>,
    /// Lines of context around each change.
    pub context_lines: usize,
    pub show_help: bool,
    /// Width of the file list panel.
    pub file_list_width: u16,
    /// Shown when the merge base with the base branch cannot be found.
    pub warning_dialog: Option<InfoDialog>,
}

/// The paths of the cached diffs.
pub open spec fn cache_paths(cache: Seq<(String, FileDiff)>) -> Seq<Seq<char>> {
    cache.map_values(|e: (String, FileDiff)| e.0@)
}

/// The paths of the files.
pub open spec fn file_paths(files: Seq<DiffFile>) -> Seq<Seq<char>> {
    files.map_values(|f: DiffFile| f.path@)
}

/// `n - m`, or 0 where `m` is larger.
pub open spec fn sat_sub(n: int, m: int) -> int {
    if n >= m {
        n - m
    } else {
        0
    }
}

/// The selection after the file list changed to `len` files.
pub open spec fn clamped_selection(selected: nat, len: nat) -> nat {
    if selected >= len {
        sat_sub(len as int, 1) as nat
    } else {
        selected
    }
}

/// The base branch: the configured one, else the one found in the
/// repository, else `main`.
pub open spec fn base_branch_choice(configured: Option<Seq<char>>, detected: Option<Seq<char>>) -> Seq<char> {
    match configured {
        Some(b) => b,
        None => match detected {
            Some(b) => b,
            None => "main"@,
        },
    }
}

/// Picks the base branch: the configured one, else the one found in the
/// repository, else `main`.
pub fn choose_base_branch(configured: Option<String>, detected: Option<String>) -> (r: String)
    ensures
        r@ == base_branch_choice(
            match configured {
                Some(b) => Some(b@),
                None => None,
            },
            match detected {
                Some(b) => Some(b@),
                None => None,
            },
        ),
{
    proof {
        reveal_strlit("main");
    }
    match configured {
        Some(b) => b,
        None => match detected {
            Some(b) => b,
            None => "main".to_string(),
        },
    }
}

/// The message shown for a failed step: `prefix` then the error.
pub open spec fn failure(prefix: Seq<char>, e: Seq<char>) -> Seq<char> {
    prefix + e
}

fn failure_message(prefix: &str, e: &str) -> (r: String)
    ensures
        r@ == failure(prefix@, e@),
{
    let mut m = chars_of(prefix);
    extend_chars(&mut m, &chars_of(e));
    string_of(&m)
}

/// The index of the first path equal to `path`, if any.
fn find_path(cache: &Vec<(String, FileDiff)>, path: &Vec<char>) -> (r: Option<usize>)
    ensures
        match r {
            Some(i) => i < cache@.len() && cache_paths(cache@)[i as int] == path@,
            None => !cache_paths(cache@).contains(path@),
        },
{
    let ghost ps = cache_paths(cache@);
    let mut i: usize = 0;
    while i < cache.len()
        invariant
            i <= cache@.len(),
            ps == cache_paths(cache@),
            forall|k: int| 0 <= k < i ==> ps[k] != path@,
        decreases cache@.len() - i,
    {
        if chars_eq(&chars_of(cache[i].0.as_str()), path) {
            return Some(i);
        }
        i += 1;
    }
    None
}

impl DiffView {
    /// The selection points at a file (at 0 when there is none), and no
    /// path is cached twice.
    pub open spec fn wf(self) -> bool {
        &&& (self.files@.len() == 0 ==> self.selected_file == 0)
        &&& (self.files@.len() > 0 ==> self.selected_file < self.files@.len())
        &&& cache_paths(self.diff_cache@).no_duplicates()
    }

    /// The view after moving to the next file: the selection advances
    /// and the diff scrolls to the top where there is a next file.
    pub open spec fn after_next_file(self) -> DiffView {
        if self.selected_file < sat_sub(self.files@.len() as int, 1) {
            DiffView { selected_file: (self.selected_file + 1) as usize, scroll_offset: 0, ..self }
        } else {
            self
        }
    }

    /// The view after moving to the previous file.
    pub open spec fn after_prev_file(self) -> DiffView {
        if self.selected_file > 0 {
            DiffView { selected_file: (self.selected_file - 1) as usize, scroll_offset: 0, ..self }
        } else {
            self
        }
    }

    /// The largest scroll offset: the lines that do not fit on screen.
    pub open spec fn max_scroll(self) -> int {
        sat_sub(self.total_lines as int, self.visible_lines as int)
    }

    /// A view of `repo_path` against `base_branch` with `files` changed,
    /// showing `context_lines` lines of context, with the file list
    /// `file_list_width` wide (35 where none is configured) and a warning
    /// where the merge base could not be found. Fails where listing the
    /// changed files failed.
    pub fn new(
        repo_path: String,
        base_branch: String,
        context_lines: usize,
        file_list_width: Option<u16>,
        merge_base_warning: Option<String>,
        files: Result<Vec<DiffFile>, String>,
    ) -> (r: Result<DiffView, String>)
        ensures
            match files {
                Err(e) => r matches Err(x) && x@ == e@,
                Ok(fs) => r matches Ok(v) && v.wf() && v.repo_path == repo_path && v.base_branch
                    == base_branch && v.files == fs && v.selected_file == 0 && v.diff_cache@.len() == 0
                    && v.scroll_offset == 0 && v.visible_lines == 20 && v.total_lines == 0
                    && v.branch_select is None && v.error_message is None && v.success_message is None
                    && v.context_lines == context_lines && !v.show_help && v.file_list_width == (
                match file_list_width {
                    Some(w) => w,
                    None => 35,
                }) && match merge_base_warning {
                    Some(m) => v.warning_dialog matches Some(d) && d.title@ == "Warning"@ && d.message@
                        == m@,
                    None => v.warning_dialog is None,
                },
            },
    {
        let width = match file_list_width {
            Some(w) => w,
            None => 35,
        };
        let warning_dialog = match merge_base_warning {
            Some(m) => Some(InfoDialog::new("Warning", m.as_str())),
            None => None,
        };
        let mut view = DiffView {
            repo_path,
            base_branch,
            files: Vec::new(),
            selected_file: 0,
            diff_cache: Vec::new(),
            scroll_offset: 0,
            visible_lines: 20,
            total_lines: 0,
            branch_select: None,
            error_message: None,
            success_message: None,
            context_lines,
            show_help: false,
            file_list_width: width,
            warning_dialog,
        };
        match view.refresh_files(files) {
            Ok(()) => Ok(view),
            Err(e) => Err(e),
        }
    }

    /// Takes a new list of changed files: the cache is emptied, the
    /// selection moves to the last file where it fell off the end, and the
    /// diff scrolls to the top. Where listing failed, nothing changes and
    /// the error is returned.
    pub fn refresh_files(&mut self, files: Result<Vec<DiffFile>, String>) -> (r: Result<(), String>)
        ensures
            match files {
                Err(e) => r matches Err(x) && x@ == e@ && *final(self) == *old(self),
                Ok(fs) => r is Ok && *final(self) == (DiffView {
                    files: fs,
                    diff_cache: final(self).diff_cache,
                    selected_file: clamped_selection(
                        old(self).selected_file as nat,
                        fs@.len(),
                    ) as usize,
                    scroll_offset: 0,
                    ..*old(self)
                }) && final(self).diff_cache@.len() == 0,
            },
            files is Ok ==> final(self).wf(),
    {
        match files {
            Err(e) => Err(e),
            Ok(fs) => {
                self.files = fs;
                self.diff_cache = Vec::new();
                if self.selected_file >= self.files.len() {
                    self.selected_file = if self.files.len() > 0 {
                        self.files.len() - 1
                    } else {
                        0
                    };
                }
                self.scroll_offset = 0;
                assert(cache_paths(self.diff_cache@) =~= Seq::<Seq<char>>::empty());
                Ok(())
            },
        }
    }

    /// The selected file, if there is one.
    pub fn selected_file(&self) -> (r: Option<&DiffFile>)
        ensures
            match r {
                Some(f) => self.selected_file < self.files@.len() && *f
                    == self.files@[self.selected_file as int],
                None => self.selected_file >= self.files@.len(),
            },
    {
        if self.selected_file < self.files.len() {
            Some(&self.files[self.selected_file])
        } else {
            None
        }
    }

    /// The path of the selected file where its diff still has to be
    /// computed: the selected file exists and its diff is not cached.
    pub fn diff_to_compute(&self) -> (r: Option<String>)
        ensures
            match r {
                Some(p) => self.selected_file < self.files@.len() && p@ == self.files@[self.selected_file as int].path@
                    && !cache_paths(self.diff_cache@).contains(p@),
                None => self.selected_file >= self.files@.len() || cache_paths(self.diff_cache@).contains(
                    self.files@[self.selected_file as int].path@,
                ),
            },
    {
        if self.selected_file >= self.files.len() {
            return None;
        }
        let path = chars_of(self.files[self.selected_file].path.as_str());
        match find_path(&self.diff_cache, &path) {
            Some(_) => None,
            None => Some(string_of(&path)),
        }
    }

    /// Records the outcome of computing the diff of `path`: a diff is
    /// cached (replacing any earlier one for that path); a failure is
    /// reported in the error message.
    pub fn store_diff(&mut self, path: String, result: Result<FileDiff, String>)
        requires
            old(self).wf(),
        ensures
            final(self).wf(),
            final(self).files == old(self).files,
            final(self).selected_file == old(self).selected_file,
            match result {
                Ok(d) => final(self).error_message == old(self).error_message && cache_paths(
                    final(self).diff_cache@,
                ).contains(path@) && (forall|i: int|
                    0 <= i < final(self).diff_cache@.len() && final(self).diff_cache@[i].0@ == path@
                        ==> final(self).diff_cache@[i].1 == d) && (forall|q: Seq<char>|
                    q != path@ ==> (cache_paths(final(self).diff_cache@).contains(q)
                        <==> cache_paths(old(self).diff_cache@).contains(q))),
                Err(e) => final(self).diff_cache == old(self).diff_cache && (final(self).error_message
                    matches Some(m) && m@ == failure("Failed to compute diff: "@, e@)),
            },
    {
        proof {
            reveal_strlit("Failed to compute diff: ");
        }
        match result {
            Err(e) => {
                self.error_message = Some(failure_message("Failed to compute diff: ", e.as_str()));
            },
            Ok(d) => {
                let p = chars_of(path.as_str());
                let ghost old_cache = self.diff_cache@;
                match find_path(&self.diff_cache, &p) {
                    Some(i) => {
                        let ghost before = cache_paths(self.diff_cache@);
                        self.diff_cache.set(i, (path, d));
                        proof {
                            assert(cache_paths(self.diff_cache@) =~= before);
                            assert(cache_paths(self.diff_cache@)[i as int] == p@);
                            assert forall|k: int|
                                0 <= k < self.diff_cache@.len() && self.diff_cache@[k].0@ == p@ implies self.diff_cache@[k].1
                                == d by {
                                if k != i {
                                    assert(before[k] == before[i as int]);
                                }
                            }
                        }
                    },
                    None => {
                        let ghost before = cache_paths(self.diff_cache@);
                        self.diff_cache.push((path, d));
                        proof {
                            assert(cache_paths(self.diff_cache@) =~= before.push(p@));
                            assert forall|q: Seq<char>| q != p@ implies (cache_paths(self.diff_cache@).contains(q)
                                <==> before.contains(q)) by {
                                if cache_paths(self.diff_cache@).contains(q) {
                                    let k = choose|k: int| 0 <= k < cache_paths(self.diff_cache@).len() && cache_paths(self.diff_cache@)[k] == q;
                                    assert(before[k] == q);
                                }
                                if before.contains(q) {
                                    let k = choose|k: int| 0 <= k < before.len() && before[k] == q;
                                    assert(cache_paths(self.diff_cache@)[k] == q);
                                }
                            }
                            assert(cache_paths(self.diff_cache@)[before.len() as int] == p@);
                            assert forall|k: int|
                                0 <= k < self.diff_cache@.len() && self.diff_cache@[k].0@ == p@ implies self.diff_cache@[k].1
                                == d by {
                                if k < before.len() {
                                    assert(before[k] == p@);
                                }
                            }
                            assert forall|a: int, b: int|
                                0 <= a < cache_paths(self.diff_cache@).len() && 0 <= b < cache_paths(self.diff_cache@).len() && a != b
                                implies cache_paths(self.diff_cache@)[a] != cache_paths(self.diff_cache@)[b] by {
                                if a < before.len() && b < before.len() {
                                    assert(before[a] != before[b]);
                                } else if a < before.len() {
                                    assert(before[a] != p@);
                                } else if b < before.len() {
                                    assert(before[b] != p@);
                                }
                            }
                        }
                    },
                }
            },
        }
    }

    /// The cached diff of the selected file, if there is one.
    pub fn get_current_diff(&self) -> (r: Option<&FileDiff>)
        ensures
            match r {
                Some(d) => self.selected_file < self.files@.len() && exists|i: int|
                    0 <= i < self.diff_cache@.len() && self.diff_cache@[i].0@ == self.files@[self.selected_file as int].path@
                        && self.diff_cache@[i].1 == *d,
                None => self.selected_file >= self.files@.len() || !cache_paths(self.diff_cache@).contains(
                    self.files@[self.selected_file as int].path@,
                ),
            },
    {
        if self.selected_file >= self.files.len() {
            return None;
        }
        let path = chars_of(self.files[self.selected_file].path.as_str());
        match find_path(&self.diff_cache, &path) {
            Some(i) => Some(&self.diff_cache[i].1),
            None => None,
        }
    }

    /// Opens the branch picker on the listed branches, with the base
    /// branch selected (the first where it is not listed); where listing
    /// failed, reports the failure.
    pub fn open_branch_select(&mut self, branches: Result<Vec<String>, String>)
        ensures
            final(self).base_branch == old(self).base_branch,
            final(self).files == old(self).files,
            final(self).selected_file == old(self).selected_file,
            final(self).diff_cache == old(self).diff_cache,
            match branches {
                Ok(bs) => final(self).error_message == old(self).error_message && (final(self).branch_select
                    matches Some(s) && s.branches == bs && (if bs@.map_values(|b: String| b@).contains(
                    old(self).base_branch@,
                ) {
                    s.selected < bs@.len() && bs@[s.selected as int]@ == old(self).base_branch@ && forall|k: int|
                        0 <= k < s.selected ==> bs@[k]@ != old(self).base_branch@
                } else {
                    s.selected == 0
                })),
                Err(e) => final(self).branch_select == old(self).branch_select && (final(self).error_message
                    matches Some(m) && m@ == failure("Failed to list branches: "@, e@)),
            },
    {
        proof {
            reveal_strlit("Failed to list branches: ");
        }
        match branches {
            Ok(bs) => {
                let base = chars_of(self.base_branch.as_str());
                let ghost names = bs@.map_values(|b: String| b@);
                let mut selected: usize = 0;
                let mut found = false;
                let mut i: usize = 0;
                while i < bs.len()
                    invariant
                        i <= bs@.len(),
                        names == bs@.map_values(|b: String| b@),
                        base@ == self.base_branch@,
                        found ==> selected < i && bs@[selected as int]@ == base@ && forall|k: int|
                            0 <= k < selected ==> bs@[k]@ != base@,
                        !found ==> selected == 0 && forall|k: int| 0 <= k < i ==> bs@[k]@ != base@,
                    decreases bs@.len() - i,
                {
                    if !found && chars_eq(&chars_of(bs[i].as_str()), &base) {
                        selected = i;
                        found = true;
                    }
                    i += 1;
                }
                proof {
                    if found {
                        assert(names[selected as int] == base@);
                    } else {
                        assert(!names.contains(base@)) by {
                            if names.contains(base@) {
                                let k = choose|k: int| 0 <= k < names.len() && names[k] == base@;
                                assert(bs@[k]@ != base@);
                            }
                        }
                    }
                }
                self.branch_select = Some(BranchSelectState { branches: bs, selected });
            },
            Err(e) => {
                self.error_message = Some(failure_message("Failed to list branches: ", e.as_str()));
            },
        }
    }

    /// Switches to `branch`: the picker closes, the merge-base warning is
    /// the one found for the new branch, and the file list is replaced
    /// (a failure to list is reported, the old list stays).
    pub fn select_branch(
        &mut self,
        branch: String,
        merge_base_warning: Option<String>,
        files: Result<Vec<DiffFile>, String>,
    )
        requires
            old(self).wf(),
        ensures
            final(self).wf(),
            final(self).base_branch == branch,
            final(self).branch_select is None,
            match merge_base_warning {
                Some(m) => final(self).warning_dialog matches Some(d) && d.title@ == "Warning"@ && d.message@
                    == m@,
                None => final(self).warning_dialog is None,
            },
            match files {
                Ok(fs) => final(self).files == fs && final(self).diff_cache@.len() == 0
                    && final(self).scroll_offset == 0 && final(self).selected_file == clamped_selection(
                    old(self).selected_file as nat,
                    fs@.len(),
                ) && final(self).error_message == old(self).error_message,
                Err(e) => final(self).files == old(self).files && final(self).diff_cache == old(self).diff_cache
                    && final(self).selected_file == old(self).selected_file && (final(self).error_message
                    matches Some(m) && m@ == failure("Failed to refresh: "@, e@)),
            },
    {
        proof {
            reveal_strlit("Failed to refresh: ");
        }
        self.base_branch = branch;
        self.branch_select = None;
        self.warning_dialog = match merge_base_warning {
            Some(m) => Some(InfoDialog::new("Warning", m.as_str())),
            None => None,
        };
        match self.refresh_files(files) {
            Ok(()) => {},
            Err(e) => {
                self.error_message = Some(failure_message("Failed to refresh: ", e.as_str()));
            },
        }
    }

    /// Selects the next file, if there is one, and scrolls to the top.
    pub fn next_file(&mut self)
        ensures
            *final(self) == old(self).after_next_file(),
            old(self).wf() ==> final(self).wf(),
    {
        let last = if self.files.len() > 0 {
            self.files.len() - 1
        } else {
            0
        };
        if self.selected_file < last {
            self.selected_file += 1;
            self.scroll_offset = 0;
        }
    }

    /// Selects the previous file, if there is one, and scrolls to the top.
    pub fn prev_file(&mut self)
        ensures
            *final(self) == old(self).after_prev_file(),
            old(self).wf() ==> final(self).wf(),
    {
        if self.selected_file > 0 {
            self.selected_file -= 1;
            self.scroll_offset = 0;
        }
    }

    /// Scrolls down by `amount` lines, no further than the last screenful.
    pub fn scroll_down(&mut self, amount: u16)
        requires
            old(self).scroll_offset + amount <= u16::MAX,
        ensures
            *final(self) == (DiffView {
                scroll_offset: if old(self).scroll_offset + amount <= old(self).max_scroll() {
                    (old(self).scroll_offset + amount) as u16
                } else {
                    old(self).max_scroll() as u16
                },
                ..*old(self)
            }),
    {
        let max_scroll = if self.total_lines >= self.visible_lines {
            self.total_lines - self.visible_lines
        } else {
            0
        };
        let target = self.scroll_offset + amount;
        self.scroll_offset = if target <= max_scroll {
            target
        } else {
            max_scroll
        };
    }

    /// Scrolls up by `amount` lines, no further than the top.
    pub fn scroll_up(&mut self, amount: u16)
        ensures
            *final(self) == (DiffView {
                scroll_offset: sat_sub(old(self).scroll_offset as int, amount as int) as u16,
                ..*old(self)
            }),
    {
        self.scroll_offset = if self.scroll_offset >= amount {
            self.scroll_offset - amount
        } else {
            0
        };
    }

    /// Scrolls down by a screenful less two lines.
    pub fn page_down(&mut self)
        requires
            old(self).scroll_offset + sat_sub(old(self).visible_lines as int, 2) <= u16::MAX,
        ensures
            *final(self) == (DiffView {
                scroll_offset: if old(self).scroll_offset + sat_sub(old(self).visible_lines as int, 2)
                    <= old(self).max_scroll() {
                    (old(self).scroll_offset + sat_sub(old(self).visible_lines as int, 2)) as u16
                } else {
                    old(self).max_scroll() as u16
                },
                ..*old(self)
            }),
    {
        let step = if self.visible_lines >= 2 {
            self.visible_lines - 2
        } else {
            0
        };
        self.scroll_down(step);
    }

    /// Scrolls up by a screenful less two lines.
    pub fn page_up(&mut self)
        ensures
            *final(self) == (DiffView {
                scroll_offset: sat_sub(
                    old(self).scroll_offset as int,
                    sat_sub(old(self).visible_lines as int, 2),
                ) as u16,
                ..*old(self)
            }),
    {
        let step = if self.visible_lines >= 2 {
            self.visible_lines - 2
        } else {
            0
        };
        self.scroll_up(step);
    }

    /// Scrolls down by half a screenful.
    pub fn half_page_down(&mut self)
        requires
            old(self).scroll_offset + old(self).visible_lines / 2 <= u16::MAX,
        ensures
            *final(self) == (DiffView {
                scroll_offset: if old(self).scroll_offset + old(self).visible_lines / 2 <= old(
                    self,
                ).max_scroll() {
                    (old(self).scroll_offset + old(self).visible_lines / 2) as u16
                } else {
                    old(self).max_scroll() as u16
                },
                ..*old(self)
            }),
    {
        let step = self.visible_lines / 2;
        self.scroll_down(step);
    }

    /// Scrolls up by half a screenful.
    pub fn half_page_up(&mut self)
        ensures
            *final(self) == (DiffView {
                scroll_offset: sat_sub(old(self).scroll_offset as int, (old(self).visible_lines / 2) as int) as u16,
                ..*old(self)
            }),
    {
        let step = self.visible_lines / 2;
        self.scroll_up(step);
    }

    /// Narrows the file list by 5 columns, to no less than 5. The caller
    /// saves the new width.
    pub fn shrink_file_list(&mut self)
        ensures
            *final(self) == (DiffView {
                file_list_width: narrowed_width(old(self).file_list_width),
                ..*old(self)
            }),
    {
        let narrower = if self.file_list_width >= 5 {
            self.file_list_width - 5
        } else {
            0
        };
        self.file_list_width = if narrower >= 5 {
            narrower
        } else {
            5
        };
    }

    /// Widens the file list by 5 columns, to no more than 80; growing
    /// never narrows it. The caller saves the new width.
    pub fn grow_file_list(&mut self)
        ensures
            *final(self) == (DiffView {
                file_list_width: widened_width(old(self).file_list_width),
                ..*old(self)
            }),
            final(self).file_list_width >= old(self).file_list_width,
    {
        if self.file_list_width >= 80 {
            return;
        }
        let wider = self.file_list_width + 5;
        self.file_list_width = if wider <= 80 {
            wider
        } else {
            80
        };
    }

    /// Records what the last render measured: the lines of the current
    /// diff and how many fit on screen.
    pub fn set_render_metrics(&mut self, total_lines: u16, visible_lines: u16)
        ensures
            *final(self) == (DiffView { total_lines, visible_lines, ..*old(self) }),
    {
        self.total_lines = total_lines;
        self.visible_lines = visible_lines;
    }
}

/// The file list width after narrowing: 5 columns less, at least 5.
pub open spec fn narrowed_width(w: u16) -> u16 {
    if w >= 10 {
        (w - 5) as u16
    } else {
        5
    }
}

/// The file list width after widening: 5 columns more, at most 80; a
/// width already at 80 or more (as loaded from the configuration) stays.
pub open spec fn widened_width(w: u16) -> u16 {
    if w >= 80 {
        w
    } else if w + 5 <= 80 {
        (w + 5) as u16
    } else {
        80
    }
}

/// Moving to the next file and back returns to the same selection, with
/// the diff scrolled to the top, wherever there is a next file.
pub proof fn next_then_prev_returns(v: DiffView)
    requires
        v.selected_file + 1 < v.files@.len(),
    ensures
        v.after_next_file().after_prev_file() == (DiffView { scroll_offset: 0, ..v }),
{
    assert(v.files@.len() == v.files.len());
    let n = v.after_next_file();
    assert(n.selected_file == v.selected_file + 1);
    assert(n.after_prev_file().selected_file == v.selected_file);
}

/// Narrowing the file list undoes widening it for widths from 5 to 75,
/// and widening undoes narrowing for widths from 10 to 80.
pub proof fn resizing_file_list_undoes(w: u16)
    ensures
        5 <= w <= 75 ==> narrowed_width(widened_width(w)) == w,
        10 <= w <= 80 ==> widened_width(narrowed_width(w)) == w,
{
}

// ----------------------------------------------------------------------
// The lines of a file diff as drawn
// ----------------------------------------------------------------------

/// How a drawn diff line is coloured.
#[derive(PartialEq, Eq, Structural, Clone, Copy, Debug)]
pub enum DiffLook {
    /// A hunk header.
    Header,
    /// A removed line.
    Delete,
    /// An added line.
    Insert,
    /// An unchanged line.
    Context,
    /// The blank line after a hunk.
    Blank,
}

/// One drawn diff line: the line-number column, the change marker, the
/// text, and its colouring.
pub struct RenderedLine {
    pub numbers: String,
    pub prefix: String,
    pub content: String,
    pub look: DiffLook,
}

/// The larger of two numbers.
pub open spec fn max_nat(a: nat, b: nat) -> nat {
    if a >= b {
        a
    } else {
        b
    }
}

/// A line number, 0 where there is none.
pub open spec fn num_or_zero(n: Option<usize>) -> nat {
    match n {
        Some(k) => k as nat,
        None => 0,
    }
}

/// The largest line number among `ls`.
pub open spec fn lines_max(ls: Seq<DiffLine>) -> nat
    decreases ls.len(),
{
    if ls.len() == 0 {
        0
    } else {
        max_nat(
            lines_max(ls.drop_last()),
            max_nat(num_or_zero(ls.last().old_line_num), num_or_zero(ls.last().new_line_num)),
        )
    }
}

/// The largest line number among the hunks `hs`.
pub open spec fn hunks_max(hs: Seq<DiffHunk>) -> nat
    decreases hs.len(),
{
    if hs.len() == 0 {
        0
    } else {
        max_nat(hunks_max(hs.drop_last()), lines_max(hs.last().lines@))
    }
}

/// The width of the line-number columns: the digits of the largest line
/// number (at least one).
pub open spec fn number_width(hs: Seq<DiffHunk>) -> nat {
    crate::civilizations::decimal_digits(max_nat(hunks_max(hs), 1)).len()
}

/// `n` spaces.
pub open spec fn spaces(n: nat) -> Seq<char> {
    Seq::new(n, |i: int| ' ')
}

/// `s` right-aligned in `w` columns.
pub open spec fn pad_left(s: Seq<char>, w: nat) -> Seq<char> {
    if s.len() < w {
        spaces((w - s.len()) as nat) + s
    } else {
        s
    }
}

/// A line-number cell `w` wide: the number right-aligned, or blank.
pub open spec fn num_cell(n: Option<usize>, w: nat) -> Seq<char> {
    match n {
        Some(k) => pad_left(crate::civilizations::decimal_digits(k as nat), w),
        None => spaces(w),
    }
}

/// `s` without its trailing newlines.
pub open spec fn without_trailing_newlines(s: Seq<char>) -> Seq<char>
    decreases s.len(),
{
    if s.len() > 0 && s.last() == '\n' {
        without_trailing_newlines(s.drop_last())
    } else {
        s
    }
}

/// A hunk's header: `@@ -old_start,old_lines +new_start,new_lines @@`.
pub open spec fn hunk_header(h: DiffHunk) -> Seq<char> {
    "@@ -"@ + crate::civilizations::decimal_digits(h.old_start as nat) + seq![','] + crate::civilizations::decimal_digits(
        h.old_lines as nat,
    ) + " +"@ + crate::civilizations::decimal_digits(h.new_start as nat) + seq![','] + crate::civilizations::decimal_digits(
        h.new_lines as nat,
    ) + " @@"@
}

/// The number of lines among `ls` that exist in the old version: context
/// and deleted lines.
pub open spec fn old_side_count(ls: Seq<DiffLine>) -> nat
    decreases ls.len(),
{
    if ls.len() == 0 {
        0
    } else {
        old_side_count(ls.drop_last()) + if ls.last().tag == ChangeTag::Insert {
            0nat
        } else {
            1nat
        }
    }
}

/// The number of lines among `ls` that exist in the new version: context
/// and inserted lines.
pub open spec fn new_side_count(ls: Seq<DiffLine>) -> nat
    decreases ls.len(),
{
    if ls.len() == 0 {
        0
    } else {
        new_side_count(ls.drop_last()) + if ls.last().tag == ChangeTag::Delete {
            0nat
        } else {
            1nat
        }
    }
}

/// A hunk's header reads, in order, where the hunk starts in the old
/// version and how many of its lines the old version has, then where it
/// starts in the new version and how many of its lines the new version
/// has: for a hunk whose counts agree with its lines, the header is
/// `@@ -start,old +start,new @@` with `old` counting its context and
/// deleted lines and `new` its context and inserted lines.
pub proof fn lemma_hunk_header_reads_counts(h: DiffHunk)
    requires
        h.old_lines == old_side_count(h.lines@),
        h.new_lines == new_side_count(h.lines@),
    ensures
        hunk_header(h) == "@@ -"@ + crate::civilizations::decimal_digits(h.old_start as nat) + seq![',']
            + crate::civilizations::decimal_digits(old_side_count(h.lines@)) + " +"@
            + crate::civilizations::decimal_digits(h.new_start as nat) + seq![',']
            + crate::civilizations::decimal_digits(new_side_count(h.lines@)) + " @@"@,
{
}

/// The marker and colouring of a change.
pub open spec fn change_mark(tag: ChangeTag) -> (Seq<char>, DiffLook) {
    match tag {
        ChangeTag::Delete => ("-"@, DiffLook::Delete),
        ChangeTag::Insert => ("+"@, DiffLook::Insert),
        ChangeTag::Equal => (" "@, DiffLook::Context),
    }
}

/// A diff line as drawn with number columns `w` wide.
pub open spec fn drawn_line(l: DiffLine, w: nat) -> (Seq<char>, Seq<char>, Seq<char>, DiffLook) {
    (
        num_cell(l.old_line_num, w) + seq![' '] + num_cell(l.new_line_num, w) + seq![' '],
        change_mark(l.tag).0,
        without_trailing_newlines(l.content@),
        change_mark(l.tag).1,
    )
}

/// The drawn lines of a hunk: its header, its lines, a blank line.
pub open spec fn drawn_hunk(h: DiffHunk, w: nat) -> Seq<(Seq<char>, Seq<char>, Seq<char>, DiffLook)> {
    seq![(Seq::<char>::empty(), Seq::<char>::empty(), hunk_header(h), DiffLook::Header)] + h.lines@.map_values(
        |l: DiffLine| drawn_line(l, w),
    ) + seq![(Seq::<char>::empty(), Seq::<char>::empty(), Seq::<char>::empty(), DiffLook::Blank)]
}

/// The drawn lines of the hunks `hs`, in order.
pub open spec fn drawn_hunks(hs: Seq<DiffHunk>, w: nat) -> Seq<(Seq<char>, Seq<char>, Seq<char>, DiffLook)>
    decreases hs.len(),
{
    if hs.len() == 0 {
        Seq::empty()
    } else {
        drawn_hunks(hs.drop_last(), w) + drawn_hunk(hs.last(), w)
    }
}

/// The character view of drawn lines.
pub open spec fn rendered_views(ls: Seq<RenderedLine>) -> Seq<(Seq<char>, Seq<char>, Seq<char>, DiffLook)> {
    ls.map_values(|l: RenderedLine| (l.numbers@, l.prefix@, l.content@, l.look))
}

fn max_usize(a: usize, b: usize) -> (r: usize)
    ensures
        r == max_nat(a as nat, b as nat),
{
    if a >= b {
        a
    } else {
        b
    }
}

fn opt_num(n: Option<usize>) -> (r: usize)
    ensures
        r == num_or_zero(n),
{
    match n {
        Some(k) => k,
        None => 0,
    }
}

fn space_chars(n: usize) -> (r: Vec<char>)
    ensures
        r@ == spaces(n as nat),
{
    let mut v: Vec<char> = Vec::new();
    let mut i: usize = 0;
    while i < n
        invariant
            i <= n,
            v@ == spaces(i as nat),
        decreases n - i,
    {
        v.push(' ');
        i += 1;
        assert(v@ =~= spaces(i as nat));
    }
    v
}

fn number_cell(n: Option<usize>, w: usize) -> (r: Vec<char>)
    ensures
        r@ == num_cell(n, w as nat),
{
    match n {
        Some(k) => {
            let d = crate::civilizations::u64_to_decimal(k as u64);
            if d.len() < w {
                let mut v = space_chars(w - d.len());
                extend_chars(&mut v, &d);
                v
            } else {
                d
            }
        },
        None => space_chars(w),
    }
}

fn trim_newlines(s: &str) -> (r: String)
    ensures
        r@ == without_trailing_newlines(s@),
{
    let cs = chars_of(s);
    let mut n: usize = cs.len();
    assert(cs@.take(n as int) =~= cs@);
    while n > 0 && cs[n - 1] == '\n'
        invariant
            n <= cs.len(),
            without_trailing_newlines(cs@.take(n as int)) == without_trailing_newlines(s@),
        decreases n,
    {
        assert(cs@.take(n as int).drop_last() =~= cs@.take(n - 1));
        n -= 1;
    }
    let mut out: Vec<char> = Vec::new();
    let mut i: usize = 0;
    while i < n
        invariant
            i <= n <= cs.len(),
            out@ == cs@.take(i as int),
        decreases n - i,
    {
        out.push(cs[i]);
        i += 1;
        assert(out@ =~= cs@.take(i as int));
    }
    assert(without_trailing_newlines(cs@.take(n as int)) == cs@.take(n as int));
    string_of(&out)
}

fn header_of(h: &DiffHunk) -> (r: String)
    ensures
        r@ == hunk_header(*h),
{
    let mut v = chars_of("@@ -");
    extend_chars(&mut v, &crate::civilizations::u64_to_decimal(h.old_start as u64));
    v.push(',');
    extend_chars(&mut v, &crate::civilizations::u64_to_decimal(h.old_lines as u64));
    extend_chars(&mut v, &chars_of(" +"));
    extend_chars(&mut v, &crate::civilizations::u64_to_decimal(h.new_start as u64));
    v.push(',');
    extend_chars(&mut v, &crate::civilizations::u64_to_decimal(h.new_lines as u64));
    extend_chars(&mut v, &chars_of(" @@"));
    string_of(&v)
}

/// The largest line number of a diff.
fn max_line_number(hunks: &Vec<DiffHunk>) -> (r: usize)
    ensures
        r == hunks_max(hunks@),
{
    let mut m: usize = 0;
    let mut i: usize = 0;
    while i < hunks.len()
        invariant
            i <= hunks@.len(),
            m == hunks_max(hunks@.take(i as int)),
        decreases hunks@.len() - i,
    {
        assert(hunks@.take(i + 1).drop_last() =~= hunks@.take(i as int));
        let ls = &hunks[i].lines;
        let mut lm: usize = 0;
        let mut j: usize = 0;
        while j < ls.len()
            invariant
                j <= ls@.len(),
                lm == lines_max(ls@.take(j as int)),
            decreases ls@.len() - j,
        {
            assert(ls@.take(j + 1).drop_last() =~= ls@.take(j as int));
            lm = max_usize(lm, max_usize(opt_num(ls[j].old_line_num), opt_num(ls[j].new_line_num)));
            j += 1;
        }
        assert(ls@.take(ls@.len() as int) =~= ls@);
        m = max_usize(m, lm);
        i += 1;
    }
    assert(hunks@.take(hunks@.len() as int) =~= hunks@);
    m
}

/// The lines drawn for a (text) diff: each hunk's header, its lines with
/// both line numbers right-aligned in columns as wide as the largest
/// number, and a blank line after it.
pub fn diff_lines(diff: &FileDiff) -> (r: Vec<RenderedLine>)
    ensures
        rendered_views(r@) == drawn_hunks(diff.hunks@, number_width(diff.hunks@)),
{
    proof {
        reveal_strlit("-");
        reveal_strlit("+");
        reveal_strlit(" ");
    }
    let hs = &diff.hunks;
    let top = max_usize(max_line_number(hs), 1);
    let width = crate::civilizations::u64_to_decimal(top as u64).len();
    let ghost w = width as nat;
    let mut out: Vec<RenderedLine> = Vec::new();
    let mut i: usize = 0;
    while i < hs.len()
        invariant
            i <= hs@.len(),
            w == number_width(hs@),
            w == width,
            rendered_views(out@) == drawn_hunks(hs@.take(i as int), w),
        decreases hs@.len() - i,
    {
        assert(hs@.take(i + 1).drop_last() =~= hs@.take(i as int));
        let h = &hs[i];
        let ghost before = rendered_views(out@);
        out.push(RenderedLine { numbers: String::new(), prefix: String::new(), content: header_of(h), look: DiffLook::Header });
        let mut j: usize = 0;
        while j < h.lines.len()
            invariant
                j <= h.lines@.len(),
                i < hs@.len(),
                w == width,
                *h == hs@[i as int],
                rendered_views(out@) == before + seq![
                    (Seq::<char>::empty(), Seq::<char>::empty(), hunk_header(*h), DiffLook::Header),
                ] + h.lines@.take(j as int).map_values(|l: DiffLine| drawn_line(l, w)),
            decreases h.lines@.len() - j,
        {
            proof {
                reveal_strlit("-");
                reveal_strlit("+");
                reveal_strlit(" ");
            }
            let l = &h.lines[j];
            let mut numbers = number_cell(l.old_line_num, width);
            numbers.push(' ');
            extend_chars(&mut numbers, &number_cell(l.new_line_num, width));
            numbers.push(' ');
            let (prefix, look) = match l.tag {
                ChangeTag::Delete => ("-", DiffLook::Delete),
                ChangeTag::Insert => ("+", DiffLook::Insert),
                ChangeTag::Equal => (" ", DiffLook::Context),
            };
            let ghost mid = rendered_views(out@);
            assert(numbers@ == num_cell(l.old_line_num, w) + seq![' '] + num_cell(l.new_line_num, w) + seq![' ']);
            assert((prefix@, look) == change_mark(l.tag));
            let line = RenderedLine {
                numbers: string_of(&numbers),
                prefix: prefix.to_string(),
                content: trim_newlines(l.content.as_str()),
                look,
            };
            assert((line.numbers@, line.prefix@, line.content@, line.look) == drawn_line(*l, w));
            assert(*l == h.lines@[j as int]);
            out.push(line);
            assert(rendered_views(out@) =~= mid.push(drawn_line(h.lines@[j as int], w)));
            assert(h.lines@.take(j + 1).map_values(|l: DiffLine| drawn_line(l, w)) =~= h.lines@.take(
                j as int,
            ).map_values(|l: DiffLine| drawn_line(l, w)).push(drawn_line(h.lines@[j as int], w)));
            j += 1;
        }
        assert(h.lines@.take(h.lines@.len() as int) =~= h.lines@);
        let ghost mid2 = rendered_views(out@);
        let ghost header_line = (Seq::<char>::empty(), Seq::<char>::empty(), hunk_header(*h), DiffLook::Header);
        let ghost blank_line = (Seq::<char>::empty(), Seq::<char>::empty(), Seq::<char>::empty(), DiffLook::Blank);
        assert(mid2 == before + seq![header_line] + h.lines@.map_values(|l: DiffLine| drawn_line(l, w)));
        out.push(RenderedLine { numbers: String::new(), prefix: String::new(), content: String::new(), look: DiffLook::Blank });
        assert(rendered_views(out@) =~= mid2.push(blank_line));
        assert(drawn_hunk(*h, w) == seq![header_line] + h.lines@.map_values(|l: DiffLine| drawn_line(l, w)) + seq![blank_line]);
        assert(rendered_views(out@) =~= before + drawn_hunk(hs@[i as int], w));
        assert(hs@.take(i + 1).last() == hs@[i as int]);
        i += 1;
    }
    assert(hs@.take(hs@.len() as int) =~= hs@);
    out
}

impl DiffView {
    /// Records the size of the drawn diff (`total` lines, `visible` of
    /// them on screen, each kept as its low 16 bits) and pulls the scroll
    /// offset back so that it does not pass the last screenful.
    pub fn fit_scroll(&mut self, total: usize, visible: usize)
        ensures
            final(self).total_lines == total as u16,
            final(self).visible_lines == visible as u16,
            final(self).scroll_offset == if old(self).scroll_offset > sat_sub(total as int, visible as int) {
                sat_sub(total as int, visible as int) as u16
            } else {
                old(self).scroll_offset
            },
            final(self).scroll_offset <= sat_sub(total as int, visible as int),
            *final(self) == (DiffView {
                total_lines: final(self).total_lines,
                visible_lines: final(self).visible_lines,
                scroll_offset: final(self).scroll_offset,
                ..*old(self)
            }),
    {
        self.total_lines = total as u16;
        self.visible_lines = visible as u16;
        let max_scroll = total.saturating_sub(visible);
        if (self.scroll_offset as usize) > max_scroll {
            self.scroll_offset = max_scroll as u16;
        }
    }
}


/// The UTF-8 length of `s`, in bytes.
pub open spec fn byte_len(s: &str) -> nat {
    s.spec_bytes().len()
}

/// Cuts `s` from the left to fit `max_width` bytes: `s` itself where it
/// fits; `.` where at most one byte is allowed; else an ellipsis `…`
/// followed by the last `max_width - 1` bytes of `s`, which must start at
/// a character boundary.
pub fn truncate_left(s: &str, max_width: usize) -> (r: String)
    requires
        byte_len(s) > max_width && max_width > 1 ==> vstd::utf8::is_char_boundary(
            s.spec_bytes(),
            byte_len(s) - (max_width - 1),
        ),
    ensures
        byte_len(s) <= max_width ==> r@ == s@,
        byte_len(s) > max_width && max_width <= 1 ==> r@ == seq!['.'],
        byte_len(s) > max_width && max_width > 1 ==> r@.len() >= 1 && r@[0] == '\u{2026}'
            && vstd::utf8::encode_utf8(r@.drop_first()) == s.spec_bytes().subrange(
            byte_len(s) - (max_width - 1),
            byte_len(s) as int,
        ),
{
    let n = s.as_bytes().len();
    if n <= max_width {
        return s.to_string();
    }
    if max_width <= 1 {
        let mut dot: Vec<char> = Vec::new();
        dot.push('.');
        return string_of(&dot);
    }
    let start = n - (max_width - 1);
    let (_, tail) = s.split_at(start);
    let mut out: Vec<char> = Vec::new();
    out.push('\u{2026}');
    extend_chars(&mut out, &chars_of(tail));
    assert(out@.drop_first() =~= tail@);
    string_of(&out)
}

/// Up to `count` items of `s` from position `start` on.
pub open spec fn window<A>(s: Seq<A>, start: nat, count: nat) -> Seq<A> {
    let a = if start <= s.len() {
        start
    } else {
        s.len()
    };
    let b = if a + count <= s.len() {
        a + count
    } else {
        s.len()
    };
    s.subrange(a as int, b as int)
}

fn copy_line(l: &RenderedLine) -> (r: RenderedLine)
    ensures
        (r.numbers@, r.prefix@, r.content@, r.look) == (l.numbers@, l.prefix@, l.content@, l.look),
{
    RenderedLine { numbers: l.numbers.clone(), prefix: l.prefix.clone(), content: l.content.clone(), look: l.look }
}

impl DiffView {
    /// The diff pane for `diff` in a pane `visible` rows high.  A binary
    /// file shows no lines and changes nothing.  Otherwise the diff's
    /// lines are drawn, their count and the pane's height recorded and the
    /// scroll offset pulled back as in `fit_scroll`, and the lines shown
    /// are those from the scroll offset on that fit the pane.
    pub fn diff_window(&mut self, diff: &FileDiff, visible: usize) -> (r: Vec<RenderedLine>)
        ensures
            diff.is_binary ==> r@.len() == 0 && *final(self) == *old(self),
            !diff.is_binary ==> {
                let all = drawn_hunks(diff.hunks@, number_width(diff.hunks@));
                &&& final(self).total_lines == all.len() as u16
                &&& final(self).visible_lines == visible as u16
                &&& final(self).scroll_offset == if old(self).scroll_offset > sat_sub(all.len() as int, visible as int) {
                    sat_sub(all.len() as int, visible as int) as u16
                } else {
                    old(self).scroll_offset
                }
                &&& *final(self) == (DiffView {
                    total_lines: final(self).total_lines,
                    visible_lines: final(self).visible_lines,
                    scroll_offset: final(self).scroll_offset,
                    ..*old(self)
                })
                &&& rendered_views(r@) == window(all, final(self).scroll_offset as nat, visible as nat)
            },
    {
        if diff.is_binary {
            return Vec::new();
        }
        let lines = diff_lines(diff);
        let ghost all = rendered_views(lines@);
        self.fit_scroll(lines.len(), visible);
        let start = self.scroll_offset as usize;
        let ghost a = if start <= lines.len() {
            start as int
        } else {
            lines.len() as int
        };
        let mut out: Vec<RenderedLine> = Vec::new();
        assert(all.subrange(a, a) =~= Seq::empty());
        let mut i: usize = start;
        while i < lines.len() && i - start < visible
            invariant
                start <= i,
                start <= lines.len() ==> i <= lines.len(),
                start > lines.len() ==> i == start,
                i - start <= visible,
                all == rendered_views(lines@),
                all.len() == lines@.len(),
                a == (if start <= lines.len() {
                    start as int
                } else {
                    lines.len() as int
                }),
                rendered_views(out@) == all.subrange(a, if start <= lines.len() { i as int } else { a }),
            decreases lines.len() - i,
        {
            let ghost before = rendered_views(out@);
            out.push(copy_line(&lines[i]));
            assert(rendered_views(out@) =~= before.push(all[i as int]));
            assert(all.subrange(a, i + 1) =~= all.subrange(a, i as int).push(all[i as int]));
            i += 1;
        }
        proof {
            let b = if a + visible <= all.len() {
                a + visible
            } else {
                all.len() as int
            };
            if start <= lines.len() {
                assert(i == b);
            }
            assert(rendered_views(out@) =~= window(all, start as nat, visible as nat));
        }
        out
    }
}

/// The lines added over `files`.
pub open spec fn total_additions(files: Seq<DiffFile>) -> nat
    decreases files.len(),
{
    if files.len() == 0 {
        0
    } else {
        total_additions(files.drop_last()) + files.last().additions as nat
    }
}

/// The lines removed over `files`.
pub open spec fn total_deletions(files: Seq<DiffFile>) -> nat
    decreases files.len(),
{
    if files.len() == 0 {
        0
    } else {
        total_deletions(files.drop_last()) + files.last().deletions as nat
    }
}

/// What the header line says of the changes.
pub struct DiffSummary {
    /// The repository's directory name (`repo` where it has none).
    pub repo_name: String,
    pub files_changed: usize,
    pub additions: usize,
    pub deletions: usize,
}

impl DiffView {
    /// The summary of the changes: the repository's name, how many files
    /// changed, and the lines added and removed over all of them.
    pub fn summary(&self) -> (r: DiffSummary)
        requires
            total_additions(self.files@) <= usize::MAX,
            total_deletions(self.files@) <= usize::MAX,
        ensures
            r.repo_name@ == crate::git::repo_name_of(self.repo_path@),
            r.files_changed == self.files@.len(),
            r.additions == total_additions(self.files@),
            r.deletions == total_deletions(self.files@),
    {
        proof {
            reveal_strlit("repo");
        }
        let mut adds: usize = 0;
        let mut dels: usize = 0;
        let mut i: usize = 0;
        while i < self.files.len()
            invariant
                i <= self.files@.len(),
                total_additions(self.files@) <= usize::MAX,
                total_deletions(self.files@) <= usize::MAX,
                adds == total_additions(self.files@.take(i as int)),
                dels == total_deletions(self.files@.take(i as int)),
            decreases self.files@.len() - i,
        {
            assert(self.files@.take(i + 1).drop_last() =~= self.files@.take(i as int));
            proof {
                lemma_totals_prefix(self.files@, i as int + 1);
            }
            adds = adds + self.files[i].additions;
            dels = dels + self.files[i].deletions;
            i += 1;
        }
        assert(self.files@.take(self.files@.len() as int) =~= self.files@);
        let repo_name = match crate::paths::file_name(&chars_of(self.repo_path.as_str())) {
            Some(n) => string_of(&n),
            None => "repo".to_string(),
        };
        DiffSummary { repo_name, files_changed: self.files.len(), additions: adds, deletions: dels }
    }
}

proof fn lemma_totals_prefix(files: Seq<DiffFile>, k: int)
    requires
        0 <= k <= files.len(),
    ensures
        total_additions(files.take(k)) <= total_additions(files),
        total_deletions(files.take(k)) <= total_deletions(files),
    decreases files.len() - k,
{
    if k < files.len() {
        assert(files.take(k + 1).drop_last() =~= files.take(k));
        lemma_totals_prefix(files, k + 1);
    } else {
        assert(files.take(k) =~= files);
    }
}

} // verus!
