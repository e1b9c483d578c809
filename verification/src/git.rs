//! Worktree path templates and the path logic of git worktree handling:
//! where a new worktree goes, how a worktree's `.git` file points back to
//! its repository, and which directory is the main repository.

use crate::paths::{components, diff_paths, file_name, file_name_spec, join, join_spec, parent, parent_spec, relative_path, share_ancestor};
use crate::text::{chars_eq, ends_with, is_suffix, chars_of, is_prefix, lines, replace_all, replace_spec, split_lines, starts_with, string_of, trim, trim_spec, views};
use vstd::prelude::*;

verus! {

/// Errors of worktree operations.
pub enum GitError {
    NotAGitRepo,
    WorktreeAlreadyExists(String),
    WorktreeNotFound(String),
    BranchNotFound(String),
    Git2Error(String),
    WorktreeCommandFailed(String),
    IoError(String),
}

/// Values substituted into a worktree path template.
pub struct TemplateVars {
    pub repo_name: String,
    pub branch: String,
    pub session_id: String,
    pub base_path: String,
}

/// Characters that cannot stand in a worktree directory name.
pub open spec fn is_branch_special(c: char) -> bool {
    c == '/' || c == '@' || c == '#' || c == '\\' || c == ':' || c == '*' || c == '?' || c == '"'
        || c == '<' || c == '>' || c == '|'
}

/// `branch` with every special character replaced by `-`.
pub open spec fn sanitized(branch: Seq<char>) -> Seq<char> {
    branch.map_values(|c: char| if is_branch_special(c) { '-' } else { c })
}

/// Turns a branch name into a string usable as one directory name.
pub fn sanitize_branch_name(branch: &str) -> (r: String)
    ensures
        r@ == sanitized(branch@),
{
    let cs = chars_of(branch);
    let mut out: Vec<char> = Vec::new();
    let mut i: usize = 0;
    while i < cs.len()
        invariant
            i <= cs.len(),
            cs@ == branch@,
            out@ == sanitized(cs@.take(i as int)),
        decreases cs.len() - i,
    {
        let c = cs[i];
        let special = c == '/' || c == '@' || c == '#' || c == '\\' || c == ':' || c == '*' || c
            == '?' || c == '"' || c == '<' || c == '>' || c == '|';
        out.push(if special { '-' } else { c });
        i += 1;
        assert(out@ =~= sanitized(cs@.take(i as int)));
    }
    assert(cs@.take(cs.len() as int) =~= cs@);
    string_of(&out)
}

/// The template with its placeholders filled in, in the order
/// `{repo-name}`, `{branch}` (sanitized), `{session-id}`.
pub open spec fn filled_template(
    template: Seq<char>,
    repo_name: Seq<char>,
    branch: Seq<char>,
    session_id: Seq<char>,
) -> Seq<char> {
    replace_spec(
        replace_spec(
            replace_spec(template, "{repo-name}"@, repo_name),
            "{branch}"@,
            sanitized(branch),
        ),
        "{session-id}"@,
        session_id,
    )
}

/// The worktree path a template resolves to: the filled-in template,
/// taken as is when absolute and otherwise relative to the base path.
pub open spec fn resolved_template(
    template: Seq<char>,
    repo_name: Seq<char>,
    branch: Seq<char>,
    session_id: Seq<char>,
    base_path: Seq<char>,
) -> Seq<char> {
    join_spec(base_path, filled_template(template, repo_name, branch, session_id))
}

/// Resolves a worktree path template against the given values.
pub fn resolve_template(template: &str, vars: &TemplateVars) -> (r: Result<String, GitError>)
    ensures
        r matches Ok(p) && p@ == resolved_template(
            template@,
            vars.repo_name@,
            vars.branch@,
            vars.session_id@,
            vars.base_path@,
        ),
{
    proof {
        reveal_strlit("{repo-name}");
        reveal_strlit("{branch}");
        reveal_strlit("{session-id}");
    }
    let sanitized_branch = sanitize_branch_name(vars.branch.as_str());
    let t = chars_of(template);
    let p1 = chars_of("{repo-name}");
    let p2 = chars_of("{branch}");
    let p3 = chars_of("{session-id}");
    let step1 = replace_all(&t, &p1, &chars_of(vars.repo_name.as_str()));
    let step2 = replace_all(&step1, &p2, &chars_of(sanitized_branch.as_str()));
    let resolved = replace_all(&step2, &p3, &chars_of(vars.session_id.as_str()));
    let base = chars_of(vars.base_path.as_str());
    let path = join(&base, &resolved);
    Ok(string_of(&path))
}

/// A worktree as listed for a repository.
pub struct WorktreeEntry {
    pub path: String,
    pub branch: Option<String>,
    pub is_detached: bool,
}

/// A listed worktree's path, branch and whether its `HEAD` is detached.
pub open spec fn entry_view(e: WorktreeEntry) -> (Seq<char>, Option<Seq<char>>, bool) {
    (
        e.path@,
        match e.branch {
            Some(b) => Some(b@),
            None => None,
        },
        e.is_detached,
    )
}

/// A linked worktree's path and branch, as character sequences.
pub open spec fn linked_view(l: (String, Option<String>)) -> (Seq<char>, Option<Seq<char>>, bool) {
    (
        l.0@,
        match l.1 {
            Some(b) => Some(b@),
            None => None,
        },
        false,
    )
}

/// A repository whose worktrees are managed.
pub struct GitWorktree {
    pub repo_path: String,
}

/// The repository name used in templates: the final name of the
/// repository path, or `repo` when it has none.
pub open spec fn repo_name_of(repo_path: Seq<char>) -> Seq<char> {
    match file_name_spec(repo_path) {
        Some(n) => n,
        None => "repo"@,
    }
}

impl GitWorktree {
    /// Wraps `repo_path`, which the caller has found to be (`is_repo`)
    /// or not to be a git repository.
    pub fn new(repo_path: String, is_repo: bool) -> (r: Result<GitWorktree, GitError>)
        ensures
            is_repo ==> (r matches Ok(w) && w.repo_path == repo_path),
            !is_repo ==> r matches Err(GitError::NotAGitRepo),
    {
        if !is_repo {
            return Err(GitError::NotAGitRepo);
        }
        Ok(GitWorktree { repo_path })
    }

    /// Where a worktree for `branch` goes under this repository.
    pub fn compute_path(&self, branch: &str, template: &str, session_id: &str) -> (r: Result<
        String,
        GitError,
    >)
        ensures
            r matches Ok(p) && p@ == resolved_template(
                template@,
                repo_name_of(self.repo_path@),
                branch@,
                session_id@,
                self.repo_path@,
            ),
    {
        proof {
            reveal_strlit("repo");
        }
        let path = chars_of(self.repo_path.as_str());
        let repo_name = match file_name(&path) {
            Some(n) => string_of(&n),
            None => "repo".to_string(),
        };
        let vars = TemplateVars {
            repo_name,
            branch: branch.to_string(),
            session_id: session_id.to_string(),
            base_path: self.repo_path.clone(),
        };
        resolve_template(template, &vars)
    }
}

impl GitWorktree {
    /// The worktrees of the repository: where it has a working directory
    /// (is not bare), its main worktree first, on `main_branch` and with
    /// `HEAD` detached where `main_detached`; then each linked worktree
    /// with its (canonical) path and branch, not detached.
    pub fn list_worktrees(
        &self,
        is_bare: bool,
        main_branch: Option<String>,
        main_detached: bool,
        linked: Vec<(String, Option<String>)>,
    ) -> (r: Vec<WorktreeEntry>)
        ensures
            r@.map_values(|e: WorktreeEntry| entry_view(e)) == (if is_bare {
                Seq::empty()
            } else {
                seq![
                    (
                        self.repo_path@,
                        match main_branch {
                            Some(b) => Some(b@),
                            None => None,
                        },
                        main_detached,
                    ),
                ]
            }) + linked@.map_values(|l: (String, Option<String>)| linked_view(l)),
    {
        let mut entries: Vec<WorktreeEntry> = Vec::new();
        if !is_bare {
            entries.push(WorktreeEntry { path: self.repo_path.clone(), branch: main_branch, is_detached: main_detached });
        }
        let ghost head = entries@.map_values(|e: WorktreeEntry| entry_view(e));
        let ghost lv = linked@.map_values(|l: (String, Option<String>)| linked_view(l));
        let mut i: usize = 0;
        while i < linked.len()
            invariant
                i <= linked@.len(),
                lv == linked@.map_values(|l: (String, Option<String>)| linked_view(l)),
                entries@.map_values(|e: WorktreeEntry| entry_view(e)) == head + lv.take(i as int),
            decreases linked@.len() - i,
        {
            let (p, b) = &linked[i];
            let ghost before = entries@.map_values(|e: WorktreeEntry| entry_view(e));
            entries.push(WorktreeEntry { path: p.clone(), branch: b.clone(), is_detached: false });
            assert(entries@.map_values(|e: WorktreeEntry| entry_view(e)) =~= before.push(lv[i as int]));
            assert(lv.take(i + 1) =~= lv.take(i as int).push(lv[i as int]));
            i += 1;
        }
        assert(lv.take(linked@.len() as int) =~= lv);
        entries
    }

    /// The relative path leading from `base` to `target`; none when the
    /// two paths have no common ancestor.
    pub fn diff_paths(target: &str, base: &str) -> (r: Option<String>)
        ensures
            r is None <==> !share_ancestor(target@, base@),
            r matches Some(p) ==> p@ == relative_path(target@, base@),
    {
        match diff_paths(&chars_of(target), &chars_of(base)) {
            Some(rel) => Some(string_of(&rel)),
            None => None,
        }
    }
}

/// Whether the remote-tracking branch `name` stands for `branch`: it is
/// `branch` itself or ends in `/branch`.
pub open spec fn remote_matches(name: Seq<char>, branch: Seq<char>) -> bool {
    is_suffix(seq!['/'] + branch, name) || name == branch
}

/// Whether the remote-tracking branch `name` stands for `branch`.
pub fn remote_branch_matches(name: &str, branch: &str) -> (r: bool)
    ensures
        r == remote_matches(name@, branch@),
{
    let n = chars_of(name);
    let b = chars_of(branch);
    let mut slash_branch: Vec<char> = Vec::new();
    slash_branch.push('/');
    crate::text::extend_chars(&mut slash_branch, &b);
    assert(slash_branch@ =~= seq!['/'] + branch@);
    ends_with(&n, &slash_branch) || chars_eq(&n, &b)
}

/// Why no worktree can be made at `path`: something is already there.
pub fn existing_path_error(path: &str, path_exists: bool) -> (r: Option<GitError>)
    ensures
        path_exists ==> (r matches Some(GitError::WorktreeAlreadyExists(p)) && p@ == path@),
        !path_exists ==> r is None,
{
    if path_exists {
        Some(GitError::WorktreeAlreadyExists(path.to_string()))
    } else {
        None
    }
}

/// Why a worktree cannot be made on the existing branch `branch`: there
/// is no local branch of that name and no remote-tracking branch stands
/// for it.  A new branch is always possible.
pub fn missing_branch_error(
    create_branch: bool,
    local_exists: bool,
    remote_names: &Vec<String>,
    branch: &str,
) -> (r: Option<GitError>)
    ensures
        !create_branch && !local_exists && !(exists|i: int|
            0 <= i < remote_names@.len() && remote_matches(#[trigger] remote_names@[i]@, branch@)) ==> (r matches Some(
            GitError::BranchNotFound(b),
        ) && b@ == branch@),
        (create_branch || local_exists || exists|i: int|
            0 <= i < remote_names@.len() && remote_matches(#[trigger] remote_names@[i]@, branch@)) ==> r is None,
{
    if create_branch || local_exists {
        return None;
    }
    let mut i: usize = 0;
    while i < remote_names.len()
        invariant
            i <= remote_names@.len(),
            forall|j: int| 0 <= j < i ==> !remote_matches(#[trigger] remote_names@[j]@, branch@),
        decreases remote_names@.len() - i,
    {
        if remote_branch_matches(remote_names[i].as_str(), branch) {
            return None;
        }
        i += 1;
    }
    Some(GitError::BranchNotFound(branch.to_string()))
}

// ----------------------------------------------------------------------
// `.git` files of linked worktrees
// ----------------------------------------------------------------------

/// The value of the first line that starts with `gitdir:`, trimmed.
pub open spec fn gitdir_in_lines(ls: Seq<Seq<char>>) -> Option<Seq<char>>
    decreases ls.len(),
{
    if ls.len() == 0 {
        None
    } else if is_prefix("gitdir:"@, ls[0]) {
        Some(trim_spec(ls[0].skip(7)))
    } else {
        gitdir_in_lines(ls.drop_first())
    }
}

/// Reads the repository directory a worktree's `.git` file points to:
/// the trimmed value of its first `gitdir:` line.
pub fn gitdir_from_content(content: &str) -> (r: Option<String>)
    ensures
        r matches Some(g) ==> gitdir_in_lines(lines(content@)) == Some(g@),
        r is None ==> gitdir_in_lines(lines(content@)) is None,
{
    proof {
        reveal_strlit("gitdir:");
    }
    let prefix = chars_of("gitdir:");
    let ls = split_lines(&chars_of(content));
    let mut i: usize = 0;
    assert(views(ls@).skip(0) =~= views(ls@));
    while i < ls.len()
        invariant
            i <= ls.len(),
            prefix@ == "gitdir:"@,
            prefix@.len() == 7,
            views(ls@) == lines(content@),
            gitdir_in_lines(lines(content@)) == gitdir_in_lines(views(ls@).skip(i as int)),
        decreases ls.len() - i,
    {
        let ghost rest = views(ls@).skip(i as int);
        assert(rest[0] == ls@[i as int]@);
        assert(rest.drop_first() =~= views(ls@).skip(i + 1));
        if starts_with(&ls[i], &prefix) {
            let line = &ls[i];
            let mut value: Vec<char> = Vec::new();
            let mut j: usize = 7;
            while j < line.len()
                invariant
                    7 <= j <= line.len(),
                    value@ == line@.subrange(7, j as int),
                decreases line.len() - j,
            {
                value.push(line[j]);
                j += 1;
                assert(value@ =~= line@.subrange(7, j as int));
            }
            assert(value@ =~= line@.skip(7));
            let t = trim(&value);
            return Some(string_of(&t));
        }
        i += 1;
    }
    None
}

/// Where a `gitdir` value read from the `.git` file at `git_file` points:
/// an absolute value as is, a relative one from the file's directory.
pub open spec fn gitdir_location(git_file: Seq<char>, gitdir: Seq<char>) -> Option<Seq<char>> {
    if gitdir.len() > 0 && gitdir[0] == '/' {
        Some(gitdir)
    } else {
        match parent_spec(git_file) {
            Some(dir) => Some(join_spec(dir, gitdir)),
            None => None,
        }
    }
}

/// Resolves a `gitdir` value against the `.git` file it was read from.
pub fn resolve_gitdir(git_file: &str, gitdir: &str) -> (r: Option<String>)
    ensures
        r matches Some(p) ==> gitdir_location(git_file@, gitdir@) == Some(p@),
        r is None ==> gitdir_location(git_file@, gitdir@) is None,
{
    let g = chars_of(gitdir);
    if g.len() > 0 && g[0] == '/' {
        return Some(gitdir.to_string());
    }
    match parent(&chars_of(git_file)) {
        Some(dir) => Some(string_of(&join(&dir, &g))),
        None => None,
    }
}

/// `s` with every leading repetition of `pat` removed.
pub open spec fn strip_all_prefix(s: Seq<char>, pat: Seq<char>) -> Seq<char>
    decreases s.len(),
{
    if pat.len() > 0 && is_prefix(pat, s) {
        strip_all_prefix(s.skip(pat.len() as int), pat)
    } else {
        s
    }
}

/// The content of a `.git` file pointing at `gitdir`.
pub open spec fn gitdir_file_content(gitdir: Seq<char>) -> Seq<char> {
    "gitdir: "@ + gitdir + seq!['\n']
}

/// The value of the first `gitdir:` line, with all leading `gitdir:`
/// repetitions removed, trimmed (how the rewriting of `.git` files reads
/// it).
pub open spec fn gitdir_rewrite_value(ls: Seq<Seq<char>>) -> Option<Seq<char>>
    decreases ls.len(),
{
    if ls.len() == 0 {
        None
    } else if is_prefix("gitdir:"@, ls[0]) {
        Some(trim_spec(strip_all_prefix(ls[0], "gitdir:"@)))
    } else {
        gitdir_rewrite_value(ls.drop_first())
    }
}

/// Reads the `gitdir` value of a `.git` file about to be rewritten.
pub fn gitdir_value_for_rewrite(content: &str) -> (r: Option<String>)
    ensures
        r matches Some(g) ==> gitdir_rewrite_value(lines(content@)) == Some(g@),
        r is None ==> gitdir_rewrite_value(lines(content@)) is None,
{
    proof {
        reveal_strlit("gitdir:");
    }
    let prefix = chars_of("gitdir:");
    let ls = split_lines(&chars_of(content));
    let mut i: usize = 0;
    assert(views(ls@).skip(0) =~= views(ls@));
    while i < ls.len()
        invariant
            i <= ls.len(),
            prefix@ == "gitdir:"@,
            prefix@.len() == 7,
            views(ls@) == lines(content@),
            gitdir_rewrite_value(lines(content@)) == gitdir_rewrite_value(views(ls@).skip(i as int)),
        decreases ls.len() - i,
    {
        let ghost rest = views(ls@).skip(i as int);
        assert(rest[0] == ls@[i as int]@);
        assert(rest.drop_first() =~= views(ls@).skip(i + 1));
        if starts_with(&ls[i], &prefix) {
            let line = &ls[i];
            let mut k: usize = 0;
            assert(line@.skip(0) =~= line@);
            while k < line.len() && crate::text::starts_with_at(line, &prefix, k)
                invariant
                    k <= line.len(),
                    prefix@ == "gitdir:"@,
                    prefix@.len() == 7,
                    strip_all_prefix(line@, prefix@) == strip_all_prefix(line@.skip(k as int), prefix@),
                decreases line.len() - k,
            {
                assert(line@.skip(k as int).take(7) =~= line@.subrange(k as int, k + 7));
                assert(line@.skip(k as int).skip(7) =~= line@.skip(k + 7));
                k += 7;
            }
            assert(!crate::text::is_prefix(prefix@, line@.skip(k as int))) by {
                if crate::text::is_prefix(prefix@, line@.skip(k as int)) {
                    assert(line@.skip(k as int).take(7) =~= line@.subrange(k as int, k + 7));
                }
            }
            let mut value: Vec<char> = Vec::new();
            let mut j: usize = k;
            while j < line.len()
                invariant
                    k <= j <= line.len(),
                    value@ == line@.subrange(k as int, j as int),
                decreases line.len() - j,
            {
                value.push(line[j]);
                j += 1;
                assert(value@ =~= line@.subrange(k as int, j as int));
            }
            assert(value@ =~= line@.skip(k as int));
            let t = trim(&value);
            return Some(string_of(&t));
        }
        i += 1;
    }
    None
}

/// The content of a `.git` file that points at `gitdir`.
pub fn make_gitdir_file_content(gitdir: &str) -> (r: String)
    ensures
        r@ == gitdir_file_content(gitdir@),
{
    proof {
        reveal_strlit("gitdir: ");
    }
    let mut r = "gitdir: ".to_string();
    r.append(gitdir);
    r.push('\n');
    r
}

// ----------------------------------------------------------------------
// Main repository of a linked worktree
// ----------------------------------------------------------------------

/// The directories around a worktree's `gitdir`, when it has the
/// `<repo>/worktrees/<name>` shape.
pub struct WorktreeGitdirLayout {
    /// The repository directory holding `worktrees` (`.git` or a bare one).
    pub git_or_bare_dir: String,
    /// The directory holding that repository directory.
    pub parent_dir: String,
    /// The repository directory is named `.git`.
    pub in_dot_git: bool,
}

/// The layout of `gitdir`: its parent must be named `worktrees`, and
/// that must have a parent, which must have a parent too.
pub open spec fn worktree_layout_spec(gitdir: Seq<char>) -> Option<(Seq<char>, Seq<char>, bool)> {
    match parent_spec(gitdir) {
        None => None,
        Some(wt) => if file_name_spec(wt) != Some("worktrees"@) {
            None
        } else {
            match parent_spec(wt) {
                None => None,
                Some(g) => match parent_spec(g) {
                    None => None,
                    Some(pd) => Some((g, pd, file_name_spec(g) == Some(".git"@))),
                },
            }
        },
    }
}

/// Finds the repository directories around a worktree's `gitdir`.
pub fn worktree_gitdir_layout(gitdir: &str) -> (r: Option<WorktreeGitdirLayout>)
    ensures
        r matches Some(l) ==> worktree_layout_spec(gitdir@) == Some(
            (l.git_or_bare_dir@, l.parent_dir@, l.in_dot_git),
        ),
        r is None ==> worktree_layout_spec(gitdir@) is None,
{
    proof {
        reveal_strlit("worktrees");
        reveal_strlit(".git");
    }
    let worktrees_dir = match parent(&chars_of(gitdir)) {
        Some(d) => d,
        None => return None,
    };
    let wt_name = chars_of("worktrees");
    match file_name(&worktrees_dir) {
        Some(n) => {
            if !crate::text::chars_eq(&n, &wt_name) {
                return None;
            }
        },
        None => return None,
    }
    let git_or_bare_dir = match parent(&worktrees_dir) {
        Some(d) => d,
        None => return None,
    };
    let parent_dir = match parent(&git_or_bare_dir) {
        Some(d) => d,
        None => return None,
    };
    let dot_git = chars_of(".git");
    let in_dot_git = match file_name(&git_or_bare_dir) {
        Some(n) => crate::text::chars_eq(&n, &dot_git),
        None => false,
    };
    Some(
        WorktreeGitdirLayout {
            git_or_bare_dir: string_of(&git_or_bare_dir),
            parent_dir: string_of(&parent_dir),
            in_dot_git,
        },
    )
}

/// The main repository of a linked worktree: the directory holding the
/// repository directory when that is `.git` or when it has a `.git`
/// entry of its own (`parent_has_dot_git`), else the (bare) repository
/// directory itself.
pub fn main_repo_from_layout(layout: &WorktreeGitdirLayout, parent_has_dot_git: bool) -> (r: String)
    ensures
        r@ == if layout.in_dot_git || parent_has_dot_git {
            layout.parent_dir@
        } else {
            layout.git_or_bare_dir@
        },
{
    if layout.in_dot_git || parent_has_dot_git {
        layout.parent_dir.clone()
    } else {
        layout.git_or_bare_dir.clone()
    }
}

/// What was found out about a repository directory: whether it opens as
/// a repository (its git directory and working directory), and the main
/// repository its `.git` file points to, where it is a linked worktree.
pub struct RepoProbe {
    pub opened: Option<OpenedRepo>,
    /// The main repository found through a `.git` file, if any.
    pub linked_main: Option<String>,
}

pub struct OpenedRepo {
    /// The repository's git directory.
    pub git_dir: String,
    /// Its working directory; none for a bare repository.
    pub workdir: Option<String>,
    /// Whether the directory above the repository directory of a
    /// `.../worktrees/<name>` git directory has a `.git` entry.
    pub layout_parent_has_dot_git: bool,
    /// Whether the directory holding the git directory has a `.git`
    /// entry.
    pub git_dir_parent_has_dot_git: bool,
}

/// The main repository of the probed directory: for a repository that
/// opens, the main repository of a linked worktree's git directory, else
/// its working directory, else (bare) the directory holding it where that
/// has a `.git` entry pointing at it, else the bare repository itself;
/// for one that does not open, the main repository its `.git` file
/// points to.
pub open spec fn main_repo_spec(probe: RepoProbe) -> Option<Seq<char>> {
    match probe.opened {
        Some(o) => match worktree_layout_spec(o.git_dir@) {
            Some((g, pd, in_git)) => Some(
                if in_git || o.layout_parent_has_dot_git {
                    pd
                } else {
                    g
                },
            ),
            None => match o.workdir {
                Some(w) => Some(w@),
                None => match parent_spec(o.git_dir@) {
                    None => None,
                    Some(p) => Some(
                        if o.git_dir_parent_has_dot_git {
                            p
                        } else {
                            o.git_dir@
                        },
                    ),
                },
            },
        },
        None => match probe.linked_main {
            Some(m) => Some(m@),
            None => None,
        },
    }
}

/// The probed directory opens as a bare repository whose git directory
/// has no parent (the file-system root) and is not a linked worktree's.
pub open spec fn bare_at_root(probe: RepoProbe) -> bool {
    probe.opened matches Some(o) && worktree_layout_spec(o.git_dir@) is None && o.workdir is None
        && parent_spec(o.git_dir@) is None
}

/// The main repository is found exactly for the directories that are
/// repositories (they open as one, or are linked worktrees whose main
/// repository was found), but for a bare repository at the file-system
/// root.
pub proof fn lemma_main_repo_iff_repository(probe: RepoProbe)
    requires
        !bare_at_root(probe),
    ensures
        main_repo_spec(probe) is Some <==> (probe.opened is Some || probe.linked_main is Some),
{
}

impl GitWorktree {
    /// Whether the probed directory is a repository: it opens as one or
    /// is a linked worktree whose main repository was found.
    pub fn is_git_repo(probe: &RepoProbe) -> (r: bool)
        ensures
            r == (probe.opened is Some || probe.linked_main is Some),
    {
        probe.opened.is_some() || probe.linked_main.is_some()
    }

    /// Whether the probed directory opens as a bare repository (one with
    /// no working directory).
    pub fn is_bare_repo(probe: &RepoProbe) -> (r: bool)
        ensures
            r == (probe.opened matches Some(o) && o.workdir is None),
    {
        match &probe.opened {
            Some(o) => o.workdir.is_none(),
            None => false,
        }
    }

    /// The main repository of the probed directory; not a repository
    /// where none is found.
    pub fn find_main_repo(probe: &RepoProbe) -> (r: Result<String, GitError>)
        ensures
            match main_repo_spec(*probe) {
                Some(m) => r matches Ok(x) && x@ == m,
                None => r matches Err(GitError::NotAGitRepo),
            },
    {
        match &probe.opened {
            Some(o) => {
                match worktree_gitdir_layout(o.git_dir.as_str()) {
                    Some(layout) => {
                        return Ok(main_repo_from_layout(&layout, o.layout_parent_has_dot_git));
                    },
                    None => {},
                }
                match &o.workdir {
                    Some(w) => {
                        return Ok(w.clone());
                    },
                    None => {},
                }
                match parent(&chars_of(o.git_dir.as_str())) {
                    None => Err(GitError::NotAGitRepo),
                    Some(p) => {
                        if o.git_dir_parent_has_dot_git {
                            Ok(string_of(&p))
                        } else {
                            Ok(o.git_dir.clone())
                        }
                    },
                }
            },
            None => match &probe.linked_main {
                Some(m) => Ok(m.clone()),
                None => Err(GitError::NotAGitRepo),
            },
        }
    }

    /// The current branch from the short name of the repository's HEAD
    /// (`None` where HEAD has no short name).
    pub fn get_current_branch(head_shorthand: Option<String>) -> (r: Result<String, GitError>)
        ensures
            match head_shorthand {
                Some(b) => r matches Ok(x) && x == b,
                None => r matches Err(GitError::NotAGitRepo),
            },
    {
        match head_shorthand {
            Some(b) => Ok(b),
            None => Err(GitError::NotAGitRepo),
        }
    }
}

} // verus!
