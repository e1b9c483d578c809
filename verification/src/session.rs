//! Session-level data shared by several parts of the library: the status
//! of an agent session and the sandbox settings of a session.

use crate::civilizations::{generate_random_title, random_title};
use crate::containers::{sandbox_name, ContainerRuntimeName, DockerContainer};
use crate::text_input::string_seq;
use crate::git::WorktreeEntry;
use crate::text::extend_chars;
use crate::paths::{join, join_spec};
use crate::text::{chars_eq, chars_of, string_of};
use vstd::prelude::*;

verus! {

/// The state an agent session is in.
#[derive(PartialEq, Eq, Structural, Clone, Copy, Debug)]
pub enum Status {
    Running,
    Waiting,
    Idle,
    Error,
    Starting,
    Unknown,
    Stopped,
    Deleting,
}

/// Sandbox settings from the configuration.
pub struct SandboxConfig {
    /// Environment entries: `KEY` passes the host value through,
    /// `KEY=VALUE` sets a value (`$VAR` reads the host, `$$` is a `$`).
    pub environment: Vec<String>,
    /// Extra instruction handed to the agent inside the sandbox.
    pub custom_instruction: Option<String>,
    /// Which container runtime runs sandboxes.
    pub container_runtime: ContainerRuntimeName,
}

/// Sandbox state of one session.
pub struct SandboxInfo {
    pub enabled: bool,
    pub container_id: Option<String>,
    pub image: String,
    pub container_name: String,
    /// When the container was created, in Unix seconds.
    pub created_at: Option<i64>,
    /// Per-session environment entries; when present they replace the
    /// configured ones.
    pub extra_env: Option<Vec<String>>,
    pub custom_instruction: Option<String>,
}

impl Default for SandboxConfig {
    /// An empty environment list, no instruction, Docker.
    fn default() -> (c: SandboxConfig)
        ensures
            c.environment@.len() == 0,
            c.custom_instruction is None,
            c.container_runtime == ContainerRuntimeName::Docker,
    {
        SandboxConfig {
            environment: Vec::new(),
            custom_instruction: None,
            container_runtime: ContainerRuntimeName::Docker,
        }
    }
}

/// The name of the profile used where none is given.
pub open spec fn default_profile() -> Seq<char> {
    "default"@
}

/// The profile a name selects: the default profile for an empty name.
pub open spec fn profile_for(name: Seq<char>) -> Seq<char> {
    if name.len() == 0 {
        default_profile()
    } else {
        name
    }
}

/// Where the sessions of a profile are stored, inside its directory.
pub open spec fn sessions_file(profile_dir: Seq<char>) -> Seq<char> {
    join_spec(profile_dir, "sessions.json"@)
}

/// Access to the stored sessions of one profile.
pub struct Storage {
    profile: String,
    sessions_path: String,
}

impl Storage {
    pub closed spec fn profile_view(self) -> Seq<char> {
        self.profile@
    }

    pub closed spec fn sessions_path_view(self) -> Seq<char> {
        self.sessions_path@
    }

    /// The profile that `profile` selects (the default profile for an
    /// empty name): the name whose directory the caller looks up.
    pub fn profile_name(profile: &str) -> (r: String)
        ensures
            r@ == profile_for(profile@),
    {
        proof {
            reveal_strlit("default");
        }
        if chars_of(profile).len() == 0 {
            "default".to_string()
        } else {
            profile.to_string()
        }
    }

    /// The storage of the profile `profile` selects, given the outcome of
    /// looking up that profile's directory.
    pub fn new(profile: &str, profile_dir: Result<String, String>) -> (r: Result<Storage, String>)
        ensures
            match profile_dir {
                Err(e) => r matches Err(x) && x@ == e@,
                Ok(d) => r matches Ok(st) && st.profile_view() == profile_for(profile@)
                    && st.sessions_path_view() == sessions_file(d@),
            },
    {
        proof {
            reveal_strlit("sessions.json");
        }
        let name = Storage::profile_name(profile);
        match profile_dir {
            Err(e) => Err(e),
            Ok(d) => {
                let path = join(&chars_of(d.as_str()), &chars_of("sessions.json"));
                Ok(Storage { profile: name, sessions_path: string_of(&path) })
            },
        }
    }

    /// The profile name.
    pub fn profile(&self) -> (r: &str)
        ensures
            r@ == self.profile_view(),
    {
        self.profile.as_str()
    }

    /// The file the sessions are stored in.
    pub fn sessions_path(&self) -> (r: &str)
        ensures
            r@ == self.sessions_path_view(),
    {
        self.sessions_path.as_str()
    }
}

/// Options of the `list` command.
pub struct ListArgs {
    /// Print JSON.
    pub json: bool,
    /// List the sessions of every profile.
    pub all: bool,
}

/// The `profile` subcommands.
pub enum ProfileCommands {
    List,
    Create { name: String },
    Delete { name: String },
    Rename { old_name: String, new_name: String },
    /// Show the default profile, or set it where a name is given.
    Default { name: Option<String> },
}

/// What a new session is made from.
pub struct InstanceParams {
    pub title: String,
    pub path: String,
    pub group: String,
    pub tool: String,
    pub worktree_branch: Option<String>,
    pub create_new_branch: bool,
    pub sandbox: bool,
    /// The sandbox image; needed where `sandbox` is set.
    pub sandbox_image: String,
    pub yolo_mode: bool,
    /// Extra environment entries for the container: `KEY` passes the
    /// host value, `KEY=VALUE` sets one.
    pub extra_env: Vec<String>,
    /// Arguments appended after the agent binary.
    pub extra_args: String,
    /// Replaces the agent binary where not empty.
    pub command_override: String,
}

/// A worktree made while building a session, removed again where the
/// build is abandoned.
pub struct CreatedWorktree {
    pub path: String,
    pub main_repo_path: String,
}

/// What is undone for an abandoned session: the worktree made for it,
/// and its container where it is sandboxed and the container exists.
pub struct CleanupPlan {
    /// (main repository, worktree path) of the worktree to remove.
    pub remove_worktree: Option<(String, String)>,
    /// Whether to remove the sandbox container (forcibly).
    pub remove_container: bool,
}

/// The cleanup of an abandoned session: remove the worktree that was
/// made for it; remove its container where the sandbox is enabled and
/// the container exists (`container_exists`, false where that could not
/// be found out). The caller then ends the session's terminal session.
pub fn cleanup_instance(
    created_worktree: Option<&CreatedWorktree>,
    sandbox_enabled: bool,
    container_exists: bool,
) -> (r: CleanupPlan)
    ensures
        match created_worktree {
            Some(wt) => r.remove_worktree matches Some(p) && p.0@ == wt.main_repo_path@ && p.1@ == wt.path@,
            None => r.remove_worktree is None,
        },
        r.remove_container == (sandbox_enabled && container_exists),
{
    let remove_worktree = match created_worktree {
        Some(wt) => Some((wt.main_repo_path.clone(), wt.path.clone())),
        None => None,
    };
    CleanupPlan { remove_worktree, remove_container: sandbox_enabled && container_exists }
}

/// How a new session gets its worktree.
#[derive(PartialEq, Eq, Structural, Clone, Copy, Debug)]
pub enum WorktreeChoice {
    /// The listed worktree at this index already has the branch checked
    /// out; the session uses it and it is not the session's to remove.
    UseExisting(usize),
    /// A worktree is made for the existing branch.
    CreateForExistingBranch,
    /// A worktree is made on a new branch.
    CreateWithNewBranch,
}

/// The index of the first listed worktree on `branch`.
pub open spec fn first_on_branch(entries: Seq<WorktreeEntry>, branch: Seq<char>) -> Option<int>
    decreases entries.len(),
{
    if entries.len() == 0 {
        None
    } else {
        match first_on_branch(entries.drop_last(), branch) {
            Some(i) => Some(i),
            None => if entries.last().branch matches Some(b) && b@ == branch {
                Some(entries.len() - 1)
            } else {
                None
            },
        }
    }
}

/// Decides where a session on `branch` works: on a new branch always in
/// a new worktree; on an existing branch in the first listed worktree
/// that has it checked out, else in a new worktree.
pub fn choose_worktree(create_new_branch: bool, existing: &Vec<WorktreeEntry>, branch: &str) -> (r: WorktreeChoice)
    ensures
        create_new_branch ==> r == WorktreeChoice::CreateWithNewBranch,
        !create_new_branch ==> match first_on_branch(existing@, branch@) {
            Some(i) => r == WorktreeChoice::UseExisting(i as usize),
            None => r == WorktreeChoice::CreateForExistingBranch,
        },
{
    if create_new_branch {
        return WorktreeChoice::CreateWithNewBranch;
    }
    let b = chars_of(branch);
    let mut i: usize = 0;
    while i < existing.len()
        invariant
            i <= existing@.len(),
            !create_new_branch,
            b@ == branch@,
            first_on_branch(existing@.take(i as int), branch@) is None,
        decreases existing@.len() - i,
    {
        assert(existing@.take(i + 1).drop_last() =~= existing@.take(i as int));
        let on_branch = match &existing[i].branch {
            Some(name) => chars_eq(&chars_of(name.as_str()), &b),
            None => false,
        };
        if on_branch {
            assert(existing@.take(i + 1).last() == existing@[i as int]);
            proof {
                lemma_first_on_branch_prefix(existing@, branch@, i as int + 1);
            }
            return WorktreeChoice::UseExisting(i);
        }
        i += 1;
    }
    assert(existing@.take(existing@.len() as int) =~= existing@);
    WorktreeChoice::CreateForExistingBranch
}

/// A first match lies inside the listing.
proof fn lemma_first_on_branch_bound(entries: Seq<WorktreeEntry>, branch: Seq<char>)
    ensures
        first_on_branch(entries, branch) matches Some(i) ==> 0 <= i < entries.len(),
    decreases entries.len(),
{
    if entries.len() > 0 {
        lemma_first_on_branch_bound(entries.drop_last(), branch);
    }
}

/// What the worktree step does for a session on a branch.
pub enum WorktreeAction {
    /// Work in the listed worktree at this path; it is not the session's.
    UseExisting(String),
    /// Make a worktree at this path, on a new branch where the flag is set.
    Create(String, bool),
}

/// Decides the worktree step of a session on `branch`, given the listed
/// worktrees and the path a new worktree would get: on a new branch a
/// worktree is made at that path, unless something is already there; on
/// an existing branch the first listed worktree that has it is used, else
/// one is made at that path.
pub fn worktree_action(
    create_new_branch: bool,
    existing: &Vec<WorktreeEntry>,
    branch: &str,
    new_path: &str,
    new_path_exists: bool,
) -> (r: Result<WorktreeAction, String>)
    ensures
        create_new_branch && new_path_exists ==> (r matches Err(m) && m@ == "Worktree already exists at "@
            + new_path@),
        create_new_branch && !new_path_exists ==> (r matches Ok(WorktreeAction::Create(p, nb)) && nb && p@
            == new_path@),
        !create_new_branch ==> match first_on_branch(existing@, branch@) {
            Some(i) => r matches Ok(WorktreeAction::UseExisting(p)) && p@ == existing@[i].path@,
            None => r matches Ok(WorktreeAction::Create(p, nb)) && !nb && p@ == new_path@,
        },
{
    if create_new_branch && new_path_exists {
        let mut m = chars_of("Worktree already exists at ");
        extend_chars(&mut m, &chars_of(new_path));
        proof {
            reveal_strlit("Worktree already exists at ");
        }
        return Err(string_of(&m));
    }
    proof {
        lemma_first_on_branch_bound(existing@, branch@);
    }
    match choose_worktree(create_new_branch, existing, branch) {
        WorktreeChoice::UseExisting(i) => {
            let n = existing.len();
            assert(!create_new_branch);
            let ghost k = first_on_branch(existing@, branch@)->0;
            assert(first_on_branch(existing@, branch@) is Some);
            assert(0 <= k < n);
            assert(i == k as usize);
            assert(i as int == k);
            assert(first_on_branch(existing@, branch@) == Some(i as int));
            let p = existing[i].path.clone();
            assert(p@ == existing@[i as int].path@);
            Ok(WorktreeAction::UseExisting(p))
        },
        WorktreeChoice::CreateForExistingBranch => Ok(WorktreeAction::Create(new_path.to_string(), false)),
        WorktreeChoice::CreateWithNewBranch => Ok(WorktreeAction::Create(new_path.to_string(), true)),
    }
}

/// A match found in a prefix is the first match of the whole listing.
proof fn lemma_first_on_branch_prefix(entries: Seq<WorktreeEntry>, branch: Seq<char>, k: int)
    requires
        0 <= k <= entries.len(),
        first_on_branch(entries.take(k), branch) is Some,
    ensures
        first_on_branch(entries, branch) == first_on_branch(entries.take(k), branch),
    decreases entries.len() - k,
{
    if k < entries.len() {
        assert(entries.take(k + 1).drop_last() =~= entries.take(k));
        lemma_first_on_branch_prefix(entries, branch, k + 1);
    } else {
        assert(entries.take(k) =~= entries);
    }
}

/// An agent setting of a new session: the session's own value where it
/// is not empty, else the configured one where that is not empty, else
/// the default.
pub open spec fn setting_value(session: Seq<char>, configured: Option<Seq<char>>, default: Seq<char>) -> Seq<char> {
    if session.len() > 0 {
        session
    } else {
        match configured {
            Some(c) => if c.len() > 0 {
                c
            } else {
                default
            },
            None => default,
        }
    }
}

/// An agent setting of a new session: the session's own value where it
/// is not empty, else the configured one for the tool where that is not
/// empty, else the default.
pub fn agent_setting(session_value: &str, configured: Option<&str>, default: &str) -> (r: String)
    ensures
        r@ == setting_value(
            session_value@,
            match configured {
                Some(c) => Some(c@),
                None => None,
            },
            default@,
        ),
{
    if chars_of(session_value).len() > 0 {
        return session_value.to_string();
    }
    match configured {
        Some(c) => if chars_of(c).len() > 0 {
            c.to_string()
        } else {
            default.to_string()
        },
        None => default.to_string(),
    }
}

/// The message for a project path that does not exist or is not a
/// directory; none for a directory.
pub open spec fn path_error(path: Seq<char>, exists: bool, is_dir: bool) -> Option<Seq<char>> {
    if !exists {
        Some("Project path does not exist: "@ + path)
    } else if !is_dir {
        Some("Project path is not a directory: "@ + path)
    } else {
        None
    }
}

/// The view of an optional string.
pub open spec fn option_view(o: Option<String>) -> Option<Seq<char>> {
    match o {
        Some(s) => Some(s@),
        None => None,
    }
}

/// Why a session cannot be made in `path`: it does not exist, or it is
/// not a directory; none where it is a directory.
pub fn project_path_error(path: &str, exists: bool, is_dir: bool) -> (r: Option<String>)
    ensures
        option_view(r) == path_error(path@, exists, is_dir),
{
    if !exists {
        let mut m = chars_of("Project path does not exist: ");
        extend_chars(&mut m, &chars_of(path));
        return Some(string_of(&m));
    }
    if !is_dir {
        let mut m = chars_of("Project path is not a directory: ");
        extend_chars(&mut m, &chars_of(path));
        return Some(string_of(&m));
    }
    None
}

/// The error that stops a sandboxed session before anything is made: the
/// container runtime is not installed, or its daemon does not run.
pub open spec fn runtime_error(sandbox: bool, available: bool, daemon_running: bool) -> Option<Seq<char>> {
    if !sandbox {
        None
    } else if !available {
        Some("Container runtime is not installed. Please install Docker or Apple Container to use sandbox mode."@)
    } else if !daemon_running {
        Some("Container runtime daemon is not running. Please start Docker or Apple Container to use sandbox mode."@)
    } else {
        None
    }
}

/// Why a sandboxed session cannot be made with the container runtime in
/// the state given; none where it can, or where the session is not
/// sandboxed.  Checked before any worktree is made.
pub fn sandbox_runtime_error(sandbox: bool, available: bool, daemon_running: bool) -> (r: Option<String>)
    ensures
        option_view(r) == runtime_error(sandbox, available, daemon_running),
{
    proof {
        reveal_strlit("Container runtime is not installed. Please install Docker or Apple Container to use sandbox mode.");
        reveal_strlit("Container runtime daemon is not running. Please start Docker or Apple Container to use sandbox mode.");
    }
    if !sandbox {
        None
    } else if !available {
        Some("Container runtime is not installed. Please install Docker or Apple Container to use sandbox mode.".to_string())
    } else if !daemon_running {
        Some("Container runtime daemon is not running. Please start Docker or Apple Container to use sandbox mode.".to_string())
    } else {
        None
    }
}

/// The worktree a session works in, once the worktree step has run.
pub struct WorktreeFacts {
    /// Where the worktree is.
    pub path: String,
    /// The main repository it belongs to.
    pub main_repo_path: String,
    /// The branch checked out in it.
    pub branch: String,
    /// Whether it was made for this session (else it was already there).
    pub created: bool,
    /// When the session took it, in Unix seconds.
    pub created_at: i64,
}

/// Worktree state of one session.
pub struct WorktreeInfo {
    pub branch: String,
    pub main_repo_path: String,
    /// The worktree was made for this session.
    pub managed_by_aoe: bool,
    /// When the session took it, in Unix seconds.
    pub created_at: i64,
    /// The worktree is removed with the session.
    pub cleanup_on_delete: bool,
}

/// What the configuration contributes to a new session.
pub struct BuildConfig {
    /// The command of the session's tool where it sets one by default,
    /// else empty.
    pub default_command: String,
    /// The configured command override for the session's tool.
    pub command_override: Option<String>,
    /// The configured extra arguments for the session's tool.
    pub extra_args: Option<String>,
    /// The configured instruction handed to sandboxed agents.
    pub custom_instruction: Option<String>,
}

/// A new session as it is set up, before it is started.
pub struct Instance {
    pub id: String,
    pub title: String,
    pub project_path: String,
    pub group_path: String,
    pub tool: String,
    pub command: String,
    pub extra_args: String,
    pub yolo_mode: bool,
    pub worktree_info: Option<WorktreeInfo>,
    pub sandbox_info: Option<SandboxInfo>,
}

/// A built session and what was made for it, to undo where it does not
/// start.
pub struct BuildResult {
    pub instance: Instance,
    pub created_worktree: Option<CreatedWorktree>,
}

/// The directory a new session works in: its worktree where it has one,
/// else the canonical form of the given path, else the path as given.
pub open spec fn final_path(path: Seq<char>, canonical: Option<Seq<char>>, worktree: Option<WorktreeFacts>) -> Seq<char> {
    match worktree {
        Some(f) => f.path@,
        None => match canonical {
            Some(c) => c,
            None => path,
        },
    }
}

/// The worktree record of a session for the worktree it works in.
pub open spec fn worktree_info_matches(info: Option<WorktreeInfo>, worktree: Option<WorktreeFacts>) -> bool {
    match (info, worktree) {
        (None, None) => true,
        (Some(i), Some(f)) => {
            &&& i.branch@ == f.branch@
            &&& i.main_repo_path@ == f.main_repo_path@
            &&& i.managed_by_aoe == f.created
            &&& i.cleanup_on_delete == f.created
            &&& i.created_at == f.created_at
        },
        _ => false,
    }
}

/// What is recorded as made for the session: the worktree, where it was
/// made for it.
pub open spec fn created_matches(c: Option<CreatedWorktree>, worktree: Option<WorktreeFacts>) -> bool {
    match worktree {
        Some(f) if f.created => c matches Some(w) && w.path@ == f.path@ && w.main_repo_path@ == f.main_repo_path@,
        _ => c is None,
    }
}

/// The sandbox of a new session: none unless it is sandboxed; else
/// enabled, with no container yet, the session's image, the container
/// name derived from `id`, the session's environment entries (none
/// where there are none) and the configured instruction.
pub open spec fn sandbox_matches(info: Option<SandboxInfo>, params: InstanceParams, id: Seq<char>, custom: Option<String>) -> bool {
    if !params.sandbox {
        info is None
    } else {
        info matches Some(sb) && {
            &&& sb.enabled
            &&& sb.container_id is None
            &&& sb.image@ == params.sandbox_image@
            &&& sb.container_name@ == sandbox_name(id)
            &&& sb.created_at is None
            &&& (if params.extra_env@.len() == 0 {
                sb.extra_env is None
            } else {
                sb.extra_env matches Some(e) && string_seq(e@) == string_seq(params.extra_env@)
            })
            &&& option_view(sb.custom_instruction) == option_view(custom)
        }
    }
}

/// Everything a successful build sets up.
pub open spec fn built(
    b: BuildResult,
    params: InstanceParams,
    existing_titles: Seq<&str>,
    canonical: Option<Seq<char>>,
    worktree: Option<WorktreeFacts>,
    config: BuildConfig,
    id: Seq<char>,
) -> bool {
    let i = b.instance;
    &&& i.id@ == id
    &&& (if params.title@.len() > 0 {
        i.title@ == params.title@
    } else {
        random_title(existing_titles, i.title@)
    })
    &&& i.project_path@ == final_path(params.path@, canonical, worktree)
    &&& i.group_path@ == params.group@
    &&& i.tool@ == params.tool@
    &&& i.command@ == setting_value(params.command_override@, option_view(config.command_override), config.default_command@)
    &&& i.extra_args@ == setting_value(params.extra_args@, option_view(config.extra_args), Seq::empty())
    &&& i.yolo_mode == params.yolo_mode
    &&& worktree_info_matches(i.worktree_info, worktree)
    &&& created_matches(b.created_worktree, worktree)
    &&& sandbox_matches(i.sandbox_info, params, id, config.custom_instruction)
}

fn copy_option(o: &Option<String>) -> (r: Option<String>)
    ensures
        option_view(r) == option_view(*o),
{
    match o {
        Some(s) => Some(s.clone()),
        None => None,
    }
}

fn copy_string_list(v: &Vec<String>) -> (r: Vec<String>)
    ensures
        string_seq(r@) == string_seq(v@),
{
    let mut out: Vec<String> = Vec::new();
    let mut i: usize = 0;
    while i < v.len()
        invariant
            i <= v@.len(),
            string_seq(out@) == string_seq(v@).take(i as int),
        decreases v@.len() - i,
    {
        let ghost before = out@;
        out.push(v[i].clone());
        assert(string_seq(out@) =~= string_seq(before).push(v@[i as int]@));
        assert(string_seq(out@) =~= string_seq(v@).take(i + 1));
        i += 1;
    }
    assert(string_seq(v@).take(v@.len() as int) =~= string_seq(v@));
    out
}

/// Sets up a new session from its parameters and what was found outside:
/// the state of the container runtime, whether the session's directory
/// exists and is a directory, the canonical form of the given path (none
/// where it could not be found), the worktree the session works in
/// (where one was asked for, after the worktree step), the configuration
/// and the new session's id.  Fails, in this order, where the session is
/// sandboxed and the runtime is missing or its daemon is down, or where
/// the session's directory does not exist or is not a directory.
pub fn plan_instance(
    params: &InstanceParams,
    existing_titles: &[&str],
    runtime_available: bool,
    daemon_running: bool,
    path_exists: bool,
    path_is_dir: bool,
    canonical_path: Option<String>,
    worktree: Option<WorktreeFacts>,
    config: &BuildConfig,
    instance_id: &str,
) -> (r: Result<BuildResult, String>)
    ensures
        match runtime_error(params.sandbox, runtime_available, daemon_running) {
            Some(m) => r matches Err(e) && e@ == m,
            None => match path_error(
                final_path(params.path@, option_view(canonical_path), worktree),
                path_exists,
                path_is_dir,
            ) {
                Some(m) => r matches Err(e) && e@ == m,
                None => r matches Ok(b) && built(
                    b,
                    *params,
                    existing_titles@,
                    option_view(canonical_path),
                    worktree,
                    *config,
                    instance_id@,
                ),
            },
        },
{
    if let Some(m) = sandbox_runtime_error(params.sandbox, runtime_available, daemon_running) {
        return Err(m);
    }
    let ghost wt = worktree;
    let ghost canon = option_view(canonical_path);
    let (project_path, worktree_info, created_worktree) = match worktree {
        Some(f) => {
            let info = WorktreeInfo {
                branch: f.branch.clone(),
                main_repo_path: f.main_repo_path.clone(),
                managed_by_aoe: f.created,
                created_at: f.created_at,
                cleanup_on_delete: f.created,
            };
            let created = if f.created {
                Some(CreatedWorktree { path: f.path.clone(), main_repo_path: f.main_repo_path.clone() })
            } else {
                None
            };
            (f.path, Some(info), created)
        },
        None => match canonical_path {
            Some(c) => (c, None, None),
            None => (params.path.clone(), None, None),
        },
    };
    assert(project_path@ == final_path(params.path@, canon, wt));
    if let Some(m) = project_path_error(project_path.as_str(), path_exists, path_is_dir) {
        return Err(m);
    }
    let title = if chars_of(params.title.as_str()).len() == 0 {
        generate_random_title(existing_titles)
    } else {
        params.title.clone()
    };
    let command = agent_setting(
        params.command_override.as_str(),
        match &config.command_override {
            Some(c) => Some(c.as_str()),
            None => None,
        },
        config.default_command.as_str(),
    );
    let extra_args = agent_setting(
        params.extra_args.as_str(),
        match &config.extra_args {
            Some(c) => Some(c.as_str()),
            None => None,
        },
        "",
    );
    proof {
        reveal_strlit("");
    }
    let sandbox_info = if params.sandbox {
        let extra_env = if params.extra_env.len() == 0 {
            None
        } else {
            Some(copy_string_list(&params.extra_env))
        };
        Some(SandboxInfo {
            enabled: true,
            container_id: None,
            image: params.sandbox_image.clone(),
            container_name: DockerContainer::generate_name(instance_id),
            created_at: None,
            extra_env,
            custom_instruction: copy_option(&config.custom_instruction),
        })
    } else {
        None
    };
    let instance = Instance {
        id: instance_id.to_string(),
        title,
        project_path,
        group_path: params.group.clone(),
        tool: params.tool.clone(),
        command,
        extra_args,
        yolo_mode: params.yolo_mode,
        worktree_info,
        sandbox_info,
    };
    let b = BuildResult { instance, created_worktree };
    assert(b.instance.id@ == instance_id@);
    assert(b.instance.project_path@ == final_path(params.path@, canon, wt));
    assert(worktree_info_matches(b.instance.worktree_info, wt));
    assert(created_matches(b.created_worktree, wt));
    assert(sandbox_matches(b.instance.sandbox_info, *params, instance_id@, config.custom_instruction));
    assert(b.instance.extra_args@ == setting_value(params.extra_args@, option_view(config.extra_args), Seq::empty()));
    assert(b.instance.command@ == setting_value(params.command_override@, option_view(config.command_override), config.default_command@));
    Ok(b)
}

/// The outcome of checking one session's status.
pub struct StatusUpdate {
    pub id: String,
    pub status: Status,
    pub last_error: Option<String>,
}

/// The state last reported for a container `name` (a later report
/// supersedes an earlier one), if any.
pub open spec fn reported_state(states: Seq<(Seq<char>, bool)>, name: Seq<char>) -> Option<bool>
    decreases states.len(),
{
    if states.len() == 0 {
        None
    } else if states.last().0 == name {
        Some(states.last().1)
    } else {
        reported_state(states.drop_last(), name)
    }
}

/// The state last reported for the container `name`.
pub fn container_state(states: &Vec<(String, bool)>, name: &str) -> (r: Option<bool>)
    ensures
        r == reported_state(crate::containers::state_views(states@), name@),
{
    let want = chars_of(name);
    let ghost sv = crate::containers::state_views(states@);
    let mut i: usize = states.len();
    assert(sv.take(i as int) =~= sv);
    while i > 0
        invariant
            i <= states@.len(),
            want@ == name@,
            sv == crate::containers::state_views(states@),
            reported_state(sv, name@) == reported_state(sv.take(i as int), name@),
        decreases i,
    {
        let ghost t = sv.take(i as int);
        assert(t.drop_last() =~= sv.take(i - 1));
        assert(t.last() == sv[i - 1]);
        if chars_eq(&chars_of(states[i - 1].0.as_str()), &want) {
            return Some(states[i - 1].1);
        }
        i -= 1;
    }
    assert(sv.take(0) =~= Seq::<(Seq<char>, bool)>::empty());
    None
}

/// Whether a sandboxed session in `status` is judged by its container:
/// not while it is stopped, being deleted or starting.
pub open spec fn container_decides(sandboxed: bool, status: Status) -> bool {
    sandboxed && status != Status::Stopped && status != Status::Deleting && status != Status::Starting
}

/// `r` is what `dead_container_update` may give for a session.
pub open spec fn dead_container_outcome(
    id: Seq<char>,
    sandboxed: bool,
    status: Status,
    container_name: Option<Seq<char>>,
    states: Seq<(Seq<char>, bool)>,
    r: Option<StatusUpdate>,
) -> bool {
    match r {
        Some(u) => container_decides(sandboxed, status) && (container_name matches Some(n) && reported_state(
            states,
            n,
        ) == Some(false)) && u.id@ == id && u.status == Status::Error && (u.last_error matches Some(m) && m@
            == "Container is not running"@),
        None => !container_decides(sandboxed, status) || match container_name {
            None => true,
            Some(n) => reported_state(states, n) != Some(false),
        },
    }
}

/// A dead container marks a session as failed exactly when the session
/// is sandboxed, is neither stopped, being deleted nor starting, and its
/// container is reported not running; a session being stopped, deleted or
/// started, or one without a sandbox, is never marked.
pub proof fn lemma_dead_container_marks_only_live_sandboxes(
    id: Seq<char>,
    sandboxed: bool,
    status: Status,
    container_name: Option<Seq<char>>,
    states: Seq<(Seq<char>, bool)>,
    r: Option<StatusUpdate>,
)
    requires
        dead_container_outcome(id, sandboxed, status, container_name, states, r),
    ensures
        !sandboxed ==> r is None,
        status == Status::Stopped || status == Status::Deleting || status == Status::Starting ==> r is None,
        sandboxed && (status == Status::Running || status == Status::Waiting || status == Status::Idle || status
            == Status::Error || status == Status::Unknown) && container_name is Some && reported_state(
            states,
            container_name->0,
        ) == Some(false) ==> (r matches Some(u) && u.status == Status::Error && u.id@ == id),
{
}

/// The update for a sandboxed session whose container is reported not
/// running: an error saying so. `None` where the container does not
/// decide (the terminal state does).
pub fn dead_container_update(
    id: &str,
    sandboxed: bool,
    status: Status,
    container_name: Option<&str>,
    states: &Vec<(String, bool)>,
) -> (r: Option<StatusUpdate>)
    ensures
        match r {
            Some(u) => container_decides(sandboxed, status) && (container_name matches Some(n)
                && reported_state(crate::containers::state_views(states@), n@) == Some(false)) && u.id@
                == id@ && u.status == Status::Error && (u.last_error matches Some(m) && m@
                == "Container is not running"@),
            None => !container_decides(sandboxed, status) || match container_name {
                None => true,
                Some(n) => reported_state(crate::containers::state_views(states@), n@) != Some(false),
            },
        },
        dead_container_outcome(
            id@,
            sandboxed,
            status,
            match container_name {
                Some(n) => Some(n@),
                None => None,
            },
            crate::containers::state_views(states@),
            r,
        ),
{
    proof {
        reveal_strlit("Container is not running");
    }
    if !sandboxed {
        return None;
    }
    match status {
        Status::Stopped | Status::Deleting | Status::Starting => {
            return None;
        },
        _ => {},
    }
    match container_name {
        None => None,
        Some(n) => match container_state(states, n) {
            Some(false) => Some(
                StatusUpdate {
                    id: id.to_string(),
                    status: Status::Error,
                    last_error: Some("Container is not running".to_string()),
                },
            ),
            _ => None,
        },
    }
}

/// Seconds between two checks of container health.
pub const CONTAINER_CHECK_INTERVAL_SECS: u64 = 5;

/// Whether container health is checked now: some session is sandboxed
/// and at least the interval (`secs` whole seconds and `nanos`) has
/// passed since the last check.
pub fn container_check_due(has_sandboxed: bool, secs: u64, nanos: u32) -> (r: bool)
    requires
        nanos < 1_000_000_000,
    ensures
        r == (has_sandboxed && secs * 1_000_000_000 + nanos >= CONTAINER_CHECK_INTERVAL_SECS * 1_000_000_000),
{
    has_sandboxed && secs >= CONTAINER_CHECK_INTERVAL_SECS
}

} // verus!
