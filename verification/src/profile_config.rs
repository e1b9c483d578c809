//! Per-profile (and per-repository) overrides of the settings, and the
//! clearing of one override so that the inherited value applies again.

use crate::containers::ContainerRuntimeName;
use crate::sound::SoundConfigOverride;
use vstd::prelude::*;

verus! {

/// A setting shown in the settings view.
#[derive(PartialEq, Eq, Structural, Clone, Copy, Debug)]
pub enum FieldKey {
    ThemeName,
    CheckEnabled,
    CheckIntervalHours,
    NotifyInCli,
    PathTemplate,
    BareRepoPathTemplate,
    WorktreeAutoCleanup,
    DeleteBranchOnCleanup,
    DefaultImage,
    Environment,
    SandboxAutoCleanup,
    StatusBar,
    Mouse,
    DefaultTool,
    SandboxEnabledByDefault,
    YoloModeDefault,
    AgentExtraArgs,
    AgentCommandOverride,
    DefaultTerminalMode,
    ExtraVolumes,
    PortMappings,
    VolumeIgnores,
    MountSsh,
    CpuLimit,
    MemoryLimit,
    CustomInstruction,
    ContainerRuntime,
    SoundEnabled,
    SoundMode,
    SoundOnStart,
    SoundOnRunning,
    SoundOnWaiting,
    SoundOnIdle,
    SoundOnError,
    HookOnCreate,
    HookOnLaunch,
}

pub struct ThemeOverride {
    pub name: Option<String>,
}

pub struct UpdatesOverride {
    pub check_enabled: Option<bool>,
    pub check_interval_hours: Option<u64>,
    pub notify_in_cli: Option<bool>,
}

pub struct WorktreeOverride {
    pub path_template: Option<String>,
    pub bare_repo_path_template: Option<String>,
    pub auto_cleanup: Option<bool>,
    pub delete_branch_on_cleanup: Option<bool>,
}

pub struct SandboxOverride {
    pub default_image: Option<String>,
    pub environment: Option<Vec<String>>,
    pub auto_cleanup: Option<bool>,
    pub enabled_by_default: Option<bool>,
    pub default_terminal_mode: Option<String>,
    pub extra_volumes: Option<Vec<String>>,
    pub port_mappings: Option<Vec<String>>,
    pub volume_ignores: Option<Vec<String>>,
    pub mount_ssh: Option<bool>,
    pub cpu_limit: Option<String>,
    pub memory_limit: Option<String>,
    pub custom_instruction: Option<String>,
    pub container_runtime: Option<ContainerRuntimeName>,
}

pub struct TmuxOverride {
    pub status_bar: Option<String>,
    pub mouse: Option<String>,
}

pub struct SessionOverride {
    pub default_tool: Option<String>,
    pub yolo_mode_default: Option<bool>,
    pub agent_extra_args: Option<String>,
    pub agent_command_override: Option<String>,
}

pub struct HooksOverride {
    pub on_create: Option<Vec<String>>,
    pub on_launch: Option<Vec<String>>,
}

/// The settings a profile (or a repository) overrides; a section or a
/// value left `None` inherits.
pub struct ProfileConfig {
    pub theme: Option<ThemeOverride>,
    pub updates: Option<UpdatesOverride>,
    pub worktree: Option<WorktreeOverride>,
    pub sandbox: Option<SandboxOverride>,
    pub tmux: Option<TmuxOverride>,
    pub session: Option<SessionOverride>,
    pub sound: Option<SoundConfigOverride>,
    pub hooks: Option<HooksOverride>,
}

impl Default for ProfileConfig {
    /// Nothing overridden.
    fn default() -> (r: ProfileConfig)
        ensures
            r.theme is None,
            r.updates is None,
            r.worktree is None,
            r.sandbox is None,
            r.tmux is None,
            r.session is None,
            r.sound is None,
            r.hooks is None,
    {
        ProfileConfig {
            theme: None,
            updates: None,
            worktree: None,
            sandbox: None,
            tmux: None,
            session: None,
            sound: None,
            hooks: None,
        }
    }
}

/// Whether `config` overrides the setting `key`.
pub open spec fn overrides(config: ProfileConfig, key: FieldKey) -> bool {
    match key {
        FieldKey::ThemeName => config.theme matches Some(t) && t.name is Some,
        FieldKey::CheckEnabled => config.updates matches Some(u) && u.check_enabled is Some,
        FieldKey::CheckIntervalHours => config.updates matches Some(u) && u.check_interval_hours is Some,
        FieldKey::NotifyInCli => config.updates matches Some(u) && u.notify_in_cli is Some,
        FieldKey::PathTemplate => config.worktree matches Some(w) && w.path_template is Some,
        FieldKey::BareRepoPathTemplate => config.worktree matches Some(w)
            && w.bare_repo_path_template is Some,
        FieldKey::WorktreeAutoCleanup => config.worktree matches Some(w) && w.auto_cleanup is Some,
        FieldKey::DeleteBranchOnCleanup => config.worktree matches Some(w)
            && w.delete_branch_on_cleanup is Some,
        FieldKey::DefaultImage => config.sandbox matches Some(s) && s.default_image is Some,
        FieldKey::Environment => config.sandbox matches Some(s) && s.environment is Some,
        FieldKey::SandboxAutoCleanup => config.sandbox matches Some(s) && s.auto_cleanup is Some,
        FieldKey::StatusBar => config.tmux matches Some(t) && t.status_bar is Some,
        FieldKey::Mouse => config.tmux matches Some(t) && t.mouse is Some,
        FieldKey::DefaultTool => config.session matches Some(s) && s.default_tool is Some,
        FieldKey::SandboxEnabledByDefault => config.sandbox matches Some(s) && s.enabled_by_default is Some,
        FieldKey::YoloModeDefault => config.session matches Some(s) && s.yolo_mode_default is Some,
        FieldKey::AgentExtraArgs => config.session matches Some(s) && s.agent_extra_args is Some,
        FieldKey::AgentCommandOverride => config.session matches Some(s)
            && s.agent_command_override is Some,
        FieldKey::DefaultTerminalMode => config.sandbox matches Some(s)
            && s.default_terminal_mode is Some,
        FieldKey::ExtraVolumes => config.sandbox matches Some(s) && s.extra_volumes is Some,
        FieldKey::PortMappings => config.sandbox matches Some(s) && s.port_mappings is Some,
        FieldKey::VolumeIgnores => config.sandbox matches Some(s) && s.volume_ignores is Some,
        FieldKey::MountSsh => config.sandbox matches Some(s) && s.mount_ssh is Some,
        FieldKey::CpuLimit => config.sandbox matches Some(s) && s.cpu_limit is Some,
        FieldKey::MemoryLimit => config.sandbox matches Some(s) && s.memory_limit is Some,
        FieldKey::CustomInstruction => config.sandbox matches Some(s) && s.custom_instruction is Some,
        FieldKey::ContainerRuntime => config.sandbox matches Some(s) && s.container_runtime is Some,
        FieldKey::SoundEnabled => config.sound matches Some(s) && s.enabled is Some,
        FieldKey::SoundMode => config.sound matches Some(s) && s.mode is Some,
        FieldKey::SoundOnStart => config.sound matches Some(s) && s.on_start is Some,
        FieldKey::SoundOnRunning => config.sound matches Some(s) && s.on_running is Some,
        FieldKey::SoundOnWaiting => config.sound matches Some(s) && s.on_waiting is Some,
        FieldKey::SoundOnIdle => config.sound matches Some(s) && s.on_idle is Some,
        FieldKey::SoundOnError => config.sound matches Some(s) && s.on_error is Some,
        FieldKey::HookOnCreate => config.hooks matches Some(h) && h.on_create is Some,
        FieldKey::HookOnLaunch => config.hooks matches Some(h) && h.on_launch is Some,
    }
}

/// Whether `config` overrides the setting `key`.
pub fn is_overridden(config: &ProfileConfig, key: FieldKey) -> (r: bool)
    ensures
        r == overrides(*config, key),
{
    match key {
        FieldKey::ThemeName => match &config.theme {
            Some(t) => t.name.is_some(),
            None => false,
        },
        FieldKey::CheckEnabled => match &config.updates {
            Some(u) => u.check_enabled.is_some(),
            None => false,
        },
        FieldKey::CheckIntervalHours => match &config.updates {
            Some(u) => u.check_interval_hours.is_some(),
            None => false,
        },
        FieldKey::NotifyInCli => match &config.updates {
            Some(u) => u.notify_in_cli.is_some(),
            None => false,
        },
        FieldKey::PathTemplate => match &config.worktree {
            Some(w) => w.path_template.is_some(),
            None => false,
        },
        FieldKey::BareRepoPathTemplate => match &config.worktree {
            Some(w) => w.bare_repo_path_template.is_some(),
            None => false,
        },
        FieldKey::WorktreeAutoCleanup => match &config.worktree {
            Some(w) => w.auto_cleanup.is_some(),
            None => false,
        },
        FieldKey::DeleteBranchOnCleanup => match &config.worktree {
            Some(w) => w.delete_branch_on_cleanup.is_some(),
            None => false,
        },
        FieldKey::DefaultImage => match &config.sandbox {
            Some(s) => s.default_image.is_some(),
            None => false,
        },
        FieldKey::Environment => match &config.sandbox {
            Some(s) => s.environment.is_some(),
            None => false,
        },
        FieldKey::SandboxAutoCleanup => match &config.sandbox {
            Some(s) => s.auto_cleanup.is_some(),
            None => false,
        },
        FieldKey::StatusBar => match &config.tmux {
            Some(t) => t.status_bar.is_some(),
            None => false,
        },
        FieldKey::Mouse => match &config.tmux {
            Some(t) => t.mouse.is_some(),
            None => false,
        },
        FieldKey::DefaultTool => match &config.session {
            Some(s) => s.default_tool.is_some(),
            None => false,
        },
        FieldKey::SandboxEnabledByDefault => match &config.sandbox {
            Some(s) => s.enabled_by_default.is_some(),
            None => false,
        },
        FieldKey::YoloModeDefault => match &config.session {
            Some(s) => s.yolo_mode_default.is_some(),
            None => false,
        },
        FieldKey::AgentExtraArgs => match &config.session {
            Some(s) => s.agent_extra_args.is_some(),
            None => false,
        },
        FieldKey::AgentCommandOverride => match &config.session {
            Some(s) => s.agent_command_override.is_some(),
            None => false,
        },
        FieldKey::DefaultTerminalMode => match &config.sandbox {
            Some(s) => s.default_terminal_mode.is_some(),
            None => false,
        },
        FieldKey::ExtraVolumes => match &config.sandbox {
            Some(s) => s.extra_volumes.is_some(),
            None => false,
        },
        FieldKey::PortMappings => match &config.sandbox {
            Some(s) => s.port_mappings.is_some(),
            None => false,
        },
        FieldKey::VolumeIgnores => match &config.sandbox {
            Some(s) => s.volume_ignores.is_some(),
            None => false,
        },
        FieldKey::MountSsh => match &config.sandbox {
            Some(s) => s.mount_ssh.is_some(),
            None => false,
        },
        FieldKey::CpuLimit => match &config.sandbox {
            Some(s) => s.cpu_limit.is_some(),
            None => false,
        },
        FieldKey::MemoryLimit => match &config.sandbox {
            Some(s) => s.memory_limit.is_some(),
            None => false,
        },
        FieldKey::CustomInstruction => match &config.sandbox {
            Some(s) => s.custom_instruction.is_some(),
            None => false,
        },
        FieldKey::ContainerRuntime => match &config.sandbox {
            Some(s) => s.container_runtime.is_some(),
            None => false,
        },
        FieldKey::SoundEnabled => match &config.sound {
            Some(s) => s.enabled.is_some(),
            None => false,
        },
        FieldKey::SoundMode => match &config.sound {
            Some(s) => s.mode.is_some(),
            None => false,
        },
        FieldKey::SoundOnStart => match &config.sound {
            Some(s) => s.on_start.is_some(),
            None => false,
        },
        FieldKey::SoundOnRunning => match &config.sound {
            Some(s) => s.on_running.is_some(),
            None => false,
        },
        FieldKey::SoundOnWaiting => match &config.sound {
            Some(s) => s.on_waiting.is_some(),
            None => false,
        },
        FieldKey::SoundOnIdle => match &config.sound {
            Some(s) => s.on_idle.is_some(),
            None => false,
        },
        FieldKey::SoundOnError => match &config.sound {
            Some(s) => s.on_error.is_some(),
            None => false,
        },
        FieldKey::HookOnCreate => match &config.hooks {
            Some(h) => h.on_create.is_some(),
            None => false,
        },
        FieldKey::HookOnLaunch => match &config.hooks {
            Some(h) => h.on_launch.is_some(),
            None => false,
        },
    }
}

/// `config` with the override of `key` removed: the value becomes `None`
/// where its section is present; an absent section stays absent.
pub open spec fn cleared(config: ProfileConfig, key: FieldKey) -> ProfileConfig {
    let c = config;
    match key {
        FieldKey::ThemeName => match c.theme {
            Some(t) => ProfileConfig { theme: Some(ThemeOverride { name: None, ..t }), ..c },
            None => c,
        },
        FieldKey::CheckEnabled => match c.updates {
            Some(u) => ProfileConfig { updates: Some(UpdatesOverride { check_enabled: None, ..u }), ..c },
            None => c,
        },
        FieldKey::CheckIntervalHours => match c.updates {
            Some(u) => ProfileConfig {
                updates: Some(UpdatesOverride { check_interval_hours: None, ..u }),
                ..c
            },
            None => c,
        },
        FieldKey::NotifyInCli => match c.updates {
            Some(u) => ProfileConfig { updates: Some(UpdatesOverride { notify_in_cli: None, ..u }), ..c },
            None => c,
        },
        FieldKey::PathTemplate => match c.worktree {
            Some(w) => ProfileConfig { worktree: Some(WorktreeOverride { path_template: None, ..w }), ..c },
            None => c,
        },
        FieldKey::BareRepoPathTemplate => match c.worktree {
            Some(w) => ProfileConfig {
                worktree: Some(WorktreeOverride { bare_repo_path_template: None, ..w }),
                ..c
            },
            None => c,
        },
        FieldKey::WorktreeAutoCleanup => match c.worktree {
            Some(w) => ProfileConfig { worktree: Some(WorktreeOverride { auto_cleanup: None, ..w }), ..c },
            None => c,
        },
        FieldKey::DeleteBranchOnCleanup => match c.worktree {
            Some(w) => ProfileConfig {
                worktree: Some(WorktreeOverride { delete_branch_on_cleanup: None, ..w }),
                ..c
            },
            None => c,
        },
        FieldKey::DefaultImage => match c.sandbox {
            Some(s) => ProfileConfig { sandbox: Some(SandboxOverride { default_image: None, ..s }), ..c },
            None => c,
        },
        FieldKey::Environment => match c.sandbox {
            Some(s) => ProfileConfig { sandbox: Some(SandboxOverride { environment: None, ..s }), ..c },
            None => c,
        },
        FieldKey::SandboxAutoCleanup => match c.sandbox {
            Some(s) => ProfileConfig { sandbox: Some(SandboxOverride { auto_cleanup: None, ..s }), ..c },
            None => c,
        },
        FieldKey::StatusBar => match c.tmux {
            Some(t) => ProfileConfig { tmux: Some(TmuxOverride { status_bar: None, ..t }), ..c },
            None => c,
        },
        FieldKey::Mouse => match c.tmux {
            Some(t) => ProfileConfig { tmux: Some(TmuxOverride { mouse: None, ..t }), ..c },
            None => c,
        },
        FieldKey::DefaultTool => match c.session {
            Some(s) => ProfileConfig { session: Some(SessionOverride { default_tool: None, ..s }), ..c },
            None => c,
        },
        FieldKey::SandboxEnabledByDefault => match c.sandbox {
            Some(s) => ProfileConfig {
                sandbox: Some(SandboxOverride { enabled_by_default: None, ..s }),
                ..c
            },
            None => c,
        },
        FieldKey::YoloModeDefault => match c.session {
            Some(s) => ProfileConfig {
                session: Some(SessionOverride { yolo_mode_default: None, ..s }),
                ..c
            },
            None => c,
        },
        FieldKey::AgentExtraArgs => match c.session {
            Some(s) => ProfileConfig {
                session: Some(SessionOverride { agent_extra_args: None, ..s }),
                ..c
            },
            None => c,
        },
        FieldKey::AgentCommandOverride => match c.session {
            Some(s) => ProfileConfig {
                session: Some(SessionOverride { agent_command_override: None, ..s }),
                ..c
            },
            None => c,
        },
        FieldKey::DefaultTerminalMode => match c.sandbox {
            Some(s) => ProfileConfig {
                sandbox: Some(SandboxOverride { default_terminal_mode: None, ..s }),
                ..c
            },
            None => c,
        },
        FieldKey::ExtraVolumes => match c.sandbox {
            Some(s) => ProfileConfig { sandbox: Some(SandboxOverride { extra_volumes: None, ..s }), ..c },
            None => c,
        },
        FieldKey::PortMappings => match c.sandbox {
            Some(s) => ProfileConfig { sandbox: Some(SandboxOverride { port_mappings: None, ..s }), ..c },
            None => c,
        },
        FieldKey::VolumeIgnores => match c.sandbox {
            Some(s) => ProfileConfig { sandbox: Some(SandboxOverride { volume_ignores: None, ..s }), ..c },
            None => c,
        },
        FieldKey::MountSsh => match c.sandbox {
            Some(s) => ProfileConfig { sandbox: Some(SandboxOverride { mount_ssh: None, ..s }), ..c },
            None => c,
        },
        FieldKey::CpuLimit => match c.sandbox {
            Some(s) => ProfileConfig { sandbox: Some(SandboxOverride { cpu_limit: None, ..s }), ..c },
            None => c,
        },
        FieldKey::MemoryLimit => match c.sandbox {
            Some(s) => ProfileConfig { sandbox: Some(SandboxOverride { memory_limit: None, ..s }), ..c },
            None => c,
        },
        FieldKey::CustomInstruction => match c.sandbox {
            Some(s) => ProfileConfig {
                sandbox: Some(SandboxOverride { custom_instruction: None, ..s }),
                ..c
            },
            None => c,
        },
        FieldKey::ContainerRuntime => match c.sandbox {
            Some(s) => ProfileConfig {
                sandbox: Some(SandboxOverride { container_runtime: None, ..s }),
                ..c
            },
            None => c,
        },
        FieldKey::SoundEnabled => match c.sound {
            Some(s) => ProfileConfig { sound: Some(SoundConfigOverride { enabled: None, ..s }), ..c },
            None => c,
        },
        FieldKey::SoundMode => match c.sound {
            Some(s) => ProfileConfig { sound: Some(SoundConfigOverride { mode: None, ..s }), ..c },
            None => c,
        },
        FieldKey::SoundOnStart => match c.sound {
            Some(s) => ProfileConfig { sound: Some(SoundConfigOverride { on_start: None, ..s }), ..c },
            None => c,
        },
        FieldKey::SoundOnRunning => match c.sound {
            Some(s) => ProfileConfig { sound: Some(SoundConfigOverride { on_running: None, ..s }), ..c },
            None => c,
        },
        FieldKey::SoundOnWaiting => match c.sound {
            Some(s) => ProfileConfig { sound: Some(SoundConfigOverride { on_waiting: None, ..s }), ..c },
            None => c,
        },
        FieldKey::SoundOnIdle => match c.sound {
            Some(s) => ProfileConfig { sound: Some(SoundConfigOverride { on_idle: None, ..s }), ..c },
            None => c,
        },
        FieldKey::SoundOnError => match c.sound {
            Some(s) => ProfileConfig { sound: Some(SoundConfigOverride { on_error: None, ..s }), ..c },
            None => c,
        },
        FieldKey::HookOnCreate => match c.hooks {
            Some(h) => ProfileConfig { hooks: Some(HooksOverride { on_create: None, ..h }), ..c },
            None => c,
        },
        FieldKey::HookOnLaunch => match c.hooks {
            Some(h) => ProfileConfig { hooks: Some(HooksOverride { on_launch: None, ..h }), ..c },
            None => c,
        },
    }
}

/// Removes the override of `key` from `config`, so that the inherited
/// value applies again.
pub fn clear_override(config: &mut ProfileConfig, key: FieldKey)
    ensures
        *final(config) == cleared(*old(config), key),
{
    match key {
        FieldKey::ThemeName => {
            if let Some(t) = &mut config.theme {
                t.name = None;
            }
        },
        FieldKey::CheckEnabled => {
            if let Some(u) = &mut config.updates {
                u.check_enabled = None;
            }
        },
        FieldKey::CheckIntervalHours => {
            if let Some(u) = &mut config.updates {
                u.check_interval_hours = None;
            }
        },
        FieldKey::NotifyInCli => {
            if let Some(u) = &mut config.updates {
                u.notify_in_cli = None;
            }
        },
        FieldKey::PathTemplate => {
            if let Some(w) = &mut config.worktree {
                w.path_template = None;
            }
        },
        FieldKey::BareRepoPathTemplate => {
            if let Some(w) = &mut config.worktree {
                w.bare_repo_path_template = None;
            }
        },
        FieldKey::WorktreeAutoCleanup => {
            if let Some(w) = &mut config.worktree {
                w.auto_cleanup = None;
            }
        },
        FieldKey::DeleteBranchOnCleanup => {
            if let Some(w) = &mut config.worktree {
                w.delete_branch_on_cleanup = None;
            }
        },
        FieldKey::DefaultImage => {
            if let Some(s) = &mut config.sandbox {
                s.default_image = None;
            }
        },
        FieldKey::Environment => {
            if let Some(s) = &mut config.sandbox {
                s.environment = None;
            }
        },
        FieldKey::SandboxAutoCleanup => {
            if let Some(s) = &mut config.sandbox {
                s.auto_cleanup = None;
            }
        },
        FieldKey::StatusBar => {
            if let Some(t) = &mut config.tmux {
                t.status_bar = None;
            }
        },
        FieldKey::Mouse => {
            if let Some(t) = &mut config.tmux {
                t.mouse = None;
            }
        },
        FieldKey::DefaultTool => {
            if let Some(s) = &mut config.session {
                s.default_tool = None;
            }
        },
        FieldKey::SandboxEnabledByDefault => {
            if let Some(s) = &mut config.sandbox {
                s.enabled_by_default = None;
            }
        },
        FieldKey::YoloModeDefault => {
            if let Some(s) = &mut config.session {
                s.yolo_mode_default = None;
            }
        },
        FieldKey::AgentExtraArgs => {
            if let Some(s) = &mut config.session {
                s.agent_extra_args = None;
            }
        },
        FieldKey::AgentCommandOverride => {
            if let Some(s) = &mut config.session {
                s.agent_command_override = None;
            }
        },
        FieldKey::DefaultTerminalMode => {
            if let Some(s) = &mut config.sandbox {
                s.default_terminal_mode = None;
            }
        },
        FieldKey::ExtraVolumes => {
            if let Some(s) = &mut config.sandbox {
                s.extra_volumes = None;
            }
        },
        FieldKey::PortMappings => {
            if let Some(s) = &mut config.sandbox {
                s.port_mappings = None;
            }
        },
        FieldKey::VolumeIgnores => {
            if let Some(s) = &mut config.sandbox {
                s.volume_ignores = None;
            }
        },
        FieldKey::MountSsh => {
            if let Some(s) = &mut config.sandbox {
                s.mount_ssh = None;
            }
        },
        FieldKey::CpuLimit => {
            if let Some(s) = &mut config.sandbox {
                s.cpu_limit = None;
            }
        },
        FieldKey::MemoryLimit => {
            if let Some(s) = &mut config.sandbox {
                s.memory_limit = None;
            }
        },
        FieldKey::CustomInstruction => {
            if let Some(s) = &mut config.sandbox {
                s.custom_instruction = None;
            }
        },
        FieldKey::ContainerRuntime => {
            if let Some(s) = &mut config.sandbox {
                s.container_runtime = None;
            }
        },
        FieldKey::SoundEnabled => {
            if let Some(s) = &mut config.sound {
                s.enabled = None;
            }
        },
        FieldKey::SoundMode => {
            if let Some(s) = &mut config.sound {
                s.mode = None;
            }
        },
        FieldKey::SoundOnStart => {
            if let Some(s) = &mut config.sound {
                s.on_start = None;
            }
        },
        FieldKey::SoundOnRunning => {
            if let Some(s) = &mut config.sound {
                s.on_running = None;
            }
        },
        FieldKey::SoundOnWaiting => {
            if let Some(s) = &mut config.sound {
                s.on_waiting = None;
            }
        },
        FieldKey::SoundOnIdle => {
            if let Some(s) = &mut config.sound {
                s.on_idle = None;
            }
        },
        FieldKey::SoundOnError => {
            if let Some(s) = &mut config.sound {
                s.on_error = None;
            }
        },
        FieldKey::HookOnCreate => {
            if let Some(h) = &mut config.hooks {
                h.on_create = None;
            }
        },
        FieldKey::HookOnLaunch => {
            if let Some(h) = &mut config.hooks {
                h.on_launch = None;
            }
        },
    }
}

/// After clearing, the setting is no longer overridden, and clearing it
/// again changes nothing.
pub proof fn clearing_removes_the_override(config: ProfileConfig, key: FieldKey)
    ensures
        !overrides(cleared(config, key), key),
        cleared(cleared(config, key), key) == cleared(config, key),
{
}

/// Clearing one setting leaves whether every other setting is overridden
/// as it was.
pub proof fn clearing_keeps_other_overrides(config: ProfileConfig, key: FieldKey, other: FieldKey)
    requires
        other != key,
    ensures
        overrides(cleared(config, key), other) == overrides(config, other),
{
}

} // verus!
