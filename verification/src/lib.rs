//! Verified core of the agent-of-empires session manager: worktree path
//! templates and `.git` files, container command construction,
//! process-tree bookkeeping, environment escaping, sound selection, config
//! migrations, and the state machines and screen layouts behind the
//! terminal dialogs (text inputs, the directory picker, the diff view, the
//! settings view and the profile picker).

pub mod civilizations;
pub mod containers;
pub mod custom_instruction;
pub mod dialogs;
pub mod diff_view;
pub mod dir_picker;
pub mod environment;
pub mod git;
pub mod help;
pub mod hooks;
pub mod keys;
pub mod line_diff;
pub mod migrations;
pub mod path_input;
pub mod paths;
pub mod process;
mod random;
pub mod profile_commands;
pub mod profile_config;
pub mod profile_picker;
pub mod session;
pub mod settings;
pub mod sound;
pub mod text;
pub mod text_input;
