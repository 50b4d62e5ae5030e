//! The decision logic of the `cmux` terminal multiplexer.

pub mod aider_hook;
pub mod answers;
pub mod antigravity_hook;
pub mod args;
pub mod cli;
pub mod clipboard;
pub mod codex_hook;
pub mod desktop_notify;
pub mod finder;
pub mod flags;
pub mod fleet;
pub mod git_info;
pub mod grok_hook;
pub mod help;
pub mod hooks;
pub mod input;
pub mod json;
pub mod layout_doc;
pub mod layout_verbs;
pub mod model;
pub mod notify;
pub mod opencode_hook;
pub mod order;
pub mod osc;
pub mod output;
pub mod paint;
pub mod persist;
pub mod pi_hook;
pub mod plugin;
pub mod prompt;
pub mod requests;
pub mod session_manager;
pub mod session_picker;
pub mod sessions;
pub mod sidebar;
pub mod socket_watchdog;
pub mod text;
pub mod theme;
pub mod tree;
pub mod verbs;
pub mod version;
