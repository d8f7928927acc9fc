//! `ssm` — an SSH session manager: session model, ssh_config import, command
//! planning, askpass hand-off rules, reachability bookkeeping, themes, the
//! list/form state machine behind the terminal interface, and the text each
//! screen shows.

pub mod text;
pub mod storage;
pub mod ssh_config;
pub mod connect;
pub mod paths;
pub mod config;
pub mod tui_core;
pub mod tui;
pub mod askpass;
pub mod probe;
pub mod security;
pub mod render;
