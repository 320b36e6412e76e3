//! Decisions of a git worktree manager with tmux sessions and fuzzy search.

pub mod cli;
pub mod completeness;
pub mod config;
pub mod create;
pub mod destroy;
pub mod ending;
pub mod flow;
pub mod fuzzy;
pub mod global;
pub mod linking;
pub mod modes;
pub mod names;
pub mod paths;
pub mod printing;
pub mod remove;
pub mod rename;
pub mod replay;
pub mod repo;
pub mod safety;
pub mod text;
pub mod tmux;
