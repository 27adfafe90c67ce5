//! Core logic of a terminal front end that runs agentic CLI tools inside a
//! sandbox container: configuration, git worktree listings, session
//! records, shell command construction and the screen state machine.

pub mod text;
pub mod paths;
pub mod config;
pub mod worktree;
pub mod session;
pub mod terminal;
pub mod app;
pub mod ui;
