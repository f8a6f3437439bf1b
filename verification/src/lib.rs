//! Verified core of a read-only git branch topology explorer: relative
//! time formatting, text truncation, commit-graph lane assignment, branch
//! search and the interactive state machine of the terminal UI.

pub mod strings;
pub mod git;
pub mod idmap;
pub mod graph;
pub mod ui;
pub mod app;
pub mod events;
