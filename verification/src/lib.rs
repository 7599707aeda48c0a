//! Verified core of a worktree management helper.
//!
//! The library holds the logic of the tool: parsing the external tool's
//! worktree listing into records, resolving the repository root from the
//! common-directory query, planning an interactive selection, driving the
//! removal force-retry protocol, and generating per-shell hook scripts.
//! All I/O (running the external tool, prompting the user) lives outside,
//! in a thin shell that hands this library plain strings and takes plain
//! values back.

pub mod errors;
pub mod hook;
pub mod listing;
pub mod remover;
pub mod rootpath;
pub mod selector;
pub mod text;
