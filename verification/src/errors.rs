//! The error taxonomy of the tool.
//!
//! The first three variants are raised by the surrounding shell: starting
//! the external tool, decoding its output, and the user cancelling a
//! prompt. `InvalidSelection` is raised by the selection logic when the
//! chosen branch no longer names a listed worktree.

use vstd::prelude::*;
use vstd::string::StringExecFns;

verus! {

/// A failure of one command of the tool.
#[derive(Debug)]
pub enum WorktreeError {
    /// The external tool could not be started. Fatal.
    ExecutionError,
    /// The external tool's output was not valid text. Fatal.
    EncodingError,
    /// The user cancelled an interactive prompt. Aborts the command only.
    UserCancelled,
    /// The chosen branch is absent from the current record set (the set
    /// changed between listing and selection). Carries the offending name.
    InvalidSelection { branch: String },
}

/// The report text of each error, with the offending branch name spelled
/// out for an invalid selection.
pub open spec fn message_of(e: WorktreeError) -> Seq<char> {
    match e {
        WorktreeError::ExecutionError => "could not run the external tool"@,
        WorktreeError::EncodingError => "external tool output was not valid text"@,
        WorktreeError::UserCancelled => "cancelled"@,
        WorktreeError::InvalidSelection { branch } => "Invalid worktree branch: "@ + branch@,
    }
}

impl WorktreeError {
    /// The human-readable report of this error.
    pub fn message(&self) -> (text: String)
        ensures
            text@ == message_of(*self),
    {
        match self {
            WorktreeError::ExecutionError => "could not run the external tool".to_owned(),
            WorktreeError::EncodingError => "external tool output was not valid text".to_owned(),
            WorktreeError::UserCancelled => "cancelled".to_owned(),
            WorktreeError::InvalidSelection { branch } => {
                let mut text = "Invalid worktree branch: ".to_owned();
                text.append(branch.as_str());
                text
            },
        }
    }
}

} // verus!
