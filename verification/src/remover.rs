//! The removal flow's decision protocol.
//!
//! Removing a worktree shells out to the external tool; what the tool
//! printed decides what happens next. Non-empty standard output means the
//! removal went through. Empty standard output with a standard error that
//! carries the tool's force marker means the removal needs forcing: the
//! user is asked once, and a "yes" causes exactly one retry with the force
//! flag set. Any other non-empty standard error is still treated as
//! success, faithfully to the tool's observable protocol, but the text is
//! surfaced to the caller rather than swallowed.
//!
//! The protocol is a state machine: the surrounding shell performs the
//! invocation and the confirmation prompt, and feeds each outcome back into
//! the pure transition function below.

use vstd::prelude::*;
use crate::text::{contains_str, has_substring};

verus! {

/// Where the removal protocol stands.
pub enum RemovalPhase {
    /// Run the removal operation, with the force flag when `force` is set.
    Invoke { force: bool },
    /// Ask the user whether to force-delete (default: no).
    Confirm,
    /// The protocol is over: whether the worktree counts as removed, and
    /// any standard-error text that was treated as success but deserves
    /// the caller's eyes.
    Done { removed: bool, note: Option<String> },
}

/// What the outside world reports back to the protocol.
pub enum RemovalEvent {
    /// The removal operation finished with this captured output.
    Output { stdout_empty: bool, stderr: String },
    /// The user answered the force confirmation.
    Answer { yes: bool },
}

/// The marker the external tool prints on standard error when a removal
/// needs forcing.
pub open spec fn force_marker() -> Seq<char> {
    "--force"@
}

/// Whether the captured standard error says the removal needs forcing.
pub open spec fn needs_force(stderr: Seq<char>) -> bool {
    has_substring(stderr, force_marker())
}

/// The protocol's transition function, as a mathematical definition.
pub open spec fn removal_step_spec(phase: RemovalPhase, event: RemovalEvent) -> RemovalPhase {
    match (phase, event) {
        (RemovalPhase::Invoke { force }, RemovalEvent::Output { stdout_empty, stderr }) => {
            if !stdout_empty {
                RemovalPhase::Done { removed: true, note: Option::None }
            } else if !force && needs_force(stderr@) {
                RemovalPhase::Confirm
            } else if stderr@.len() == 0 {
                RemovalPhase::Done { removed: true, note: Option::None }
            } else {
                RemovalPhase::Done { removed: true, note: Option::Some(stderr) }
            }
        },
        (RemovalPhase::Confirm, RemovalEvent::Answer { yes }) => {
            if yes {
                RemovalPhase::Invoke { force: true }
            } else {
                RemovalPhase::Done { removed: false, note: Option::None }
            }
        },
        (p, _) => p,
    }
}

/// The phase a removal starts in: one unforced attempt.
pub fn removal_start() -> (phase: RemovalPhase)
    ensures
        phase == (RemovalPhase::Invoke { force: false }),
{
    RemovalPhase::Invoke { force: false }
}

/// Advances the removal protocol by one step.
pub fn removal_step(phase: RemovalPhase, event: RemovalEvent) -> (next: RemovalPhase)
    ensures
        next == removal_step_spec(phase, event),
{
    match (phase, event) {
        (RemovalPhase::Invoke { force }, RemovalEvent::Output { stdout_empty, stderr }) => {
            if !stdout_empty {
                RemovalPhase::Done { removed: true, note: None }
            } else if !force && contains_str(stderr.as_str(), "--force") {
                RemovalPhase::Confirm
            } else if stderr.as_str().is_empty() {
                RemovalPhase::Done { removed: true, note: None }
            } else {
                RemovalPhase::Done { removed: true, note: Some(stderr) }
            }
        },
        (RemovalPhase::Confirm, RemovalEvent::Answer { yes }) => {
            if yes {
                RemovalPhase::Invoke { force: true }
            } else {
                RemovalPhase::Done { removed: false, note: None }
            }
        },
        (p, _) => p,
    }
}

/// The force-retry protocol. A first, unforced attempt that prints nothing
/// on standard output and whose standard error carries the force marker
/// leads to exactly one confirmation. "Yes" causes exactly one further
/// attempt, this time with the force flag set; "no" ends the protocol at
/// once, with no further attempt and `removed == false`. A forced attempt
/// never asks again, whatever its output: there is at most one retry.
pub proof fn lemma_force_retry_protocol(
    stderr: String,
    retry_stdout_empty: bool,
    retry_stderr: String,
)
    requires
        needs_force(stderr@),
    ensures
        removal_step_spec(
            RemovalPhase::Invoke { force: false },
            RemovalEvent::Output { stdout_empty: true, stderr },
        ) == RemovalPhase::Confirm,
        removal_step_spec(RemovalPhase::Confirm, RemovalEvent::Answer { yes: true }) == (
        RemovalPhase::Invoke { force: true }),
        removal_step_spec(RemovalPhase::Confirm, RemovalEvent::Answer { yes: false }) == (
        RemovalPhase::Done { removed: false, note: Option::None }),
        !(removal_step_spec(
            RemovalPhase::Invoke { force: true },
            RemovalEvent::Output { stdout_empty: retry_stdout_empty, stderr: retry_stderr },
        ) is Confirm),
{
}

} // verus!
