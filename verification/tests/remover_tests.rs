use worktree_manager::remover::{removal_start, removal_step, RemovalEvent, RemovalPhase};

fn output(stdout_empty: bool, stderr: &str) -> RemovalEvent {
    RemovalEvent::Output { stdout_empty, stderr: stderr.to_string() }
}

#[test]
fn printed_stdout_means_removed() {
    let phase = removal_step(removal_start(), output(false, ""));
    match phase {
        RemovalPhase::Done { removed, note } => {
            assert!(removed);
            assert!(note.is_none());
        }
        _ => panic!("expected the protocol to finish"),
    }
}

#[test]
fn silent_success_means_removed() {
    let phase = removal_step(removal_start(), output(true, ""));
    match phase {
        RemovalPhase::Done { removed, note } => {
            assert!(removed);
            assert!(note.is_none());
        }
        _ => panic!("expected the protocol to finish"),
    }
}

#[test]
fn force_marker_asks_for_confirmation() {
    let stderr = "fatal: '/repo/feat' contains modified or untracked files, use --force to delete it";
    let phase = removal_step(removal_start(), output(true, stderr));
    assert!(matches!(phase, RemovalPhase::Confirm));
}

#[test]
fn confirming_yes_makes_exactly_one_forced_retry() {
    let stderr = "fatal: use --force to delete it";
    let asking = removal_step(removal_start(), output(true, stderr));
    assert!(matches!(asking, RemovalPhase::Confirm));
    let retry = removal_step(asking, RemovalEvent::Answer { yes: true });
    match retry {
        RemovalPhase::Invoke { force } => assert!(force),
        _ => panic!("expected one forced re-invocation"),
    }
    // The forced attempt finishes whatever it prints: no second prompt.
    let done = removal_step(retry, output(true, stderr));
    assert!(matches!(done, RemovalPhase::Done { removed: true, .. }));
}

#[test]
fn confirming_no_finishes_without_retry_and_without_removal() {
    let stderr = "fatal: use --force to delete it";
    let asking = removal_step(removal_start(), output(true, stderr));
    let done = removal_step(asking, RemovalEvent::Answer { yes: false });
    match done {
        RemovalPhase::Done { removed, note } => {
            assert!(!removed);
            assert!(note.is_none());
        }
        _ => panic!("expected the protocol to finish unforced"),
    }
}

#[test]
fn unrelated_stderr_is_surfaced_with_the_success() {
    let phase = removal_step(removal_start(), output(true, "warning: something unrelated"));
    match phase {
        RemovalPhase::Done { removed, note } => {
            assert!(removed);
            assert_eq!(note.as_deref(), Some("warning: something unrelated"));
        }
        _ => panic!("expected the protocol to finish"),
    }
}
