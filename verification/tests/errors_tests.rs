use worktree_manager::errors::WorktreeError;
use worktree_manager::text::{contains_str, str_equal};

#[test]
fn each_error_reports_its_own_message() {
    assert_eq!(
        WorktreeError::ExecutionError.message(),
        "could not run the external tool"
    );
    assert_eq!(
        WorktreeError::EncodingError.message(),
        "external tool output was not valid text"
    );
    assert_eq!(WorktreeError::UserCancelled.message(), "cancelled");
    let invalid = WorktreeError::InvalidSelection { branch: "feature-x".to_string() };
    assert_eq!(invalid.message(), "Invalid worktree branch: feature-x");
}

#[test]
fn substring_search_finds_inner_occurrences() {
    assert!(contains_str("fatal: use --force to delete", "--force"));
    assert!(!contains_str("fatal: permission denied", "--force"));
    assert!(contains_str("anything", ""));
    assert!(!contains_str("", "x"));
}

#[test]
fn string_equality_is_exact() {
    assert!(str_equal("feature-x", "feature-x"));
    assert!(!str_equal("feature-x", "feature-y"));
    assert!(!str_equal("feature", "feature-x"));
}
