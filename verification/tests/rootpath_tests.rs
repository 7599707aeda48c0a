use worktree_manager::rootpath::{abbreviate_path, resolve_root};

#[test]
fn absolute_answer_resolves_to_its_parent() {
    assert_eq!(resolve_root("/home/me", "/repo/.git\n"), "/repo");
}

#[test]
fn relative_answer_resolves_against_working_directory() {
    assert_eq!(resolve_root("/repo", ".git\n"), "/repo");
}

#[test]
fn worktree_common_directory_resolves_to_shared_root() {
    assert_eq!(resolve_root("/repo/feat", "/repo/.git\n"), "/repo");
}

#[test]
fn parent_of_top_level_directory_is_the_filesystem_root() {
    assert_eq!(resolve_root("/anywhere", "/.git"), "/");
}

#[test]
fn answer_is_trimmed_before_resolution() {
    assert_eq!(resolve_root("/w", "  /repo/.git \t\r\n"), "/repo");
}

#[test]
fn path_under_the_root_is_abbreviated() {
    assert_eq!(abbreviate_path("/repo/feat", "/repo"), "@/feat");
    assert_eq!(abbreviate_path("/repo", "/repo"), "@");
}

#[test]
fn path_elsewhere_is_shown_unchanged() {
    assert_eq!(abbreviate_path("/other/repo", "/repo"), "/other/repo");
    // Only a leading root abbreviates; an inner occurrence stays.
    assert_eq!(abbreviate_path("/mnt/repo/feat", "/repo"), "/mnt/repo/feat");
}

#[test]
fn resolution_is_idempotent_for_unchanged_state() {
    let first = resolve_root("/repo/feat", "/repo/.git\n");
    let second = resolve_root("/repo/feat", "/repo/.git\n");
    assert_eq!(first, second);
}
