use worktree_manager::errors::WorktreeError;
use worktree_manager::listing::parse_worktrees;
use worktree_manager::selector::{find_current, paths_match_str, plan_selection, resolve_choice, SelectionPlan};

fn sample() -> Vec<worktree_manager::listing::Worktree> {
    parse_worktrees("/repo/main 1 [main]\n/repo/feat 2 [feature-x]\n/repo/fix 3 [hotfix]\n")
}

#[test]
fn no_current_offers_all_branches_in_listing_order() {
    let ws = sample();
    match plan_selection(&ws, None, false) {
        SelectionPlan::Prompt { options } => {
            assert_eq!(options, vec!["main", "feature-x", "hotfix"]);
        }
        _ => panic!("expected a prompt over every branch"),
    }
}

#[test]
fn current_only_returns_current_branch_without_prompt() {
    let ws = sample();
    match plan_selection(&ws, Some(1), true) {
        SelectionPlan::UseCurrent { branch } => assert_eq!(branch, "feature-x"),
        _ => panic!("expected the current worktree's branch"),
    }
}

#[test]
fn interactive_menu_excludes_exactly_the_current_entry() {
    let ws = sample();
    match plan_selection(&ws, Some(1), false) {
        SelectionPlan::Prompt { options } => {
            assert_eq!(options, vec!["main", "hotfix"]);
            assert!(!options.iter().any(|b| b == "feature-x"));
        }
        _ => panic!("expected a prompt without the current branch"),
    }
}

#[test]
fn sole_current_worktree_reports_no_other() {
    let ws = parse_worktrees("/repo/main 1 [main]\n");
    match plan_selection(&ws, Some(0), false) {
        SelectionPlan::NoOther => {}
        _ => panic!("expected the no-other-worktrees outcome"),
    }
}

#[test]
fn current_detection_matches_first_exact_path() {
    let ws = sample();
    assert_eq!(find_current(&ws, "/repo/feat"), Some(1));
    assert_eq!(find_current(&ws, "/somewhere/else"), None);
}

#[test]
fn current_detection_ignores_trailing_separators() {
    let ws = sample();
    assert_eq!(find_current(&ws, "/repo/feat/"), Some(1));
    assert!(paths_match_str("/a/b/", "/a/b"));
    assert!(!paths_match_str("/a/b", "/a/bc"));
}

#[test]
fn chosen_branch_resolves_to_its_record() {
    let ws = sample();
    assert_eq!(resolve_choice(&ws, "hotfix").unwrap(), 2);
}

#[test]
fn vanished_branch_is_an_invalid_selection_with_the_name() {
    let ws = sample();
    match resolve_choice(&ws, "gone") {
        Err(e @ WorktreeError::InvalidSelection { .. }) => {
            assert_eq!(e.message(), "Invalid worktree branch: gone");
        }
        _ => panic!("expected an invalid selection"),
    }
}
