use worktree_manager::listing::parse_worktrees;

#[test]
fn parses_two_records_and_skips_detached() {
    let text = "/repo/main abc123 [main]\n/repo/feat def456 [feature-x]\n/repo/old 000000 (detached HEAD)\n";
    let ws = parse_worktrees(text);
    assert_eq!(ws.len(), 2);
    assert_eq!(ws[0].path, "/repo/main");
    assert_eq!(ws[0].branch, "main");
    assert_eq!(ws[1].path, "/repo/feat");
    assert_eq!(ws[1].branch, "feature-x");
}

#[test]
fn empty_listing_yields_no_records() {
    assert_eq!(parse_worktrees("").len(), 0);
}

#[test]
fn blank_lines_are_skipped() {
    let ws = parse_worktrees("\n\n/a 1 [x]\n\n");
    assert_eq!(ws.len(), 1);
    assert_eq!(ws[0].path, "/a");
    assert_eq!(ws[0].branch, "x");
}

#[test]
fn missing_trailing_newline_still_parses_last_line() {
    let ws = parse_worktrees("/a 1 [x]\n/b 2 [y]");
    assert_eq!(ws.len(), 2);
    assert_eq!(ws[1].path, "/b");
    assert_eq!(ws[1].branch, "y");
}

#[test]
fn empty_bracket_token_is_excluded() {
    let ws = parse_worktrees("/a 1 []\n/b 2 [y]\n");
    assert_eq!(ws.len(), 1);
    assert_eq!(ws[0].path, "/b");
}

#[test]
fn bracketed_branch_with_parentheses_is_kept() {
    let ws = parse_worktrees("/repo/x abc [feat(api)]\n");
    assert_eq!(ws.len(), 1);
    assert_eq!(ws[0].path, "/repo/x");
    assert_eq!(ws[0].branch, "feat(api)");
}

#[test]
fn paren_wrapped_bracketed_token_is_excluded() {
    let ws = parse_worktrees("p [(x)]\n/b 2 [y]\n");
    assert_eq!(ws.len(), 1);
    assert_eq!(ws[0].path, "/b");
    assert_eq!(ws[0].branch, "y");
}

#[test]
fn bare_marker_is_excluded() {
    let ws = parse_worktrees("/repo 000000 (bare)\n");
    assert_eq!(ws.len(), 0);
}

#[test]
fn single_token_line_is_its_own_path_and_branch() {
    let ws = parse_worktrees("alone\n");
    assert_eq!(ws.len(), 1);
    assert_eq!(ws[0].path, "alone");
    assert_eq!(ws[0].branch, "alone");
}

#[test]
fn padded_columns_take_first_and_last_tokens() {
    let ws = parse_worktrees("/deep/path   0abc12   [topic/deep]\n");
    assert_eq!(ws.len(), 1);
    assert_eq!(ws[0].path, "/deep/path");
    assert_eq!(ws[0].branch, "topic/deep");
}
