use worktree_manager::hook::{generate_hook_script, shell_from_name, Shell};

const GIT_ALIAS_LINES: [&str; 3] = [
    "git config --global alias.wtls '!worktree-manager list'",
    "git config --global alias.wtrm '!worktree-manager remove'",
    "git config --global alias.wt '!worktree-manager'",
];

#[test]
fn generation_is_deterministic() {
    let first = generate_hook_script(Shell::Zsh, false, false);
    let second = generate_hook_script(Shell::Zsh, false, false);
    assert_eq!(first, second);
}

#[test]
fn bash_script_without_git_aliases_keeps_function_and_aliases() {
    let script = generate_hook_script(Shell::Bash, false, true);
    assert!(script.contains("wtcd() {"));
    assert!(script.contains("worktree-manager pick"));
    assert!(script.contains("alias wt='worktree-manager'"));
    assert!(script.contains("alias wtc='wtcd'"));
    for line in GIT_ALIAS_LINES {
        assert!(!script.contains(line));
    }
}

#[test]
fn bash_full_script_is_exactly_the_three_blocks() {
    let script = generate_hook_script(Shell::Bash, false, false);
    let expected = "wtcd() {\n  local target\n  target=\"$(worktree-manager pick)\" || return 1\n  cd \"$target\" || return 1\n}\nalias wt='worktree-manager'\nalias wtc='wtcd'\ngit config --global alias.wtls '!worktree-manager list'\ngit config --global alias.wtrm '!worktree-manager remove'\ngit config --global alias.wt '!worktree-manager'\n";
    assert_eq!(script, expected);
}

#[test]
fn no_alias_removes_exactly_the_alias_lines() {
    let with_alias = generate_hook_script(Shell::Bash, false, true);
    let without_alias = generate_hook_script(Shell::Bash, true, true);
    let alias_block = "alias wt='worktree-manager'\nalias wtc='wtcd'\n";
    assert_eq!(with_alias, format!("{without_alias}{alias_block}"));
}

#[test]
fn no_git_alias_removes_exactly_the_git_alias_lines() {
    let with_git = generate_hook_script(Shell::Fish, true, false);
    let without_git = generate_hook_script(Shell::Fish, true, true);
    assert!(with_git.starts_with(&without_git));
    let tail = &with_git[without_git.len()..];
    let expected_tail = format!(
        "{}\n{}\n{}\n",
        GIT_ALIAS_LINES[0], GIT_ALIAS_LINES[1], GIT_ALIAS_LINES[2]
    );
    assert_eq!(tail, expected_tail);
}

#[test]
fn fish_uses_its_own_function_and_alias_syntax() {
    let script = generate_hook_script(Shell::Fish, false, true);
    assert!(script.contains("function wtcd"));
    assert!(script.contains("end\n"));
    assert!(script.contains("alias wt 'worktree-manager'"));
}

#[test]
fn zsh_script_carries_the_directory_changing_function() {
    let script = generate_hook_script(Shell::Zsh, true, true);
    assert!(script.contains("wtcd() {"));
    assert!(script.contains("cd \"$target\""));
}

#[test]
fn dialect_names_are_recognized() {
    assert_eq!(shell_from_name("bash"), Some(Shell::Bash));
    assert_eq!(shell_from_name("zsh"), Some(Shell::Zsh));
    assert_eq!(shell_from_name("fish"), Some(Shell::Fish));
    assert_eq!(shell_from_name("powershell"), None);
    assert_eq!(shell_from_name(""), None);
}
