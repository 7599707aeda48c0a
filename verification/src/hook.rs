//! The shell hook generator.
//!
//! A child process cannot change its parent shell's working directory, so
//! the tool emits a snippet for the user's shell initialization: a
//! directory-changing function that wraps the tool's pick command, two
//! optional convenience aliases, and three optional alias registrations
//! with the version-control tool. Generation is pure text work: no I/O,
//! deterministic, one fixed block per dialect.

use vstd::prelude::*;
use vstd::string::StringExecFns;
use crate::text::str_equal;

verus! {

/// The supported shell dialects.
#[derive(Clone, Copy, Debug, PartialEq, Eq, Structural)]
pub enum Shell {
    Bash,
    Zsh,
    Fish,
}

/// The directory-changing function for each dialect: it captures the pick
/// command's single-line output (a path) and changes directory to it.
pub open spec fn cd_function_text(sh: Shell) -> Seq<char> {
    match sh {
        Shell::Bash => "wtcd() {\n  local target\n  target=\"$(worktree-manager pick)\" || return 1\n  cd \"$target\" || return 1\n}\n"@,
        Shell::Zsh => "wtcd() {\n  local target\n  target=\"$(worktree-manager pick)\" || return 1\n  cd \"$target\" || return 1\n}\n"@,
        Shell::Fish => "function wtcd\n    set -l target (worktree-manager pick); or return 1\n    cd $target\nend\n"@,
    }
}

/// The two convenience aliases in each dialect's alias syntax: a short
/// alias for the tool and one for the directory-changing function.
pub open spec fn alias_text(sh: Shell) -> Seq<char> {
    match sh {
        Shell::Bash => "alias wt='worktree-manager'\nalias wtc='wtcd'\n"@,
        Shell::Zsh => "alias wt='worktree-manager'\nalias wtc='wtcd'\n"@,
        Shell::Fish => "alias wt 'worktree-manager'\nalias wtc 'wtcd'\n"@,
    }
}

/// The three version-control alias registrations, dialect-independent:
/// listing, removal, and the tool itself.
pub open spec fn git_alias_text() -> Seq<char> {
    "git config --global alias.wtls '!worktree-manager list'\ngit config --global alias.wtrm '!worktree-manager remove'\ngit config --global alias.wt '!worktree-manager'\n"@
}

/// The whole hook script: the directory-changing function always, the
/// aliases unless `no_alias`, the version-control registrations unless
/// `no_git_alias`.
pub open spec fn hook_script(sh: Shell, no_alias: bool, no_git_alias: bool) -> Seq<char> {
    cd_function_text(sh) + (if no_alias {
        Seq::<char>::empty()
    } else {
        alias_text(sh)
    }) + (if no_git_alias {
        Seq::<char>::empty()
    } else {
        git_alias_text()
    })
}

/// The generator is pure: the script is a function of the dialect and the
/// two toggles alone, so two calls with identical arguments produce
/// byte-identical output.
pub proof fn lemma_hook_script_deterministic(
    sh: Shell,
    no_alias: bool,
    no_git_alias: bool,
    first: Seq<char>,
    second: Seq<char>,
)
    requires
        first == hook_script(sh, no_alias, no_git_alias),
        second == hook_script(sh, no_alias, no_git_alias),
    ensures
        first == second,
{
}

/// Toggling `no_alias` removes exactly the alias lines and nothing else:
/// with aliases the script is the function text, then the alias text, then
/// the unchanged tail; without them the alias text alone is gone.
pub proof fn lemma_no_alias_removes_exactly_aliases(sh: Shell, no_git_alias: bool)
    ensures
        hook_script(sh, false, no_git_alias) == cd_function_text(sh) + alias_text(sh) + (
        if no_git_alias {
            Seq::<char>::empty()
        } else {
            git_alias_text()
        }),
        hook_script(sh, true, no_git_alias) == cd_function_text(sh) + (if no_git_alias {
            Seq::<char>::empty()
        } else {
            git_alias_text()
        }),
{
    assert(cd_function_text(sh) + Seq::<char>::empty() =~= cd_function_text(sh));
}

/// Toggling `no_git_alias` removes exactly the three version-control alias
/// registration lines and nothing else: the script with them is the script
/// without them followed by exactly that block.
pub proof fn lemma_no_git_alias_removes_exactly_git_aliases(sh: Shell, no_alias: bool)
    ensures
        hook_script(sh, no_alias, false) == hook_script(sh, no_alias, true) + git_alias_text(),
{
    let head = cd_function_text(sh) + (if no_alias {
        Seq::<char>::empty()
    } else {
        alias_text(sh)
    });
    assert(head + Seq::<char>::empty() =~= head);
}

/// Generates the hook script for one dialect and the two feature toggles.
pub fn generate_hook_script(shell: Shell, no_alias: bool, no_git_alias: bool) -> (script: String)
    ensures
        script@ == hook_script(shell, no_alias, no_git_alias),
{
    let mut script: String = match shell {
        Shell::Bash => "wtcd() {\n  local target\n  target=\"$(worktree-manager pick)\" || return 1\n  cd \"$target\" || return 1\n}\n".to_owned(),
        Shell::Zsh => "wtcd() {\n  local target\n  target=\"$(worktree-manager pick)\" || return 1\n  cd \"$target\" || return 1\n}\n".to_owned(),
        Shell::Fish => "function wtcd\n    set -l target (worktree-manager pick); or return 1\n    cd $target\nend\n".to_owned(),
    };
    if !no_alias {
        match shell {
            Shell::Bash => script.append("alias wt='worktree-manager'\nalias wtc='wtcd'\n"),
            Shell::Zsh => script.append("alias wt='worktree-manager'\nalias wtc='wtcd'\n"),
            Shell::Fish => script.append("alias wt 'worktree-manager'\nalias wtc 'wtcd'\n"),
        }
    }
    if !no_git_alias {
        script.append(
            "git config --global alias.wtls '!worktree-manager list'\ngit config --global alias.wtrm '!worktree-manager remove'\ngit config --global alias.wt '!worktree-manager'\n",
        );
    }
    proof {
        if no_alias {
            assert(cd_function_text(shell) + Seq::<char>::empty() =~= cd_function_text(shell));
        }
        if no_git_alias {
            let head = cd_function_text(shell) + (if no_alias {
                Seq::<char>::empty()
            } else {
                alias_text(shell)
            });
            assert(head + Seq::<char>::empty() =~= head);
        }
    }
    script
}

/// The dialect a name denotes, if any.
pub open spec fn shell_of_name(name: Seq<char>) -> Option<Shell> {
    if name == "bash"@ {
        Option::Some(Shell::Bash)
    } else if name == "zsh"@ {
        Option::Some(Shell::Zsh)
    } else if name == "fish"@ {
        Option::Some(Shell::Fish)
    } else {
        Option::None
    }
}

/// Recognizes a dialect name: "bash", "zsh" or "fish".
pub fn shell_from_name(name: &str) -> (r: Option<Shell>)
    ensures
        r == shell_of_name(name@),
{
    if str_equal(name, "bash") {
        Some(Shell::Bash)
    } else if str_equal(name, "zsh") {
        Some(Shell::Zsh)
    } else if str_equal(name, "fish") {
        Some(Shell::Fish)
    } else {
        None
    }
}

} // verus!
