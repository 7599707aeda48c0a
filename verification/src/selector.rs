//! Interactive-selection logic: which worktree is the current one, which
//! branches the single-choice menu offers, and how a chosen branch name is
//! resolved back to a record.
//!
//! The menu itself is an outside capability; this module only decides what
//! the menu shows and what its answer means.

use vstd::prelude::*;
use crate::errors::WorktreeError;
use crate::listing::{views_of, Worktree, WorktreeView};
use crate::text::{drop_trailing, lemma_drop_trailing_take, str_equal};
use vstd::string::StrSliceExecFns;

verus! {

/// What the selector decides to do, given the records, the detected current
/// worktree and the requested mode.
pub enum SelectionPlan {
    /// The current worktree's branch is the answer; no prompt is shown.
    UseCurrent { branch: String },
    /// Show a single-choice menu over these branch names, in listing order.
    Prompt { options: Vec<String> },
    /// Excluding the current worktree emptied the menu: report "no other
    /// worktrees available" and finish successfully.
    NoOther,
}

/// The branch names of the records, in listing order.
pub open spec fn branches_of(ws: Seq<WorktreeView>) -> Seq<Seq<char>> {
    ws.map_values(|w: WorktreeView| w.branch)
}

/// The menu contents: all branches, except the current worktree's entry
/// when one was detected.
pub open spec fn menu_of(ws: Seq<WorktreeView>, current: Option<int>) -> Seq<Seq<char>> {
    match current {
        Option::None => branches_of(ws),
        Option::Some(i) => branches_of(ws.remove(i)),
    }
}

/// Two paths name the same worktree when they agree up to trailing
/// separators.
pub open spec fn paths_match(a: Seq<char>, b: Seq<char>) -> bool {
    drop_trailing(a, |c: char| c == '/') == drop_trailing(b, |c: char| c == '/')
}

/// With no current worktree detected the menu offers every branch in
/// listing order. With a current worktree detected the menu is the branch
/// list with exactly that entry removed and nothing else changed; when that
/// worktree was the only record, the menu is empty — the "no other
/// worktrees" outcome, not an error.
pub proof fn lemma_selector_menu(ws: Seq<WorktreeView>, i: int)
    requires
        0 <= i < ws.len(),
    ensures
        menu_of(ws, Option::None) == branches_of(ws),
        menu_of(ws, Option::Some(i)) == branches_of(ws).remove(i),
        ws.len() == 1 ==> menu_of(ws, Option::Some(i)) == Seq::<Seq<char>>::empty(),
{
    ws.remove_ensures(i);
    branches_of(ws).remove_ensures(i);
    assert(branches_of(ws.remove(i)) =~= branches_of(ws).remove(i));
    if ws.len() == 1 {
        assert(branches_of(ws.remove(i)) =~= Seq::<Seq<char>>::empty());
    }
}

/// When branch names are pairwise distinct, the current worktree's branch
/// appears nowhere in the menu that excludes its entry. (With a duplicated
/// branch name the exclusion removes one entry only, so the name can still
/// show: the distinctness assumption is what the statement needs.)
pub proof fn lemma_menu_omits_current_branch(ws: Seq<WorktreeView>, i: int)
    requires
        0 <= i < ws.len(),
        branches_of(ws).no_duplicates(),
    ensures
        !menu_of(ws, Option::Some(i)).contains(ws[i].branch),
{
    lemma_selector_menu(ws, i);
    let bs = branches_of(ws);
    bs.remove_ensures(i);
    assert(bs[i] == ws[i].branch);
    assert forall|j: int| 0 <= j < bs.remove(i).len() implies #[trigger] bs.remove(i)[j]
        != ws[i].branch by {
        if j < i {
            assert(bs.remove(i)[j] == bs[j]);
        } else {
            assert(bs.remove(i)[j] == bs[j + 1]);
        }
    }
}

/// Length of `s` without its trailing slashes.
fn stripped_len(s: &str) -> (k: usize)
    ensures
        k <= s@.len(),
        drop_trailing(s@, |c: char| c == '/') == s@.take(k as int),
{
    let n: usize = s.unicode_len();
    let mut hi: usize = n;
    while hi > 0 && s.get_char(hi - 1) == '/'
        invariant
            hi <= n,
            n == s@.len(),
            forall|j: int| hi <= j < n ==> s@[j] == '/',
        decreases hi,
    {
        hi = hi - 1;
    }
    proof {
        lemma_drop_trailing_take(s@, |c: char| c == '/', hi as int);
    }
    hi
}

/// Whether two path strings name the same worktree, ignoring trailing
/// separators.
pub fn paths_match_str(a: &str, b: &str) -> (same: bool)
    ensures
        same == paths_match(a@, b@),
{
    let ka: usize = stripped_len(a);
    let kb: usize = stripped_len(b);
    if ka != kb {
        proof {
            assert(a@.take(ka as int).len() == ka);
            assert(b@.take(kb as int).len() == kb);
        }
        return false;
    }
    let mut j: usize = 0;
    while j < ka
        invariant
            j <= ka,
            ka == kb,
            ka <= a@.len(),
            kb <= b@.len(),
            drop_trailing(a@, |c: char| c == '/') == a@.take(ka as int),
            drop_trailing(b@, |c: char| c == '/') == b@.take(kb as int),
            forall|m: int| 0 <= m < j ==> a@[m] == b@[m],
        decreases ka - j,
    {
        if a.get_char(j) != b.get_char(j) {
            proof {
                assert(a@.take(ka as int)[j as int] != b@.take(kb as int)[j as int]);
            }
            return false;
        }
        j = j + 1;
    }
    proof {
        assert(a@.take(ka as int) =~= b@.take(kb as int));
    }
    true
}

/// Detects the current worktree: the first record whose path matches the
/// process working directory, ignoring trailing separators.
pub fn find_current(worktrees: &Vec<Worktree>, cwd: &str) -> (found: Option<usize>)
    ensures
        match found {
            Some(i) => i < worktrees@.len() && paths_match(worktrees@[i as int]@.path, cwd@)
                && (forall|j: int|
                0 <= j < i ==> !paths_match(#[trigger] worktrees@[j]@.path, cwd@)),
            None => forall|j: int|
                0 <= j < worktrees@.len() ==> !paths_match(#[trigger] worktrees@[j]@.path, cwd@),
        },
{
    let mut i: usize = 0;
    while i < worktrees.len()
        invariant
            i <= worktrees@.len(),
            forall|j: int| 0 <= j < i ==> !paths_match(#[trigger] worktrees@[j]@.path, cwd@),
        decreases worktrees@.len() - i,
    {
        if paths_match_str(worktrees[i].path.as_str(), cwd) {
            return Some(i);
        }
        i = i + 1;
    }
    None
}

/// Decides what the selector does: answer with the current worktree's
/// branch, prompt over a menu, or report that no other worktree is left.
pub fn plan_selection(worktrees: &Vec<Worktree>, current: Option<usize>, current_only: bool) -> (plan:
    SelectionPlan)
    requires
        current matches Some(i) ==> i < worktrees@.len(),
    ensures
        match current {
            Some(i) => {
                if current_only {
                    plan matches SelectionPlan::UseCurrent { branch } && branch@
                        == worktrees@[i as int]@.branch
                } else if worktrees@.len() == 1 {
                    plan is NoOther
                } else {
                    plan matches SelectionPlan::Prompt { options } && options@.map_values(
                        |s: String| s@,
                    ) == menu_of(views_of(worktrees@), Option::Some(i as int))
                }
            },
            None => plan matches SelectionPlan::Prompt { options } && options@.map_values(
                |s: String| s@,
            ) == branches_of(views_of(worktrees@)),
        },
{
    match current {
        None => {
            let mut options: Vec<String> = Vec::new();
            let mut i: usize = 0;
            while i < worktrees.len()
                invariant
                    i <= worktrees@.len(),
                    options@.len() == i,
                    forall|j: int|
                        0 <= j < i ==> #[trigger] options@[j]@ == worktrees@[j]@.branch,
                decreases worktrees@.len() - i,
            {
                options.push(worktrees[i].branch.clone());
                i = i + 1;
            }
            proof {
                assert(options@.map_values(|s: String| s@) =~= branches_of(views_of(worktrees@)));
            }
            SelectionPlan::Prompt { options }
        },
        Some(ci) => {
            if current_only {
                SelectionPlan::UseCurrent { branch: worktrees[ci].branch.clone() }
            } else if worktrees.len() == 1 {
                SelectionPlan::NoOther
            } else {
                let ghost vs = views_of(worktrees@);
                let mut options: Vec<String> = Vec::new();
                let mut i: usize = 0;
                while i < worktrees.len()
                    invariant
                        ci < worktrees@.len(),
                        i <= worktrees@.len(),
                        options@.len() == if i <= ci {
                            i as int
                        } else {
                            i - 1
                        },
                        forall|j: int|
                            0 <= j < options@.len() ==> #[trigger] options@[j]@ == (if j < ci {
                                worktrees@[j]@.branch
                            } else {
                                worktrees@[j + 1]@.branch
                            }),
                    decreases worktrees@.len() - i,
                {
                    if i != ci {
                        options.push(worktrees[i].branch.clone());
                    }
                    i = i + 1;
                }
                proof {
                    vs.remove_ensures(ci as int);
                    assert(options@.map_values(|s: String| s@) =~= branches_of(
                        vs.remove(ci as int),
                    ));
                }
                SelectionPlan::Prompt { options }
            }
        },
    }
}

/// Resolves a chosen branch name back to the first record that carries it;
/// a name that no record carries is an invalid selection, reported with the
/// offending name.
pub fn resolve_choice(worktrees: &Vec<Worktree>, chosen: &str) -> (resolved: Result<
    usize,
    WorktreeError,
>)
    ensures
        match resolved {
            Ok(i) => i < worktrees@.len() && worktrees@[i as int]@.branch == chosen@ && (forall|
                j: int,
            |
                0 <= j < i ==> #[trigger] worktrees@[j]@.branch != chosen@),
            Err(e) => (forall|j: int|
                0 <= j < worktrees@.len() ==> #[trigger] worktrees@[j]@.branch != chosen@) && (
            e matches WorktreeError::InvalidSelection { branch } && branch@ == chosen@),
        },
{
    let mut i: usize = 0;
    while i < worktrees.len()
        invariant
            i <= worktrees@.len(),
            forall|j: int| 0 <= j < i ==> #[trigger] worktrees@[j]@.branch != chosen@,
        decreases worktrees@.len() - i,
    {
        if str_equal(worktrees[i].branch.as_str(), chosen) {
            return Ok(i);
        }
        i = i + 1;
    }
    Err(WorktreeError::InvalidSelection { branch: chosen.to_owned() })
}

} // verus!
