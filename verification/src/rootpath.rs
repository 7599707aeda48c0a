//! Repository-root resolution.
//!
//! The external tool answers the common-directory query with a path, often
//! relative and often ending in a newline. The root is the parent of that
//! directory, after trimming the answer and resolving a relative answer
//! against the process working directory.

use vstd::prelude::*;
use vstd::string::StrSliceExecFns;
use vstd::string::StringExecFns;
use crate::text::{
    char_rfind,
    drop_leading,
    drop_trailing,
    lemma_char_rfind,
    lemma_drop_leading_skip,
    lemma_drop_trailing_take,
    rfind_char,
};

verus! {

/// Whitespace that trimming removes from either end of the tool's answer.
pub open spec fn is_blank(c: char) -> bool {
    c == ' ' || c == '\n' || c == '\t' || c == '\r'
}

/// The answer with leading and trailing whitespace removed.
pub open spec fn trimmed(s: Seq<char>) -> Seq<char> {
    drop_trailing(drop_leading(s, |c: char| is_blank(c)), |c: char| is_blank(c))
}

/// The parent directory of a path: everything before the last slash. A
/// path whose only slash leads is a child of the filesystem root; a path
/// without any slash is its own parent.
pub open spec fn parent_dir(p: Seq<char>) -> Seq<char> {
    let r = char_rfind(p, '/');
    if r < 0 {
        p
    } else if r == 0 {
        seq!['/']
    } else {
        p.take(r)
    }
}

/// Whether the trimmed answer is an absolute path.
pub open spec fn is_absolute(t: Seq<char>) -> bool {
    t.len() > 0 && t[0] == '/'
}

/// The repository root derived from the working directory `cwd` and the raw
/// common-directory answer `raw`: trim the answer, resolve it against `cwd`
/// when it is relative, and take the parent of the resolved directory.
pub open spec fn root_of(cwd: Seq<char>, raw: Seq<char>) -> Seq<char> {
    let t = trimmed(raw);
    if is_absolute(t) {
        parent_dir(t)
    } else {
        parent_dir(cwd + seq!['/'] + t)
    }
}

/// Root resolution is a pure function of the working directory and the raw
/// query answer: with an unchanged repository state (the same two strings),
/// resolving twice yields the same root.
pub proof fn lemma_root_resolution_idempotent(
    cwd: Seq<char>,
    raw: Seq<char>,
    first: Seq<char>,
    second: Seq<char>,
)
    requires
        first == root_of(cwd, raw),
        second == root_of(cwd, raw),
    ensures
        first == second,
{
}

/// The display form of a worktree path: a path that starts with the root
/// keeps the marker "@" in the root's place; any other path shows
/// unchanged.
pub open spec fn abbreviated(path: Seq<char>, root: Seq<char>) -> Seq<char> {
    if root.is_prefix_of(path) {
        "@"@ + path.skip(root.len() as int)
    } else {
        path
    }
}

/// Abbreviates a worktree path for display, shortening a leading root to
/// the marker "@".
pub fn abbreviate_path(path: &str, root: &str) -> (shown: String)
    ensures
        shown@ == abbreviated(path@, root@),
{
    let np: usize = path.unicode_len();
    let nr: usize = root.unicode_len();
    if nr > np {
        return path.to_owned();
    }
    let mut i: usize = 0;
    while i < nr
        invariant
            i <= nr,
            nr <= np,
            np == path@.len(),
            nr == root@.len(),
            forall|j: int| 0 <= j < i ==> path@[j] == root@[j],
        decreases nr - i,
    {
        if path.get_char(i) != root.get_char(i) {
            proof {
                assert(path@.subrange(0, nr as int)[i as int] != root@[i as int]);
            }
            return path.to_owned();
        }
        i = i + 1;
    }
    proof {
        assert(path@.subrange(0, nr as int) =~= root@);
    }
    let mut shown = "@".to_owned();
    shown.append(path.substring_char(nr, np));
    shown
}

/// Whether trimming removes `c`.
fn is_blank_char(c: char) -> (b: bool)
    ensures
        b == is_blank(c),
{
    c == ' ' || c == '\n' || c == '\t' || c == '\r'
}

/// The parent directory of `p`: everything before its last slash.
fn parent_dir_str(p: &str) -> (parent: String)
    ensures
        parent@ == parent_dir(p@),
{
    proof {
        lemma_char_rfind(p@, '/');
    }
    match rfind_char(p, '/') {
        None => {
            proof {
                let r = char_rfind(p@, '/');
                if r >= 0 {
                    assert(p@[r] == '/');
                }
            }
            p.to_owned()
        },
        Some(i) => {
            proof {
                let r = char_rfind(p@, '/');
                if r < i {
                    assert(p@[i as int] != '/');
                }
                if i < r {
                    assert(p@[r] != '/');
                }
                assert(i as int == r);
            }
            if i == 0 {
                let slash = "/".to_owned();
                proof {
                    reveal_strlit("/");
                    assert(slash@ =~= seq!['/']);
                }
                slash
            } else {
                let kept = p.substring_char(0, i);
                proof {
                    assert(kept@ =~= p@.take(i as int));
                }
                kept.to_owned()
            }
        },
    }
}

/// Resolves the repository root from the process working directory and the
/// raw common-directory answer of the external tool.
pub fn resolve_root(cwd: &str, raw: &str) -> (root: String)
    ensures
        root@ == root_of(cwd@, raw@),
{
    let n: usize = raw.unicode_len();
    let mut lo: usize = 0;
    while lo < n && is_blank_char(raw.get_char(lo))
        invariant
            lo <= n,
            n == raw@.len(),
            forall|j: int| 0 <= j < lo ==> is_blank(raw@[j]),
        decreases n - lo,
    {
        lo = lo + 1;
    }
    let mut hi: usize = n;
    while hi > lo && is_blank_char(raw.get_char(hi - 1))
        invariant
            lo <= hi <= n,
            n == raw@.len(),
            forall|j: int| hi <= j < n ==> is_blank(raw@[j]),
        decreases hi,
    {
        hi = hi - 1;
    }
    proof {
        let p = |c: char| is_blank(c);
        lemma_drop_leading_skip(raw@, p, lo as int);
        let u = raw@.skip(lo as int);
        assert forall|j: int| hi - lo <= j < u.len() implies p(u[j]) by {
            assert(u[j] == raw@[j + lo]);
        }
        if hi - lo > 0 {
            assert(u[hi - lo - 1] == raw@[hi - 1]);
        }
        lemma_drop_trailing_take(u, p, hi - lo);
        assert(u.take(hi - lo) =~= raw@.subrange(lo as int, hi as int));
        assert(trimmed(raw@) == raw@.subrange(lo as int, hi as int));
    }
    let t = raw.substring_char(lo, hi);
    if hi > lo && t.get_char(0) == '/' {
        parent_dir_str(t)
    } else {
        let mut joined = cwd.to_owned();
        joined.append("/");
        joined.append(t);
        proof {
            reveal_strlit("/");
            assert("/"@ =~= seq!['/']);
            assert(joined@ == cwd@ + seq!['/'] + trimmed(raw@));
        }
        parent_dir_str(joined.as_str())
    }
}

} // verus!
