//! The worktree-listing parser.
//!
//! The external tool reports one worktree per line: the working directory
//! path comes first, the checked-out branch stands last, wrapped in square
//! brackets. A worktree without a named branch (detached or bare) is marked
//! with a parenthesized annotation instead and is never turned into a
//! record.

use vstd::prelude::*;
use vstd::string::StrSliceExecFns;
use crate::text::{
    char_find,
    char_rfind,
    drop_leading,
    drop_trailing,
    find_char_from,
    lemma_char_find,
    lemma_char_rfind,
    lemma_drop_leading_skip,
    lemma_drop_trailing_take,
    rfind_char,
};

verus! {

/// One worktree record: the working directory and the branch checked out
/// there. Only named-branch checkouts become records.
#[derive(Debug)]
pub struct Worktree {
    pub path: String,
    pub branch: String,
}

/// Mathematical image of a record: both fields as character sequences.
pub struct WorktreeView {
    pub path: Seq<char>,
    pub branch: Seq<char>,
}

impl View for Worktree {
    type V = WorktreeView;

    open spec fn view(&self) -> WorktreeView {
        WorktreeView { path: self.path@, branch: self.branch@ }
    }
}

/// The views of a sequence of records.
pub open spec fn views_of(ws: Seq<Worktree>) -> Seq<WorktreeView> {
    ws.map_values(|w: Worktree| w@)
}

/// The line's first space-delimited token: the worktree path.
pub open spec fn head_token(line: Seq<char>) -> Seq<char> {
    line.take(char_find(line, ' '))
}

/// The line's last space-delimited token: the branch candidate.
pub open spec fn tail_token(line: Seq<char>) -> Seq<char> {
    line.skip(char_rfind(line, ' ') + 1)
}

/// The token with its surrounding square brackets removed.
pub open spec fn stripped_branch(token: Seq<char>) -> Seq<char> {
    drop_trailing(drop_leading(token, |c: char| c == '['), |c: char| c == ']')
}

/// Whether the raw last token is the parenthesis marker of a detached or
/// bare checkout. A bracket-wrapped token is always a branch name, whatever
/// characters it contains (`[feat(api)]` names the branch `feat(api)`); an
/// unbracketed token with a parenthesis at either edge belongs to the
/// marker, which may itself contain spaces (`(detached HEAD)` puts `HEAD)`
/// last, `(bare)` stands alone).
pub open spec fn paren_marked(token: Seq<char>) -> bool {
    token.len() > 0 && token[0] != '[' && (token[0] == '(' || token[token.len() - 1] == ')')
}

/// Whether the cleaned branch candidate is itself wrapped in literal
/// parentheses: such a candidate names no branch and the record is
/// discarded.
pub open spec fn paren_wrapped(branch: Seq<char>) -> bool {
    branch.len() > 0 && branch[0] == '(' && branch[branch.len() - 1] == ')'
}

/// Whether the line's last token disqualifies it: the bracket-stripped
/// branch candidate is empty or wrapped in parentheses, or the raw token
/// is the parenthesis marker.
pub open spec fn branch_disqualified(token: Seq<char>) -> bool {
    stripped_branch(token).len() == 0 || paren_marked(token) || paren_wrapped(
        stripped_branch(token),
    )
}

/// The record a single listing line describes, if any.
pub open spec fn parse_line(line: Seq<char>) -> Option<WorktreeView> {
    if line.len() == 0 {
        None
    } else {
        let token = tail_token(line);
        if branch_disqualified(token) {
            None
        } else {
            Some(WorktreeView { path: head_token(line), branch: stripped_branch(token) })
        }
    }
}

/// Zero or one records, as a sequence, for one line.
pub open spec fn line_records(line: Seq<char>) -> Seq<WorktreeView> {
    match parse_line(line) {
        Some(w) => seq![w],
        None => Seq::empty(),
    }
}

/// All records of a whole listing, line by line, in the listing's own order.
pub open spec fn parse_listing(text: Seq<char>) -> Seq<WorktreeView>
    decreases text.len(),
    via parse_listing_decreases
{
    if text.len() == 0 {
        Seq::empty()
    } else {
        let i = char_find(text, '\n');
        let first = line_records(text.take(i));
        if i == text.len() {
            first
        } else {
            first + parse_listing(text.skip(i + 1))
        }
    }
}

#[via_fn]
proof fn parse_listing_decreases(text: Seq<char>) {
    lemma_char_find(text, '\n');
}

/// The listing split at newlines, without the newline characters.
pub open spec fn lines_of(text: Seq<char>) -> Seq<Seq<char>>
    decreases text.len(),
    via lines_of_decreases
{
    if text.len() == 0 {
        Seq::empty()
    } else {
        let i = char_find(text, '\n');
        if i == text.len() {
            seq![text.take(i)]
        } else {
            seq![text.take(i)] + lines_of(text.skip(i + 1))
        }
    }
}

#[via_fn]
proof fn lines_of_decreases(text: Seq<char>) {
    lemma_char_find(text, '\n');
}

/// The records of a sequence of lines, concatenated in order.
pub open spec fn parse_lines(ls: Seq<Seq<char>>) -> Seq<WorktreeView>
    decreases ls.len(),
{
    if ls.len() == 0 {
        Seq::empty()
    } else {
        line_records(ls[0]) + parse_lines(ls.drop_first())
    }
}

/// A line yields a record exactly when its bracket-stripped last token is
/// non-empty and not wrapped in parentheses, and the raw token is not the
/// parenthesis marker; the record then carries the line's first token as
/// path and the stripped last token as branch.
pub proof fn lemma_line_classification(line: Seq<char>)
    ensures
        parse_line(line) is None <==> (line.len() == 0 || branch_disqualified(tail_token(line))),
        parse_line(line) is Some ==> parse_line(line) == Some(
            WorktreeView {
                path: head_token(line),
                branch: stripped_branch(tail_token(line)),
            },
        ),
{
}

/// Parsing a listing is parsing its lines one by one: every line yields its
/// own records, in listing order, and no other record appears.
pub proof fn lemma_parse_listing_linewise(text: Seq<char>)
    ensures
        parse_listing(text) == parse_lines(lines_of(text)),
    decreases text.len(),
{
    if text.len() == 0 {
        assert(lines_of(text) == Seq::<Seq<char>>::empty());
        assert(parse_lines(lines_of(text)) == Seq::<WorktreeView>::empty());
    } else {
        lemma_char_find(text, '\n');
        let i = char_find(text, '\n');
        if i == text.len() {
            let ls = seq![text.take(i)];
            assert(lines_of(text) == ls);
            assert(ls.drop_first() =~= Seq::<Seq<char>>::empty());
            assert(ls[0] == text.take(i));
            assert(parse_lines(ls) == line_records(text.take(i)) + parse_lines(
                Seq::<Seq<char>>::empty(),
            ));
            assert(line_records(text.take(i)) + Seq::<WorktreeView>::empty() =~= line_records(
                text.take(i),
            ));
        } else {
            lemma_parse_listing_linewise(text.skip(i + 1));
            let ls = seq![text.take(i)] + lines_of(text.skip(i + 1));
            assert(lines_of(text) == ls);
            assert(ls[0] == text.take(i));
            assert(ls.drop_first() =~= lines_of(text.skip(i + 1)));
            assert(parse_lines(ls) == line_records(text.take(i)) + parse_lines(
                lines_of(text.skip(i + 1)),
            ));
        }
    }
}

/// Parses one listing line.
pub fn parse_line_str(line: &str) -> (r: Option<Worktree>)
    ensures
        match r {
            Some(w) => parse_line(line@) == Some(w@),
            None => parse_line(line@) is None,
        },
{
    let n: usize = line.unicode_len();
    if n == 0 {
        return None;
    }
    let fs: usize = find_char_from(line, ' ', 0);
    proof {
        lemma_char_find(line@, ' ');
        let cf = char_find(line@, ' ');
        if cf < fs {
            assert(line@[cf] != ' ');
        }
        if fs < cf {
            assert(line@[fs as int] != ' ');
        }
        assert(fs as int == cf);
        assert(line@.subrange(0, fs as int) =~= head_token(line@));
    }
    let path_slice = line.substring_char(0, fs);
    let tok_start: usize = match rfind_char(line, ' ') {
        Some(i) => i + 1,
        None => 0,
    };
    proof {
        lemma_char_rfind(line@, ' ');
        let cr = char_rfind(line@, ' ');
        if cr + 1 < tok_start {
            assert(line@[tok_start - 1] == ' ');
        }
        if tok_start < cr + 1 {
            assert(line@[cr] == ' ');
        }
        assert(tok_start as int == cr + 1);
        assert(line@.subrange(tok_start as int, line@.len() as int) =~= tail_token(line@));
    }
    let token = line.substring_char(tok_start, n);
    let tn: usize = token.unicode_len();
    let mut lo: usize = 0;
    while lo < tn && token.get_char(lo) == '['
        invariant
            lo <= tn,
            tn == token@.len(),
            forall|j: int| 0 <= j < lo ==> token@[j] == '[',
        decreases tn - lo,
    {
        lo = lo + 1;
    }
    let mut hi: usize = tn;
    while hi > lo && token.get_char(hi - 1) == ']'
        invariant
            lo <= hi <= tn,
            tn == token@.len(),
            forall|j: int| hi <= j < tn ==> token@[j] == ']',
        decreases hi,
    {
        hi = hi - 1;
    }
    proof {
        let p_open = |c: char| c == '[';
        let p_close = |c: char| c == ']';
        lemma_drop_leading_skip(token@, p_open, lo as int);
        let u = token@.skip(lo as int);
        assert forall|j: int| hi - lo <= j < u.len() implies p_close(u[j]) by {
            assert(u[j] == token@[j + lo]);
        }
        if hi - lo > 0 {
            assert(u[hi - lo - 1] == token@[hi - 1]);
        }
        lemma_drop_trailing_take(u, p_close, hi - lo);
        assert(u.take(hi - lo) =~= token@.subrange(lo as int, hi as int));
        assert(stripped_branch(token@) == token@.subrange(lo as int, hi as int));
    }
    let cleaned = token.substring_char(lo, hi);
    if hi == lo {
        return None;
    }
    if token.get_char(0) != '[' && (token.get_char(0) == '(' || token.get_char(tn - 1) == ')') {
        return None;
    }
    if cleaned.get_char(0) == '(' && cleaned.get_char(hi - lo - 1) == ')' {
        return None;
    }
    Some(Worktree { path: path_slice.to_owned(), branch: cleaned.to_owned() })
}

/// Parses the external tool's whole worktree listing into records, keeping
/// the listing's own order.
pub fn parse_worktrees(text: &str) -> (worktrees: Vec<Worktree>)
    ensures
        views_of(worktrees@) == parse_listing(text@),
{
    let n: usize = text.unicode_len();
    let mut out: Vec<Worktree> = Vec::new();
    let mut pos: usize = 0;
    proof {
        assert(text@.skip(0) =~= text@);
        assert(views_of(out@) =~= Seq::<WorktreeView>::empty());
        assert(views_of(out@) + parse_listing(text@.skip(0)) =~= parse_listing(text@));
    }
    while pos < n
        invariant
            pos <= n,
            n == text@.len(),
            views_of(out@) + parse_listing(text@.skip(pos as int)) == parse_listing(text@),
        decreases n - pos,
    {
        let j: usize = find_char_from(text, '\n', pos);
        let line = text.substring_char(pos, j);
        let ghost rest = text@.skip(pos as int);
        proof {
            lemma_char_find(rest, '\n');
            let cf = char_find(rest, '\n');
            assert forall|k: int| 0 <= k < rest.len() implies rest[k] == text@[pos + k] by {}
            if cf < j - pos {
                assert(rest[cf] == '\n');
                assert(text@[pos + cf] != '\n');
            }
            if j - pos < cf {
                assert(rest[j - pos] != '\n');
                assert(text@[j as int] == '\n');
            }
            assert(cf == j - pos);
            assert(rest.take(cf) =~= text@.subrange(pos as int, j as int));
            assert(line@ == rest.take(cf));
        }
        let rec = parse_line_str(line);
        let ghost old_out = out@;
        match rec {
            Some(w) => {
                let ghost wv = w@;
                out.push(w);
                proof {
                    assert(views_of(out@) =~= views_of(old_out).push(wv));
                    assert(views_of(out@) =~= views_of(old_out) + line_records(line@));
                }
            },
            None => {
                proof {
                    assert(views_of(out@) =~= views_of(old_out) + line_records(line@));
                }
            },
        }
        if j == n {
            pos = n;
            proof {
                assert(parse_listing(rest) == line_records(line@));
                assert(text@.skip(pos as int) =~= Seq::<char>::empty());
                assert(views_of(out@) + parse_listing(text@.skip(pos as int)) =~= views_of(out@));
                assert(views_of(out@) =~= views_of(old_out) + parse_listing(rest));
            }
        } else {
            let ghost pos0 = pos as int;
            pos = j + 1;
            proof {
                assert(rest.skip(j - pos0 + 1) =~= text@.skip(pos as int));
                assert(parse_listing(rest) == line_records(line@) + parse_listing(
                    text@.skip(pos as int),
                ));
                assert(views_of(out@) + parse_listing(text@.skip(pos as int)) =~= views_of(old_out)
                    + parse_listing(rest));
            }
        }
    }
    proof {
        assert(text@.skip(pos as int) =~= Seq::<char>::empty());
        assert(views_of(out@) + parse_listing(text@.skip(pos as int)) =~= views_of(out@));
    }
    out
}

} // verus!
