//! Character-level utilities shared by the parsing and formatting logic:
//! searching for a character, stripping a run of characters from either
//! end of a string, substring containment, and string equality.

use vstd::prelude::*;
use vstd::string::StrSliceExecFns;

verus! {

/// Index of the first occurrence of `c` in `s`, or `s.len()` when `c` is absent.
pub open spec fn char_find(s: Seq<char>, c: char) -> int
    decreases s.len(),
{
    if s.len() == 0 {
        0
    } else if s[0] == c {
        0
    } else {
        1 + char_find(s.drop_first(), c)
    }
}

/// Index of the last occurrence of `c` in `s`, or `-1` when `c` is absent.
pub open spec fn char_rfind(s: Seq<char>, c: char) -> int
    decreases s.len(),
{
    if s.len() == 0 {
        -1
    } else if s[s.len() - 1] == c {
        s.len() - 1
    } else {
        char_rfind(s.drop_last(), c)
    }
}

/// `char_find` points at the first occurrence: everything before it differs
/// from `c`, and it lands on `c` unless `c` is absent altogether.
pub proof fn lemma_char_find(s: Seq<char>, c: char)
    ensures
        0 <= char_find(s, c) <= s.len(),
        char_find(s, c) < s.len() ==> s[char_find(s, c)] == c,
        forall|j: int| 0 <= j < char_find(s, c) ==> s[j] != c,
    decreases s.len(),
{
    if s.len() > 0 && s[0] != c {
        lemma_char_find(s.drop_first(), c);
        let f = char_find(s, c);
        assert(f == 1 + char_find(s.drop_first(), c));
        assert forall|j: int| 0 <= j < f implies s[j] != c by {
            if j > 0 {
                assert(s.drop_first()[j - 1] == s[j]);
            }
        }
        if f < s.len() {
            assert(s.drop_first()[f - 1] == s[f]);
        }
    }
}

/// `char_rfind` points at the last occurrence: everything after it differs
/// from `c`, and it lands on `c` unless `c` is absent altogether.
pub proof fn lemma_char_rfind(s: Seq<char>, c: char)
    ensures
        -1 <= char_rfind(s, c) < s.len(),
        char_rfind(s, c) >= 0 ==> s[char_rfind(s, c)] == c,
        forall|j: int| char_rfind(s, c) < j < s.len() ==> s[j] != c,
    decreases s.len(),
{
    if s.len() > 0 && s[s.len() - 1] != c {
        lemma_char_rfind(s.drop_last(), c);
        let r = char_rfind(s, c);
        assert(r == char_rfind(s.drop_last(), c));
        if r >= 0 {
            assert(s.drop_last()[r] == s[r]);
        }
        assert forall|j: int| r < j < s.len() implies s[j] != c by {
            if j < s.len() - 1 {
                assert(s.drop_last()[j] == s[j]);
            }
        }
    }
}

/// First position of `c` in `s` at or after `from`, or `s@.len()` when there
/// is no such position.
pub fn find_char_from(s: &str, c: char, from: usize) -> (r: usize)
    requires
        from <= s@.len(),
    ensures
        from <= r <= s@.len(),
        forall|j: int| from <= j < r ==> s@[j] != c,
        r < s@.len() ==> s@[r as int] == c,
{
    let n: usize = s.unicode_len();
    let mut i: usize = from;
    while i < n
        invariant
            from <= i <= n,
            n == s@.len(),
            forall|j: int| from <= j < i ==> s@[j] != c,
        decreases n - i,
    {
        if s.get_char(i) == c {
            return i;
        }
        i = i + 1;
    }
    n
}

/// Last position of `c` in `s`, or `None` when `c` does not occur.
pub fn rfind_char(s: &str, c: char) -> (r: Option<usize>)
    ensures
        match r {
            Some(i) => i < s@.len() && s@[i as int] == c && (forall|j: int|
                i < j < s@.len() ==> s@[j] != c),
            None => forall|j: int| 0 <= j < s@.len() ==> s@[j] != c,
        },
{
    let n: usize = s.unicode_len();
    let mut i: usize = n;
    while i > 0
        invariant
            i <= n,
            n == s@.len(),
            forall|j: int| i <= j < n ==> s@[j] != c,
        decreases i,
    {
        i = i - 1;
        if s.get_char(i) == c {
            return Some(i);
        }
    }
    None
}

/// `s` with its longest prefix of characters satisfying `p` removed.
pub open spec fn drop_leading(s: Seq<char>, p: spec_fn(char) -> bool) -> Seq<char>
    decreases s.len(),
{
    if s.len() > 0 && p(s[0]) {
        drop_leading(s.drop_first(), p)
    } else {
        s
    }
}

/// `s` with its longest suffix of characters satisfying `p` removed.
pub open spec fn drop_trailing(s: Seq<char>, p: spec_fn(char) -> bool) -> Seq<char>
    decreases s.len(),
{
    if s.len() > 0 && p(s[s.len() - 1]) {
        drop_trailing(s.drop_last(), p)
    } else {
        s
    }
}

/// When the first `k` characters satisfy `p` and the one after them (if any)
/// does not, dropping the leading run is the same as skipping `k` characters.
pub proof fn lemma_drop_leading_skip(s: Seq<char>, p: spec_fn(char) -> bool, k: int)
    requires
        0 <= k <= s.len(),
        forall|j: int| 0 <= j < k ==> p(s[j]),
        k < s.len() ==> !p(s[k]),
    ensures
        drop_leading(s, p) == s.skip(k),
    decreases k,
{
    if k == 0 {
        assert(s.skip(0) =~= s);
    } else {
        assert(p(s[0]));
        let t = s.drop_first();
        assert forall|j: int| 0 <= j < k - 1 implies p(t[j]) by {
            assert(t[j] == s[j + 1]);
        }
        if k - 1 < t.len() {
            assert(t[k - 1] == s[k]);
        }
        lemma_drop_leading_skip(t, p, k - 1);
        assert(t.skip(k - 1) =~= s.skip(k));
    }
}

/// When the last `s.len() - k` characters satisfy `p` and the one before them
/// (if any) does not, dropping the trailing run is the same as keeping the
/// first `k` characters.
pub proof fn lemma_drop_trailing_take(s: Seq<char>, p: spec_fn(char) -> bool, k: int)
    requires
        0 <= k <= s.len(),
        forall|j: int| k <= j < s.len() ==> p(s[j]),
        k > 0 ==> !p(s[k - 1]),
    ensures
        drop_trailing(s, p) == s.take(k),
    decreases s.len() - k,
{
    if k == s.len() {
        assert(s.take(k) =~= s);
    } else {
        assert(p(s[s.len() - 1]));
        let t = s.drop_last();
        assert forall|j: int| k <= j < t.len() implies p(t[j]) by {
            assert(t[j] == s[j]);
        }
        if k > 0 {
            assert(t[k - 1] == s[k - 1]);
        }
        lemma_drop_trailing_take(t, p, k);
        assert(t.take(k) =~= s.take(k));
    }
}

/// `needle` occurs somewhere inside `hay`.
pub open spec fn has_substring(hay: Seq<char>, needle: Seq<char>) -> bool {
    exists|k: int|
        0 <= k && k + needle.len() <= hay.len() && #[trigger] hay.subrange(k, k + needle.len())
            == needle
}

/// Substring search: reports whether `needle` occurs inside `hay`.
pub fn contains_str(hay: &str, needle: &str) -> (found: bool)
    ensures
        found == has_substring(hay@, needle@),
{
    let hn: usize = hay.unicode_len();
    let nn: usize = needle.unicode_len();
    if nn > hn {
        return false;
    }
    if nn == 0 {
        proof {
            let zero: int = 0;
            assert(hay@.subrange(zero, zero + needle@.len()) =~= needle@);
        }
        return true;
    }
    let mut k: usize = 0;
    while k <= hn - nn
        invariant
            hn == hay@.len(),
            nn == needle@.len(),
            0 < nn <= hn,
            k <= hn - nn + 1,
            forall|k0: int| 0 <= k0 < k ==> #[trigger] hay@.subrange(k0, k0 + nn) != needle@,
        decreases hn - nn - k + 1,
    {
        if range_matches(hay, k, needle) {
            return true;
        }
        k = k + 1;
    }
    proof {
        assert forall|k0: int|
            0 <= k0 && k0 + needle@.len() <= hay@.len() implies #[trigger] hay@.subrange(
            k0,
            k0 + needle@.len(),
        ) != needle@ by {
            assert(k0 < k);
        }
    }
    false
}

/// Whether `needle` occurs in `hay` starting exactly at position `k`.
fn range_matches(hay: &str, k: usize, needle: &str) -> (found: bool)
    requires
        k + needle@.len() <= hay@.len(),
    ensures
        found == (hay@.subrange(k as int, k + needle@.len()) == needle@),
{
    let hn: usize = hay.unicode_len();
    let nn: usize = needle.unicode_len();
    let mut m: usize = 0;
    while m < nn
        invariant
            hn == hay@.len(),
            nn == needle@.len(),
            k + nn <= hn,
            m <= nn,
            forall|j: int| 0 <= j < m ==> hay@[k + j] == needle@[j],
        decreases nn - m,
    {
        if hay.get_char(k + m) != needle.get_char(m) {
            proof {
                assert(hay@.subrange(k as int, k + nn)[m as int] == hay@[k + m]);
            }
            return false;
        }
        m = m + 1;
    }
    proof {
        assert(hay@.subrange(k as int, k + nn) =~= needle@);
    }
    true
}

/// Character-for-character string equality.
pub fn str_equal(a: &str, b: &str) -> (eq: bool)
    ensures
        eq == (a@ == b@),
{
    let na: usize = a.unicode_len();
    let nb: usize = b.unicode_len();
    if na != nb {
        return false;
    }
    let mut i: usize = 0;
    while i < na
        invariant
            i <= na,
            na == a@.len(),
            na == b@.len(),
            forall|j: int| 0 <= j < i ==> a@[j] == b@[j],
        decreases na - i,
    {
        if a.get_char(i) != b.get_char(i) {
            return false;
        }
        i = i + 1;
    }
    proof {
        assert(a@ =~= b@);
    }
    true
}

} // verus!
