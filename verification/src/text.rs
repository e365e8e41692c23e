//! Small verified utilities over `&str`: character search, prefix and
//! suffix tests, and substring containment. Everything is specified over the
//! string's view, a `Seq<char>`.

use vstd::prelude::*;
use vstd::string::*;

verus! {

/// Index of the first occurrence of `c` in `s` at or after `from`;
/// `s.len()` when there is none.
pub open spec fn find_from(s: Seq<char>, from: int, c: char) -> int
    recommends
        0 <= from <= s.len(),
    decreases s.len() - from when 0 <= from <= s.len()
{
    if from >= s.len() {
        s.len() as int
    } else if s[from] == c {
        from
    } else {
        find_from(s, from + 1, c)
    }
}

/// Everything `find_from` guarantees about its result, in one place.
pub proof fn lemma_find_from(s: Seq<char>, from: int, c: char)
    requires
        0 <= from <= s.len(),
    ensures
        from <= find_from(s, from, c) <= s.len(),
        find_from(s, from, c) < s.len() ==> s[find_from(s, from, c)] == c,
        forall|i: int| from <= i < find_from(s, from, c) ==> s[i] != c,
    decreases s.len() - from,
{
    if from < s.len() && s[from] != c {
        lemma_find_from(s, from + 1, c);
    }
}

/// If nothing in `[from, j)` is `c` and `s[j]` is, the first occurrence is `j`.
pub proof fn lemma_find_from_exact(s: Seq<char>, from: int, j: int, c: char)
    requires
        0 <= from <= j < s.len(),
        s[j] == c,
        forall|i: int| from <= i < j ==> s[i] != c,
    ensures
        find_from(s, from, c) == j,
    decreases j - from,
{
    if from < j {
        lemma_find_from_exact(s, from + 1, j, c);
    }
}

/// First occurrence of `c` in `s` at or after the character index `from`,
/// or `None` when there is none.
pub fn str_find_char(s: &str, from: usize, c: char) -> (r: Option<usize>)
    requires
        from <= s@.len(),
    ensures
        match r {
            Some(j) => j == find_from(s@, from as int, c) && j < s@.len(),
            None => find_from(s@, from as int, c) == s@.len(),
        },
{
    let n = s.unicode_len();
    let mut i: usize = from;
    while i < n
        invariant
            from <= i <= n,
            n == s@.len(),
            find_from(s@, from as int, c) == find_from(s@, i as int, c),
        decreases n - i,
    {
        if s.get_char(i) == c {
            return Some(i);
        }
        i = i + 1;
    }
    None
}

/// Whether `pat` occurs in `s` starting at character index `at`.
pub open spec fn matches_at(s: Seq<char>, at: int, pat: Seq<char>) -> bool {
    0 <= at && at + pat.len() <= s.len() && s.subrange(at, at + pat.len()) == pat
}

/// Checks whether `pat` occurs in `s` at character index `at`.
pub fn str_matches_at(s: &str, at: usize, pat: &str) -> (r: bool)
    requires
        at <= s@.len(),
    ensures
        r == matches_at(s@, at as int, pat@),
{
    let n = s.unicode_len();
    let m = pat.unicode_len();
    if m > n - at {
        return false;
    }
    let mut i: usize = 0;
    while i < m
        invariant
            0 <= i <= m,
            at + m <= n,
            n == s@.len(),
            m == pat@.len(),
            forall|k: int| 0 <= k < i ==> s@[at + k] == pat@[k],
        decreases m - i,
    {
        if s.get_char(at + i) != pat.get_char(i) {
            proof {
                assert(s@.subrange(at as int, at + pat@.len())[i as int] != pat@[i as int]);
            }
            return false;
        }
        i = i + 1;
    }
    proof {
        assert(s@.subrange(at as int, at + pat@.len()) =~= pat@);
    }
    true
}

/// Whether `s` begins with `pat`.
pub open spec fn starts_with(s: Seq<char>, pat: Seq<char>) -> bool {
    matches_at(s, 0, pat)
}

/// Checks whether `s` begins with `pat`.
pub fn str_starts_with(s: &str, pat: &str) -> (r: bool)
    ensures
        r == starts_with(s@, pat@),
{
    str_matches_at(s, 0, pat)
}

/// Whether `sub` occurs anywhere in `s`.
pub open spec fn contains_seq(s: Seq<char>, sub: Seq<char>) -> bool {
    exists|k: int| matches_at(s, k, sub)
}

/// Checks whether `sub` occurs anywhere in `s`.
pub fn str_contains(s: &str, sub: &str) -> (r: bool)
    ensures
        r == contains_seq(s@, sub@),
{
    let n = s.unicode_len();
    let m = sub.unicode_len();
    if m > n {
        return false;
    }
    if m == 0 {
        proof {
            assert(matches_at(s@, 0, sub@)) by {
                assert(s@.subrange(0, 0) =~= sub@);
            }
        }
        return true;
    }
    let mut k: usize = 0;
    while k <= n - m
        invariant
            0 <= k <= n - m + 1,
            1 <= m <= n,
            n == s@.len(),
            m == sub@.len(),
            forall|j: int| 0 <= j < k ==> !matches_at(s@, j, sub@),
        decreases n - m + 1 - k,
    {
        if str_matches_at(s, k, sub) {
            return true;
        }
        k = k + 1;
    }
    proof {
        assert(forall|j: int| matches_at(s@, j, sub@) ==> 0 <= j <= n - m);
    }
    false
}

/// Two strings have the same characters.
pub fn str_eq(a: &str, b: &str) -> (r: bool)
    ensures
        r == (a@ == b@),
{
    let n = a.unicode_len();
    if n != b.unicode_len() {
        return false;
    }
    let mut i: usize = 0;
    while i < n
        invariant
            0 <= i <= n,
            n == a@.len() == b@.len(),
            forall|k: int| 0 <= k < i ==> a@[k] == b@[k],
        decreases n - i,
    {
        if a.get_char(i) != b.get_char(i) {
            return false;
        }
        i = i + 1;
    }
    proof {
        assert(a@ =~= b@);
    }
    true
}

} // verus!
