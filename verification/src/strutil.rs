//! Verified helpers over strings: equality, substring search, and
//! prefix/suffix tests, all specified against the `Seq<char>` view.

use vstd::prelude::*;

verus! {

/// The characters of `sub` occur in `s` starting at position `i`.
pub open spec fn is_substring_at(s: Seq<char>, sub: Seq<char>, i: int) -> bool {
    0 <= i && i + sub.len() <= s.len() && s.subrange(i, i + sub.len() as int) == sub
}

/// `sub` occurs somewhere in `s`.
pub open spec fn has_substring(s: Seq<char>, sub: Seq<char>) -> bool {
    exists|i: int| is_substring_at(s, sub, i)
}

/// Character-for-character equality of two string slices.
pub fn str_eq(a: &str, b: &str) -> (r: bool)
    ensures
        r == (a@ == b@),
{
    let alen = a.unicode_len();
    let blen = b.unicode_len();
    if alen != blen {
        return false;
    }
    let mut i: usize = 0;
    while i < alen
        invariant
            alen == a@.len(),
            alen == b@.len(),
            i <= alen,
            forall|j: int| 0 <= j < i ==> a@[j] == b@[j],
        decreases alen - i,
    {
        if a.get_char(i) != b.get_char(i) {
            return false;
        }
        i += 1;
    }
    proof {
        assert(a@ =~= b@);
    }
    true
}

/// Substring search: does `sub` occur anywhere in `s`?
pub fn contains_str(s: &str, sub: &str) -> (r: bool)
    ensures
        r == has_substring(s@, sub@),
{
    let n = s.unicode_len();
    let m = sub.unicode_len();
    if m > n {
        return false;
    }
    let mut i: usize = 0;
    while i <= n - m
        invariant
            n == s@.len(),
            m == sub@.len(),
            m <= n,
            i <= n - m + 1,
            forall|k: int| 0 <= k < i ==> !is_substring_at(s@, sub@, k),
        decreases n - m + 1 - i,
    {
        let mut j: usize = 0;
        let mut all_match = true;
        while j < m
            invariant
                n == s@.len(),
                m == sub@.len(),
                i + m <= n,
                j <= m,
                all_match <==> (forall|l: int| 0 <= l < j ==> s@[i + l] == sub@[l]),
            decreases m - j,
        {
            if s.get_char(i + j) != sub.get_char(j) {
                all_match = false;
                j = m;
            } else {
                j += 1;
            }
        }
        if all_match {
            proof {
                assert(s@.subrange(i as int, i + sub@.len() as int) =~= sub@);
                assert(is_substring_at(s@, sub@, i as int));
            }
            return true;
        }
        proof {
            let l0 = choose|l: int| 0 <= l < m && s@[i + l] != sub@[l];
            assert(s@.subrange(i as int, i + sub@.len() as int)[l0] == s@[i + l0]);
        }
        i += 1;
    }
    proof {
        assert forall|k: int| !is_substring_at(s@, sub@, k) by {
            if 0 <= k <= n - m {
                assert(!is_substring_at(s@, sub@, k));
            }
        }
    }
    false
}

/// Prefix test specified over views.
pub open spec fn has_prefix(s: Seq<char>, pre: Seq<char>) -> bool {
    pre.len() <= s.len() && s.subrange(0, pre.len() as int) == pre
}

/// Suffix test specified over views.
pub open spec fn has_suffix(s: Seq<char>, suf: Seq<char>) -> bool {
    suf.len() <= s.len() && s.subrange(s.len() - suf.len(), s.len() as int) == suf
}

/// Does `s` start with `pre`?
pub fn starts_with_str(s: &str, pre: &str) -> (r: bool)
    ensures
        r == has_prefix(s@, pre@),
{
    let n = s.unicode_len();
    let m = pre.unicode_len();
    if m > n {
        return false;
    }
    let mut j: usize = 0;
    while j < m
        invariant
            n == s@.len(),
            m == pre@.len(),
            m <= n,
            j <= m,
            forall|l: int| 0 <= l < j ==> s@[l] == pre@[l],
        decreases m - j,
    {
        if s.get_char(j) != pre.get_char(j) {
            return false;
        }
        j += 1;
    }
    proof {
        assert(s@.subrange(0, pre@.len() as int) =~= pre@);
    }
    true
}

/// Does `s` end with `suf`?
pub fn ends_with_str(s: &str, suf: &str) -> (r: bool)
    ensures
        r == has_suffix(s@, suf@),
{
    let n = s.unicode_len();
    let m = suf.unicode_len();
    if m > n {
        return false;
    }
    let off: usize = n - m;
    let mut j: usize = 0;
    while j < m
        invariant
            n == s@.len(),
            m == suf@.len(),
            m <= n,
            off == n - m,
            j <= m,
            forall|l: int| 0 <= l < j ==> s@[off + l] == suf@[l],
        decreases m - j,
    {
        if s.get_char(off + j) != suf.get_char(j) {
            return false;
        }
        j += 1;
    }
    proof {
        assert(s@.subrange(s@.len() - suf@.len(), s@.len() as int) =~= suf@);
    }
    true
}

} // verus!
