//! The path matcher: lexical normalization and exact comparison of project
//! paths.  Resolution of symlinks and relative segments is filesystem work
//! and happens outside this crate; what reaches these functions is the
//! resolved (or, on failure, the original) path text.

use vstd::prelude::*;
use crate::strutil::str_eq;

verus! {

/// The path with every trailing separator removed.
pub open spec fn spec_normalize_path(s: Seq<char>) -> Seq<char>
    decreases s.len(),
{
    if s.len() > 0 && s.last() == '/' {
        spec_normalize_path(s.drop_last())
    } else {
        s
    }
}

/// Two paths match iff both are nonempty and equal after normalization is
/// applied by the caller.  An empty path matches nothing, not even itself.
pub open spec fn spec_paths_match(a: Seq<char>, b: Seq<char>) -> bool {
    a.len() > 0 && b.len() > 0 && a == b
}

/// Normalize a path for comparison: strip trailing separators.
pub fn normalize_path(path: &str) -> (r: String)
    ensures
        r@ == spec_normalize_path(path@),
{
    let n = path.unicode_len();
    let mut k: usize = n;
    proof {
        assert(path@.subrange(0, n as int) =~= path@);
    }
    while k > 0 && path.get_char(k - 1) == '/'
        invariant
            k <= n,
            n == path@.len(),
            spec_normalize_path(path@) == spec_normalize_path(path@.subrange(0, k as int)),
        decreases k,
    {
        proof {
            let pre = path@.subrange(0, k as int);
            assert(pre.drop_last() =~= path@.subrange(0, k - 1));
        }
        k -= 1;
    }
    let kept = path.substring_char(0, k);
    kept.to_owned()
}

/// Exact comparison of two normalized paths; empty strings never match.
pub fn paths_match(path1: &str, path2: &str) -> (r: bool)
    ensures
        r == spec_paths_match(path1@, path2@),
{
    if path1.is_empty() || path2.is_empty() {
        return false;
    }
    str_eq(path1, path2)
}

} // verus!
