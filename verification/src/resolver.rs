//! The status resolver: combine the store's records with the transcript
//! fallback into one view per queried project path.  The store is
//! authoritative: when at least one of its records matches the path, the
//! fallback is not consulted.  Surfaced records are ordered newest timestamp
//! first, and the view says whether any of them waits on the user.
//!
//! The caller reads the status directory and, only when no store record
//! matches, scans transcripts; both batches reach these functions as plain
//! vectors.

use vstd::prelude::*;
use vstd::seq_lib::group_to_multiset_ensures;
use crate::matcher::{normalize_path, paths_match, spec_normalize_path, spec_paths_match};
use crate::session::{spec_needs_input, needs_input, StatusRecord, WorktreeClaudeStatus};

verus! {

/// A record is surfaced for a query iff its normalized project path matches
/// the normalized query path.
pub open spec fn spec_record_matches(rec: StatusRecord, normalized_target: Seq<char>) -> bool {
    spec_paths_match(spec_normalize_path(rec.project_path@), normalized_target)
}

/// The match predicate for one normalized query path.
pub open spec fn match_fn(normalized_target: Seq<char>) -> spec_fn(StatusRecord) -> bool {
    |rec: StatusRecord| spec_record_matches(rec, normalized_target)
}

/// The store records matching a normalized query path, in store order.
pub open spec fn spec_matching(store: Seq<StatusRecord>, normalized_target: Seq<char>) -> Seq<
    StatusRecord,
> {
    store.filter(match_fn(normalized_target))
}

/// The records a query surfaces: the matching store records when there are
/// any, else the fallback records.
pub open spec fn spec_chosen(
    store: Seq<StatusRecord>,
    fallback: Seq<StatusRecord>,
    path: Seq<char>,
) -> Seq<StatusRecord> {
    let m = spec_matching(store, spec_normalize_path(path));
    if m.len() > 0 {
        m
    } else {
        fallback
    }
}

/// Some record of the sequence waits on the user.
pub open spec fn spec_has_pending(s: Seq<StatusRecord>) -> bool {
    exists|i: int| 0 <= i < s.len() && spec_needs_input(s[i].state)
}

/// Newest timestamp first.
pub open spec fn spec_sorted_desc(s: Seq<StatusRecord>) -> bool {
    forall|i: int, j: int| 0 <= i < j < s.len() ==> s[i].timestamp >= s[j].timestamp
}

/// What a correct view for one query looks like: the surfaced records are
/// exactly the chosen ones (as a multiset), ordered newest first, and the
/// pending flag says whether any chosen record waits on the user.
pub open spec fn spec_status_view_ok(
    r: WorktreeClaudeStatus,
    store: Seq<StatusRecord>,
    fallback: Seq<StatusRecord>,
    path: Seq<char>,
) -> bool {
    let chosen = spec_chosen(store, fallback, path);
    &&& r.active_sessions@.to_multiset() == chosen.to_multiset()
    &&& spec_sorted_desc(r.active_sessions@)
    &&& r.has_pending_input == spec_has_pending(chosen)
}

/// An element-for-element copy of a record vector.
pub fn clone_records(v: &Vec<StatusRecord>) -> (r: Vec<StatusRecord>)
    ensures
        r@ == v@,
{
    let mut out: Vec<StatusRecord> = Vec::new();
    let mut i: usize = 0;
    while i < v.len()
        invariant
            i <= v@.len(),
            out@ =~= v@.take(i as int),
        decreases v@.len() - i,
    {
        out.push(v[i].clone());
        i += 1;
    }
    proof {
        assert(v@.take(v@.len() as int) =~= v@);
    }
    out
}

/// Does any record of the vector wait on the user?
pub fn any_needs_input(v: &Vec<StatusRecord>) -> (r: bool)
    ensures
        r == spec_has_pending(v@),
{
    let mut i: usize = 0;
    while i < v.len()
        invariant
            i <= v@.len(),
            forall|j: int| 0 <= j < i ==> !spec_needs_input(v@[j].state),
        decreases v@.len() - i,
    {
        if needs_input(v[i].state) {
            return true;
        }
        i += 1;
    }
    false
}

/// Sort records newest timestamp first, keeping exactly the given records.
pub fn sort_records_desc(v: Vec<StatusRecord>) -> (r: Vec<StatusRecord>)
    ensures
        r@.to_multiset() == v@.to_multiset(),
        spec_sorted_desc(r@),
{
    broadcast use group_to_multiset_ensures;

    let ghost orig = v@;
    let mut src = v;
    let mut out: Vec<StatusRecord> = Vec::new();
    proof {
        assert(out@.to_multiset().add(src@.to_multiset()) =~= orig.to_multiset());
    }
    while src.len() > 0
        invariant
            out@.to_multiset().add(src@.to_multiset()) == orig.to_multiset(),
            spec_sorted_desc(out@),
            forall|i: int, j: int|
                0 <= i < out@.len() && 0 <= j < src@.len() ==> out@[i].timestamp
                    >= src@[j].timestamp,
        decreases src@.len(),
    {
        let mut mi: usize = 0;
        let mut k: usize = 1;
        while k < src.len()
            invariant
                src@.len() > 0,
                mi < k,
                k <= src@.len(),
                forall|j: int| 0 <= j < k ==> src@[mi as int].timestamp >= src@[j].timestamp,
            decreases src@.len() - k,
        {
            if src[k].timestamp > src[mi].timestamp {
                mi = k;
            }
            k += 1;
        }
        let ghost src_before = src@;
        let x = src.remove(mi);
        let ghost out_before = out@;
        out.push(x);
        proof {
            broadcast use vstd::multiset::group_multiset_axioms;

            assert(x == src_before[mi as int]);
            vstd::seq_lib::to_multiset_remove(src_before, mi as int);
            assert(src_before.contains(x));
            vstd::seq_lib::to_multiset_contains(src_before, x);
            vstd::seq_lib::to_multiset_build(out_before, x);
            assert(out@.to_multiset().add(src@.to_multiset()) =~= orig.to_multiset());
            assert forall|j: int| 0 <= j < src@.len() implies x.timestamp >= src@[j].timestamp by {
                if j < mi {
                    assert(src@[j] == src_before[j]);
                } else {
                    assert(src@[j] == src_before[j + 1]);
                }
            }
        }
    }
    out
}

/// The status of one worktree path: the matching store records when any
/// exist, else the given fallback records, newest first, with the pending
/// flag.  `worktree_path` and the records' paths are normalized before the
/// comparison.
pub fn get_claude_status(
    worktree_path: &str,
    store_records: &Vec<StatusRecord>,
    fallback: &Vec<StatusRecord>,
) -> (r: WorktreeClaudeStatus)
    ensures
        spec_status_view_ok(r, store_records@, fallback@, worktree_path@),
{
    let normalized = normalize_path(worktree_path);
    let ghost target = spec_normalize_path(worktree_path@);
    let mut matched: Vec<StatusRecord> = Vec::new();
    let mut i: usize = 0;
    proof {
        reveal(Seq::filter);
        assert(store_records@.take(0) =~= Seq::<StatusRecord>::empty());
    }
    while i < store_records.len()
        invariant
            i <= store_records@.len(),
            normalized@ == target,
            matched@ == store_records@.take(i as int).filter(match_fn(target)),
        decreases store_records@.len() - i,
    {
        let p = normalize_path(store_records[i].project_path.as_str());
        proof {
            reveal(Seq::filter);
            assert(store_records@.take(i + 1).drop_last() =~= store_records@.take(i as int));
            assert(store_records@.take(i + 1).last() == store_records@[i as int]);
        }
        if paths_match(p.as_str(), normalized.as_str()) {
            matched.push(store_records[i].clone());
        }
        i += 1;
    }
    proof {
        assert(store_records@.take(store_records@.len() as int) =~= store_records@);
    }
    let chosen: Vec<StatusRecord> = if matched.len() > 0 {
        matched
    } else {
        clone_records(fallback)
    };
    let has_pending_input = any_needs_input(&chosen);
    let active_sessions = sort_records_desc(chosen);
    WorktreeClaudeStatus { active_sessions, has_pending_input }
}

/// The status of every queried worktree path, against one shared batch of
/// store records and one fallback batch per path, keyed by the path as
/// queried.
pub fn get_all_claude_statuses(
    worktree_paths: &Vec<String>,
    store_records: &Vec<StatusRecord>,
    fallbacks: &Vec<Vec<StatusRecord>>,
) -> (r: Vec<(String, WorktreeClaudeStatus)>)
    requires
        fallbacks@.len() == worktree_paths@.len(),
    ensures
        r@.len() == worktree_paths@.len(),
        forall|i: int|
            0 <= i < r@.len() ==> (#[trigger] r@[i]).0 == worktree_paths@[i]
                && spec_status_view_ok(
                r@[i].1,
                store_records@,
                fallbacks@[i]@,
                worktree_paths@[i]@,
            ),
{
    let mut out: Vec<(String, WorktreeClaudeStatus)> = Vec::new();
    let mut i: usize = 0;
    while i < worktree_paths.len()
        invariant
            i <= worktree_paths@.len(),
            fallbacks@.len() == worktree_paths@.len(),
            out@.len() == i,
            forall|j: int|
                0 <= j < i ==> (#[trigger] out@[j]).0 == worktree_paths@[j]
                    && spec_status_view_ok(
                    out@[j].1,
                    store_records@,
                    fallbacks@[j]@,
                    worktree_paths@[j]@,
                ),
        decreases worktree_paths@.len() - i,
    {
        let path = worktree_paths[i].clone();
        let view = get_claude_status(path.as_str(), store_records, &fallbacks[i]);
        out.push((path, view));
        i += 1;
    }
    out
}

/// With no store records and no fallback records, a query surfaces nothing
/// and reports no pending input.
pub proof fn lemma_empty_sources_empty_view(r: WorktreeClaudeStatus, path: Seq<char>)
    requires
        spec_status_view_ok(r, Seq::empty(), Seq::empty(), path),
    ensures
        r.active_sessions@.len() == 0,
        !r.has_pending_input,
{
    broadcast use group_to_multiset_ensures;

    reveal(Seq::filter);
    let chosen = spec_chosen(Seq::empty(), Seq::empty(), path);
    assert(chosen.len() == 0);
    assert(r.active_sessions@.to_multiset().len() == chosen.to_multiset().len());
}

/// Two distinct store records bound to the same normalized project path
/// both appear among the surfaced records, which are ordered newest first.
pub proof fn lemma_matching_records_surface(
    r: WorktreeClaudeStatus,
    store: Seq<StatusRecord>,
    fallback: Seq<StatusRecord>,
    path: Seq<char>,
    i: int,
    j: int,
)
    requires
        spec_status_view_ok(r, store, fallback, path),
        0 <= i < store.len(),
        0 <= j < store.len(),
        i != j,
        store[i] != store[j],
        spec_record_matches(store[i], spec_normalize_path(path)),
        spec_record_matches(store[j], spec_normalize_path(path)),
    ensures
        r.active_sessions@.contains(store[i]),
        r.active_sessions@.contains(store[j]),
        spec_sorted_desc(r.active_sessions@),
{
    broadcast use group_to_multiset_ensures;

    let target = spec_normalize_path(path);
    let m = spec_matching(store, target);
    store.lemma_filter_contains(match_fn(target), i);
    store.lemma_filter_contains(match_fn(target), j);
    assert(m.contains(store[i]));
    assert(m.contains(store[j]));
    assert(m.len() > 0);
    let chosen = spec_chosen(store, fallback, path);
    assert(chosen == m);
    assert(chosen.to_multiset().count(store[i]) > 0);
    assert(chosen.to_multiset().count(store[j]) > 0);
    assert(r.active_sessions@.to_multiset().count(store[i]) > 0);
    assert(r.active_sessions@.to_multiset().count(store[j]) > 0);
}

} // verus!
