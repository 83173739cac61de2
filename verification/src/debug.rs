//! Diagnostics over the raw status files: per file, the parsed fields, the
//! applicable threshold, the record's age and whether it counts as stale,
//! newest first.

use vstd::prelude::*;
use vstd::seq_lib::group_to_multiset_ensures;
use crate::session::StatusFileInfo;
use crate::staleness::{get_stale_threshold_for_state, spec_state_threshold};
use crate::store::{as_opt_str, status_json_of, view_opt_string};

verus! {

/// An integer clamped into the signed 64-bit range.
pub open spec fn spec_clamp_i64(x: int) -> int {
    if x > i64::MAX as int {
        i64::MAX as int
    } else if x < i64::MIN as int {
        i64::MIN as int
    } else {
        x
    }
}

/// The diagnostic line for one status file at time `now`: its parsed
/// fields, the state- and tool-aware threshold, the age (zero when the
/// timestamp is unset), and whether that age exceeds the threshold.
pub open spec fn spec_debug_entry(filename: String, content: String, now: int) -> Option<
    StatusFileInfo,
> {
    match status_json_of(content@) {
        None => None,
        Some(f) => {
            let threshold = spec_state_threshold(f.state@, view_opt_string(f.last_tool));
            let age = if f.timestamp > 0 {
                spec_clamp_i64(now - f.timestamp)
            } else {
                0
            };
            Some(
                StatusFileInfo {
                    filename: filename,
                    project_path: f.project_path,
                    state: f.state,
                    last_tool: f.last_tool,
                    stale_threshold: threshold as i64,
                    timestamp: f.timestamp,
                    age_seconds: age as i64,
                    is_stale: age > threshold,
                },
            )
        },
    }
}

/// The contribution function over `(filename, content)` pairs.
pub open spec fn debug_fn(now: int) -> spec_fn((String, String)) -> Option<StatusFileInfo> {
    |p: (String, String)| spec_debug_entry(p.0, p.1, now)
}

/// Newest timestamp first.
pub open spec fn spec_infos_sorted_desc(s: Seq<StatusFileInfo>) -> bool {
    forall|i: int, j: int| 0 <= i < j < s.len() ==> s[i].timestamp >= s[j].timestamp
}

/// Subtract, clamped into the signed 64-bit range.
fn clamped_sub(a: i64, b: i64) -> (r: i64)
    ensures
        r as int == spec_clamp_i64(a as int - b as int),
{
    let wide: i128 = (a as i128) - (b as i128);
    if wide > i64::MAX as i128 {
        i64::MAX
    } else if wide < i64::MIN as i128 {
        i64::MIN
    } else {
        wide as i64
    }
}

/// The diagnostic line for one status file, or nothing when it does not
/// parse.
fn debug_entry(filename: String, content: String, now: i64) -> (r: Option<StatusFileInfo>)
    ensures
        r == spec_debug_entry(filename, content, now as int),
{
    match crate::store::parse_status_json(content.as_str()) {
        None => None,
        Some(f) => {
            let threshold = get_stale_threshold_for_state(
                f.state.as_str(),
                as_opt_str(&f.last_tool),
            );
            let age: i64 = if f.timestamp > 0 {
                clamped_sub(now, f.timestamp)
            } else {
                0
            };
            Some(
                StatusFileInfo {
                    filename,
                    project_path: f.project_path,
                    state: f.state,
                    last_tool: f.last_tool,
                    stale_threshold: threshold,
                    timestamp: f.timestamp,
                    age_seconds: age,
                    is_stale: age > threshold,
                },
            )
        },
    }
}

/// Sort diagnostic lines newest first, keeping exactly the given lines.
fn sort_infos_desc(v: Vec<StatusFileInfo>) -> (r: Vec<StatusFileInfo>)
    ensures
        r@.to_multiset() == v@.to_multiset(),
        spec_infos_sorted_desc(r@),
{
    broadcast use group_to_multiset_ensures;

    let ghost orig = v@;
    let mut src = v;
    let mut out: Vec<StatusFileInfo> = Vec::new();
    proof {
        assert(out@.to_multiset().add(src@.to_multiset()) =~= orig.to_multiset());
    }
    while src.len() > 0
        invariant
            out@.to_multiset().add(src@.to_multiset()) == orig.to_multiset(),
            spec_infos_sorted_desc(out@),
            forall|i: int, j: int|
                0 <= i < out@.len() && 0 <= j < src@.len() ==> out@[i].timestamp
                    >= src@[j].timestamp,
        decreases src@.len(),
    {
        let mut mi: usize = 0;
        let mut k: usize = 1;
        while k < src.len()
            invariant
                src@.len() > 0,
                mi < k,
                k <= src@.len(),
                forall|j: int| 0 <= j < k ==> src@[mi as int].timestamp >= src@[j].timestamp,
            decreases src@.len() - k,
        {
            if src[k].timestamp > src[mi].timestamp {
                mi = k;
            }
            k += 1;
        }
        let ghost src_before = src@;
        let x = src.remove(mi);
        let ghost out_before = out@;
        out.push(x);
        proof {
            broadcast use vstd::multiset::group_multiset_axioms;

            assert(x == src_before[mi as int]);
            vstd::seq_lib::to_multiset_remove(src_before, mi as int);
            assert(src_before.contains(x));
            vstd::seq_lib::to_multiset_contains(src_before, x);
            vstd::seq_lib::to_multiset_build(out_before, x);
            assert(out@.to_multiset().add(src@.to_multiset()) =~= orig.to_multiset());
            assert forall|j: int| 0 <= j < src@.len() implies x.timestamp >= src@[j].timestamp by {
                if j < mi {
                    assert(src@[j] == src_before[j]);
                } else {
                    assert(src@[j] == src_before[j + 1]);
                }
            }
        }
    }
    out
}

/// The diagnostic lines for the status files, newest first.
pub fn get_debug_info(files: &Vec<(String, String)>, now: i64) -> (r: Vec<StatusFileInfo>)
    ensures
        r@.to_multiset() == files@.filter_map(debug_fn(now as int)).to_multiset(),
        spec_infos_sorted_desc(r@),
{
    let mut found: Vec<StatusFileInfo> = Vec::new();
    let mut i: usize = 0;
    proof {
        assert(files@.take(0) =~= Seq::<(String, String)>::empty());
        assert(files@.take(0).filter_map(debug_fn(now as int)) =~= Seq::<
            StatusFileInfo,
        >::empty());
    }
    while i < files.len()
        invariant
            i <= files@.len(),
            found@ == files@.take(i as int).filter_map(debug_fn(now as int)),
        decreases files@.len() - i,
    {
        proof {
            files@.lemma_filter_map_take_succ(debug_fn(now as int), i as int);
        }
        let filename = files[i].0.clone();
        let content = files[i].1.clone();
        match debug_entry(filename, content, now) {
            None => {},
            Some(info) => {
                found.push(info);
            },
        }
        proof {
            assert(found@ =~= files@.take(i + 1).filter_map(debug_fn(now as int)));
        }
        i += 1;
    }
    proof {
        assert(files@.take(files@.len() as int) =~= files@);
    }
    sort_infos_desc(found)
}

} // verus!
