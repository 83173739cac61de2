//! The status file store's logic: parsing one hook-written JSON status file
//! and deciding, per file, whether its record is surfaced, evicted as stale
//! (the backing file is then deleted by the caller), or skipped as
//! malformed.  Reading the directory itself is I/O and happens outside this
//! crate; the functions here receive each file's stem and text.

use vstd::prelude::*;
use crate::session::{StatusRecord, spec_state_of_name, state_from_name};
use crate::staleness::{
    get_stale_threshold_for_state, is_stale, spec_is_stale, spec_state_threshold, view_opt_str,
};
use crate::strutil::{ends_with_str, has_suffix, str_eq};

verus! {

/// The fields a hook writes into one status file.
///
/// A missing or non-integer `timestamp` reads as zero; the optional fields
/// read as absent when missing or not strings.
pub struct StatusFile {
    pub project_path: String,
    pub state: String,
    pub waiting_reason: Option<String>,
    pub timestamp: i64,
    pub last_tool: Option<String>,
}

/// What JSON parsing extracts from one status file's text: `None` when the
/// text is not a JSON object carrying the two required string fields.
pub uninterp spec fn status_json_of(s: Seq<char>) -> Option<StatusFile>;

/// Relies on `serde_json::from_str` and the `serde_json::Value` accessors to
/// read one status file: an object with required string fields
/// `project_path` and `state`, optional string fields `waiting_reason` and
/// `last_tool`, and an integer `timestamp` defaulting to zero.  The result
/// depends on the text alone.
#[verifier::external_body]
pub(crate) fn parse_status_json(content: &str) -> (r: Option<StatusFile>)
    ensures
        r == status_json_of(content@),
{
    let v: serde_json::Value = match serde_json::from_str(content) {
        Ok(x) => x,
        Err(_) => return None,
    };
    Some(StatusFile {
        project_path: v.get("project_path")?.as_str()?.to_string(),
        state: v.get("state")?.as_str()?.to_string(),
        waiting_reason: v.get("waiting_reason").and_then(|x| x.as_str()).map(|s| s.to_string()),
        timestamp: v.get("timestamp").and_then(|x| x.as_i64()).unwrap_or(0),
        last_tool: v.get("last_tool").and_then(|x| x.as_str()).map(|s| s.to_string()),
    })
}

/// The view of an optional string.
pub open spec fn view_opt_string(s: Option<String>) -> Option<Seq<char>> {
    match s {
        None => None,
        Some(t) => Some(t@),
    }
}

/// Borrow an optional string as an optional slice.
pub fn as_opt_str(s: &Option<String>) -> (r: Option<&str>)
    ensures
        view_opt_str(r) == view_opt_string(*s),
{
    match s {
        None => None,
        Some(v) => Some(v.as_str()),
    }
}

/// The store's decision about one status file.
pub enum StatusReadOutcome {
    /// The record is fresh and surfaced.
    Keep(StatusRecord),
    /// The record is stale; the file (named by its stem) is to be deleted.
    Evict(String),
    /// The file is malformed (or carries an empty project path) and ignored.
    Skip,
}

/// The decision the store takes for a file with the given stem and text at
/// time `now`: skip what does not parse or has an empty project path, evict
/// what is stale under the state- and tool-aware threshold, and otherwise
/// keep the record, keyed by the file stem.
pub open spec fn spec_read_outcome(stem: String, content: String, now: int) -> StatusReadOutcome {
    match status_json_of(content@) {
        None => StatusReadOutcome::Skip,
        Some(f) => if f.project_path@.len() == 0 {
            StatusReadOutcome::Skip
        } else if spec_is_stale(
            now,
            f.timestamp as int,
            spec_state_threshold(f.state@, view_opt_string(f.last_tool)),
        ) {
            StatusReadOutcome::Evict(stem)
        } else {
            StatusReadOutcome::Keep(
                StatusRecord {
                    session_id: stem,
                    project_path: f.project_path,
                    state: spec_state_of_name(f.state@),
                    waiting_reason: f.waiting_reason,
                    timestamp: f.timestamp,
                    last_tool: f.last_tool,
                },
            )
        },
    }
}

/// Decide what to do with one status file.
pub fn read_status_record(stem: String, content: String, now: i64) -> (r: StatusReadOutcome)
    ensures
        r == spec_read_outcome(stem, content, now as int),
{
    match parse_status_json(content.as_str()) {
        None => StatusReadOutcome::Skip,
        Some(f) => {
            if f.project_path.as_str().is_empty() {
                StatusReadOutcome::Skip
            } else {
                let threshold = get_stale_threshold_for_state(
                    f.state.as_str(),
                    as_opt_str(&f.last_tool),
                );
                if is_stale(now, f.timestamp, threshold) {
                    StatusReadOutcome::Evict(stem)
                } else {
                    StatusReadOutcome::Keep(
                        StatusRecord {
                            session_id: stem,
                            project_path: f.project_path,
                            state: state_from_name(f.state.as_str()),
                            waiting_reason: f.waiting_reason,
                            timestamp: f.timestamp,
                            last_tool: f.last_tool,
                        },
                    )
                }
            }
        },
    }
}

/// The store's decision for every file of the status directory: one outcome
/// per `(stem, text)` pair, in order.
pub fn read_status_outcomes(files: &Vec<(String, String)>, now: i64) -> (r: Vec<
    StatusReadOutcome,
>)
    ensures
        r@.len() == files@.len(),
        forall|i: int|
            0 <= i < files@.len() ==> r@[i] == spec_read_outcome(
                files@[i].0,
                files@[i].1,
                now as int,
            ),
{
    let mut out: Vec<StatusReadOutcome> = Vec::new();
    let mut i: usize = 0;
    while i < files.len()
        invariant
            i <= files@.len(),
            out@.len() == i,
            forall|j: int|
                0 <= j < i ==> out@[j] == spec_read_outcome(
                    files@[j].0,
                    files@[j].1,
                    now as int,
                ),
        decreases files@.len() - i,
    {
        let stem = files[i].0.clone();
        let content = files[i].1.clone();
        let o = read_status_record(stem, content, now);
        out.push(o);
        i += 1;
    }
    out
}

impl Clone for StatusReadOutcome {
    fn clone(&self) -> (r: Self)
        ensures
            r == *self,
    {
        match self {
            StatusReadOutcome::Keep(rec) => StatusReadOutcome::Keep(rec.clone()),
            StatusReadOutcome::Evict(stem) => StatusReadOutcome::Evict(stem.clone()),
            StatusReadOutcome::Skip => StatusReadOutcome::Skip,
        }
    }
}

/// Selector of the record a `Keep` outcome surfaces.
pub open spec fn keep_fn() -> spec_fn(StatusReadOutcome) -> Option<StatusRecord> {
    |o: StatusReadOutcome|
        match o {
            StatusReadOutcome::Keep(rec) => Some(rec),
            _ => None,
        }
}

/// Selector of the stem an `Evict` outcome names.
pub open spec fn evict_fn() -> spec_fn(StatusReadOutcome) -> Option<String> {
    |o: StatusReadOutcome|
        match o {
            StatusReadOutcome::Evict(stem) => Some(stem),
            _ => None,
        }
}

/// The records the store surfaces: the payloads of the `Keep` outcomes, in
/// order.
pub open spec fn spec_kept(outs: Seq<StatusReadOutcome>) -> Seq<StatusRecord> {
    outs.filter_map(keep_fn())
}

/// The stems of the files the store evicts, in order.
pub open spec fn spec_evicted(outs: Seq<StatusReadOutcome>) -> Seq<String> {
    outs.filter_map(evict_fn())
}

/// Collect the surfaced records of a batch of outcomes, in order.
pub fn kept_records(outs: &Vec<StatusReadOutcome>) -> (r: Vec<StatusRecord>)
    ensures
        r@ == spec_kept(outs@),
{
    let mut out: Vec<StatusRecord> = Vec::new();
    let mut i: usize = 0;
    proof {
        assert(outs@.take(0) =~= Seq::<StatusReadOutcome>::empty());
        assert(outs@.take(0).filter_map(keep_fn()) =~= Seq::<StatusRecord>::empty());
    }
    while i < outs.len()
        invariant
            i <= outs@.len(),
            out@ == outs@.take(i as int).filter_map(keep_fn()),
        decreases outs@.len() - i,
    {
        proof {
            outs@.lemma_filter_map_take_succ(keep_fn(), i as int);
        }
        match &outs[i] {
            StatusReadOutcome::Keep(rec) => {
                out.push(rec.clone());
            },
            _ => {},
        }
        proof {
            assert(out@ =~= outs@.take(i + 1).filter_map(keep_fn()));
        }
        i += 1;
    }
    proof {
        assert(outs@.take(outs@.len() as int) =~= outs@);
    }
    out
}

/// Collect the stems of the evicted files of a batch of outcomes, in order.
pub fn evicted_stems(outs: &Vec<StatusReadOutcome>) -> (r: Vec<String>)
    ensures
        r@ == spec_evicted(outs@),
{
    let mut out: Vec<String> = Vec::new();
    let mut i: usize = 0;
    proof {
        assert(outs@.take(0) =~= Seq::<StatusReadOutcome>::empty());
        assert(outs@.take(0).filter_map(evict_fn()) =~= Seq::<String>::empty());
    }
    while i < outs.len()
        invariant
            i <= outs@.len(),
            out@ == outs@.take(i as int).filter_map(evict_fn()),
        decreases outs@.len() - i,
    {
        proof {
            outs@.lemma_filter_map_take_succ(evict_fn(), i as int);
        }
        match &outs[i] {
            StatusReadOutcome::Evict(stem) => {
                out.push(stem.clone());
            },
            _ => {},
        }
        proof {
            assert(out@ =~= outs@.take(i + 1).filter_map(evict_fn()));
        }
        i += 1;
    }
    proof {
        assert(outs@.take(outs@.len() as int) =~= outs@);
    }
    out
}

/// Is a file name one of the status files, as opposed to the reserved
/// auxiliary files kept alongside them?
pub open spec fn spec_is_status_file_name(name: Seq<char>) -> bool {
    has_suffix(name, ".json"@) && name != "names.json"@ && name != "hooks_backup.json"@
}

/// A status file is a `.json` file other than the names index and the hooks
/// backup.
pub fn is_status_file_name(name: &str) -> (r: bool)
    ensures
        r == spec_is_status_file_name(name@),
{
    ends_with_str(name, ".json") && !str_eq(name, "names.json")
        && !str_eq(name, "hooks_backup.json")
}

} // verus!
