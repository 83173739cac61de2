//! The session listing: the raw status files as shown to the consumer, with
//! display names merged in from the names index file and newest sessions
//! first.  Reading the directory and the index file is I/O and happens
//! outside this crate.

use vstd::prelude::*;
use vstd::seq_lib::group_to_multiset_ensures;
use crate::session::{clone_opt_string, ClaudeSession};
use crate::store::spec_is_status_file_name;
use crate::strutil::str_eq;

verus! {

/// What JSON parsing extracts from one session file's text: `None` when the
/// text is not a JSON object with the required fields.  The raw text field
/// is left empty; the caller fills it.
pub uninterp spec fn session_json_of(s: Seq<char>) -> Option<ClaudeSession>;

/// Relies on `serde_json::from_str` and the `serde_json::Value` accessors to
/// read one session file: required string fields `project_path`,
/// `session_id` and `state`, a required unsigned `timestamp`, and an
/// optional string `name`.  The result depends on the text alone.
#[verifier::external_body]
fn parse_session_json(content: &str) -> (r: Option<ClaudeSession>)
    ensures
        r == session_json_of(content@),
{
    let v: serde_json::Value = match serde_json::from_str(content) {
        Ok(x) => x,
        Err(_) => return None,
    };
    Some(ClaudeSession {
        project_path: v.get("project_path")?.as_str()?.to_string(),
        session_id: v.get("session_id")?.as_str()?.to_string(),
        state: v.get("state")?.as_str()?.to_string(),
        timestamp: v.get("timestamp")?.as_u64()?,
        name: v.get("name").and_then(|x| x.as_str()).map(|s| s.to_string()),
        raw_json: String::new(),
    })
}

/// What JSON parsing extracts from the names index file: the session-id to
/// name pairs, in the parser's (key-sorted) order, or `None` when the text
/// is not an object of strings.
pub uninterp spec fn names_json_of(s: Seq<char>) -> Option<Vec<(String, String)>>;

/// Relies on `serde_json::from_str` and the `serde_json::Map` iterator
/// (key-ordered, hence deterministic) to read the names index: an object
/// mapping session ids to display names.  The result depends on the text
/// alone.
#[verifier::external_body]
fn parse_names_json(content: &str) -> (r: Option<Vec<(String, String)>>)
    ensures
        r == names_json_of(content@),
{
    let v: serde_json::Value = match serde_json::from_str(content) {
        Ok(x) => x,
        Err(_) => return None,
    };
    let obj = v.as_object()?;
    let mut out: Vec<(String, String)> = Vec::new();
    for (k, val) in obj {
        out.push((k.clone(), val.as_str()?.to_string()));
    }
    Some(out)
}

/// Read the names index from its file's text: the session-id to name
/// pairs, or nothing at all when the text does not parse as an object of
/// strings — a corrupt index never aborts a listing.
pub fn read_session_names(content: &str) -> (r: Vec<(String, String)>)
    ensures
        match names_json_of(content@) {
            Some(v) => r@ == v@,
            None => r@ == Seq::<(String, String)>::empty(),
        },
{
    match parse_names_json(content) {
        Some(v) => v,
        None => Vec::new(),
    }
}

/// The display name recorded for a session id: the first pair that carries
/// it.
pub open spec fn spec_lookup_name(names: Seq<(String, String)>, sid: Seq<char>) -> Option<
    String,
>
    decreases names.len(),
{
    if names.len() == 0 {
        None
    } else if names[0].0@ == sid {
        Some(names[0].1)
    } else {
        spec_lookup_name(names.drop_first(), sid)
    }
}

/// Look a session id up in the names index.
pub fn lookup_name(names: &Vec<(String, String)>, sid: &str) -> (r: Option<String>)
    ensures
        r == spec_lookup_name(names@, sid@),
{
    let mut i: usize = 0;
    proof {
        assert(names@.skip(0) =~= names@);
    }
    while i < names.len()
        invariant
            i <= names@.len(),
            spec_lookup_name(names@, sid@) == spec_lookup_name(names@.skip(i as int), sid@),
        decreases names@.len() - i,
    {
        proof {
            assert(names@.skip(i as int)[0] == names@[i as int]);
            assert(names@.skip(i as int).drop_first() =~= names@.skip(i + 1));
        }
        if str_eq(names[i].0.as_str(), sid) {
            return Some(names[i].1.clone());
        }
        i += 1;
    }
    None
}

/// What one directory entry contributes to the listing: nothing for the
/// reserved and non-status files and for files that do not parse; otherwise
/// the parsed session, carrying its raw text, with the display name looked
/// up in the index when the file itself names none.
pub open spec fn spec_listed_session(
    filename: String,
    content: String,
    names: Seq<(String, String)>,
) -> Option<ClaudeSession> {
    if !spec_is_status_file_name(filename@) {
        None
    } else {
        match session_json_of(content@) {
            None => None,
            Some(s) => Some(
                ClaudeSession {
                    name: if s.name is None {
                        spec_lookup_name(names, s.session_id@)
                    } else {
                        s.name
                    },
                    raw_json: content,
                    ..s
                },
            ),
        }
    }
}

/// The contribution function over `(filename, content)` pairs.
pub open spec fn listed_fn(names: Seq<(String, String)>) -> spec_fn((String, String)) -> Option<
    ClaudeSession,
> {
    |p: (String, String)| spec_listed_session(p.0, p.1, names)
}

/// Newest timestamp first.
pub open spec fn spec_sessions_sorted_desc(s: Seq<ClaudeSession>) -> bool {
    forall|i: int, j: int| 0 <= i < j < s.len() ==> s[i].timestamp >= s[j].timestamp
}

/// Sort sessions newest first, keeping exactly the given sessions.
pub fn sort_sessions_desc(v: Vec<ClaudeSession>) -> (r: Vec<ClaudeSession>)
    ensures
        r@.to_multiset() == v@.to_multiset(),
        spec_sessions_sorted_desc(r@),
{
    broadcast use group_to_multiset_ensures;

    let ghost orig = v@;
    let mut src = v;
    let mut out: Vec<ClaudeSession> = Vec::new();
    proof {
        assert(out@.to_multiset().add(src@.to_multiset()) =~= orig.to_multiset());
    }
    while src.len() > 0
        invariant
            out@.to_multiset().add(src@.to_multiset()) == orig.to_multiset(),
            spec_sessions_sorted_desc(out@),
            forall|i: int, j: int|
                0 <= i < out@.len() && 0 <= j < src@.len() ==> out@[i].timestamp
                    >= src@[j].timestamp,
        decreases src@.len(),
    {
        let mut mi: usize = 0;
        let mut k: usize = 1;
        while k < src.len()
            invariant
                src@.len() > 0,
                mi < k,
                k <= src@.len(),
                forall|j: int| 0 <= j < k ==> src@[mi as int].timestamp >= src@[j].timestamp,
            decreases src@.len() - k,
        {
            if src[k].timestamp > src[mi].timestamp {
                mi = k;
            }
            k += 1;
        }
        let ghost src_before = src@;
        let x = src.remove(mi);
        let ghost out_before = out@;
        out.push(x);
        proof {
            broadcast use vstd::multiset::group_multiset_axioms;

            assert(x == src_before[mi as int]);
            vstd::seq_lib::to_multiset_remove(src_before, mi as int);
            assert(src_before.contains(x));
            vstd::seq_lib::to_multiset_contains(src_before, x);
            vstd::seq_lib::to_multiset_build(out_before, x);
            assert(out@.to_multiset().add(src@.to_multiset()) =~= orig.to_multiset());
            assert forall|j: int| 0 <= j < src@.len() implies x.timestamp >= src@[j].timestamp by {
                if j < mi {
                    assert(src@[j] == src_before[j]);
                } else {
                    assert(src@[j] == src_before[j + 1]);
                }
            }
        }
    }
    out
}

/// The sessions the status directory lists: one per status file that
/// parses, raw text attached and display name merged in from the names
/// index, newest first.
pub fn list_sessions(files: &Vec<(String, String)>, names: &Vec<(String, String)>) -> (r: Vec<
    ClaudeSession,
>)
    ensures
        r@.to_multiset() == files@.filter_map(listed_fn(names@)).to_multiset(),
        spec_sessions_sorted_desc(r@),
{
    let mut found: Vec<ClaudeSession> = Vec::new();
    let mut i: usize = 0;
    proof {
        assert(files@.take(0) =~= Seq::<(String, String)>::empty());
        assert(files@.take(0).filter_map(listed_fn(names@)) =~= Seq::<ClaudeSession>::empty());
    }
    while i < files.len()
        invariant
            i <= files@.len(),
            found@ == files@.take(i as int).filter_map(listed_fn(names@)),
        decreases files@.len() - i,
    {
        proof {
            files@.lemma_filter_map_take_succ(listed_fn(names@), i as int);
        }
        if crate::store::is_status_file_name(files[i].0.as_str()) {
            match parse_session_json(files[i].1.as_str()) {
                None => {},
                Some(s) => {
                    let merged_name = if s.name.is_none() {
                        lookup_name(names, s.session_id.as_str())
                    } else {
                        clone_opt_string(&s.name)
                    };
                    let listed = ClaudeSession {
                        name: merged_name,
                        raw_json: files[i].1.clone(),
                        ..s
                    };
                    found.push(listed);
                },
            }
        }
        proof {
            assert(found@ =~= files@.take(i + 1).filter_map(listed_fn(names@)));
        }
        i += 1;
    }
    proof {
        assert(files@.take(files@.len() as int) =~= files@);
    }
    sort_sessions_desc(found)
}

} // verus!
