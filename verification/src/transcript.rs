//! The transcript fallback scanner's logic: classifying the tail of a
//! newline-delimited JSON transcript into a session state, and deciding per
//! transcript whether a fallback record is produced, a leftover status file
//! should be cleaned up, or nothing follows.  Reading the transcript files
//! is I/O and happens outside this crate; the functions here receive the
//! lines.

use vstd::prelude::*;
use crate::matcher::{normalize_path, paths_match, spec_normalize_path, spec_paths_match};
use crate::session::{
    clone_opt_string, ClaudeSessionState, spec_state_name, state_name, StatusRecord,
};
use crate::staleness::{get_stale_threshold_for_state, is_stale, spec_is_stale,
    spec_state_threshold};
use crate::store::{as_opt_str, view_opt_string};
use crate::strutil::str_eq;

verus! {

/// How many of a transcript's final lines are scanned.
pub const TRANSCRIPT_WINDOW: usize = 10;

/// One element of an entry's message content: its type tag and, for tool
/// invocations, the tool name.
pub struct TranscriptContent {
    pub kind: Option<String>,
    pub name: Option<String>,
}

/// The scalar fields this scanner reads from one transcript line: the
/// entry type, the message's role and stop reason, the entry timestamp
/// (RFC 3339 text), and the bound working directory (first entry only).
pub struct TranscriptEntry {
    pub entry_type: Option<String>,
    pub role: Option<String>,
    pub stop_reason: Option<String>,
    pub timestamp: Option<String>,
    pub cwd: Option<String>,
}

/// What JSON parsing extracts from one transcript line: `None` when the
/// line is not a JSON object.
pub uninterp spec fn transcript_json_of(line: Seq<char>) -> Option<TranscriptEntry>;

/// Relies on `serde_json::from_str` and the `serde_json::Value` accessors to
/// read one transcript line's scalar fields; absent or differently-typed
/// fields read as absent.  The result depends on the line alone.
#[verifier::external_body]
fn parse_transcript_json(line: &str) -> (r: Option<TranscriptEntry>)
    ensures
        r == transcript_json_of(line@),
{
    let v: serde_json::Value = match serde_json::from_str(line) {
        Ok(x) => x,
        Err(_) => return None,
    };
    let m = v.get("message");
    let s = |x: Option<&serde_json::Value>| x.and_then(|y| y.as_str()).map(|t| t.to_string());
    Some(TranscriptEntry {
        entry_type: s(v.get("type")),
        timestamp: s(v.get("timestamp")),
        cwd: s(v.get("cwd")),
        role: s(m.and_then(|x| x.get("role"))),
        stop_reason: s(m.and_then(|x| x.get("stop_reason"))),
    })
}

/// The message content items of one transcript line: empty when the line
/// does not parse or the message has no content array.
pub uninterp spec fn transcript_tools_of(line: Seq<char>) -> Vec<TranscriptContent>;

/// Relies on `serde_json::from_str` and the `serde_json::Value` accessors to
/// read one transcript line's message content items (their type tags and
/// tool names).  The result depends on the line alone.
#[verifier::external_body]
fn parse_transcript_tools(line: &str) -> (r: Vec<TranscriptContent>)
    ensures
        r == transcript_tools_of(line@),
{
    let v: serde_json::Value = match serde_json::from_str(line) {
        Ok(x) => x,
        Err(_) => return Vec::new(),
    };
    let s = |x: Option<&serde_json::Value>| x.and_then(|y| y.as_str()).map(|t| t.to_string());
    v.get("message").and_then(|m| m.get("content")).and_then(|c| c.as_array()).map_or(
        Vec::new(),
        |a| a.iter().map(
            |c| TranscriptContent { kind: s(c.get("type")), name: s(c.get("name")) },
        ).collect(),
    )
}

/// The epoch seconds an RFC 3339 timestamp denotes, or `None` when the text
/// does not parse as one.
pub uninterp spec fn rfc3339_secs_of(s: Seq<char>) -> Option<i64>;

/// Relies on `chrono::DateTime::parse_from_rfc3339` and
/// `chrono::DateTime::timestamp`: the epoch seconds of an RFC 3339
/// timestamp, a function of the text alone.
#[verifier::external_body]
fn parse_rfc3339_secs(s: &str) -> (r: Option<i64>)
    ensures
        r == rfc3339_secs_of(s@),
{
    chrono::DateTime::parse_from_rfc3339(s).ok().map(|t| t.timestamp())
}

/// Classification of a transcript's tail.
pub enum JsonlParseResult {
    /// The session is live, with the inferred state, last tool, and the most
    /// recent parseable timestamp.
    Active(ClaudeSessionState, Option<String>, i64),
    /// The tail carries a session-termination marker.
    SessionEnded,
    /// No state could be determined.
    Unknown,
}

/// Running classification state while scanning entries in chronological
/// order.
pub struct ScanAcc {
    pub ended: bool,
    pub timestamp: i64,
    pub last_tool: Option<String>,
    pub state: ClaudeSessionState,
}

/// Before any entry is scanned: nothing is known.
pub open spec fn spec_initial_acc() -> ScanAcc {
    ScanAcc { ended: false, timestamp: 0, last_tool: None, state: ClaudeSessionState::Unknown }
}

/// The tool name taken from a message's content: the name of its last
/// `tool_use` item, or `prev` when it has none.
pub open spec fn spec_tool_from_content(items: Seq<TranscriptContent>, prev: Option<String>)
    -> Option<String>
    decreases items.len(),
{
    if items.len() == 0 {
        prev
    } else {
        if view_opt_string(items.last().kind) == Some("tool_use"@) {
            items.last().name
        } else {
            spec_tool_from_content(items.drop_last(), prev)
        }
    }
}

/// The name of a message's last `tool_use` content item, or `prev`.
pub fn tool_from_content(items: &Vec<TranscriptContent>, prev: Option<String>) -> (r: Option<
    String,
>)
    ensures
        r == spec_tool_from_content(items@, prev),
{
    let ghost prev0 = prev;
    let mut cur = prev;
    let mut i: usize = 0;
    proof {
        assert(items@.take(0) =~= Seq::<TranscriptContent>::empty());
    }
    while i < items.len()
        invariant
            i <= items@.len(),
            cur == spec_tool_from_content(items@.take(i as int), prev0),
        decreases items@.len() - i,
    {
        let is_tool_use = match &items[i].kind {
            Some(k) => str_eq(k.as_str(), "tool_use"),
            None => false,
        };
        if is_tool_use {
            cur = clone_opt_string(&items[i].name);
        }
        proof {
            assert(items@.take(i + 1).drop_last() =~= items@.take(i as int));
            assert(items@.take(i + 1).last() == items@[i as int]);
        }
        i += 1;
    }
    proof {
        assert(items@.take(items@.len() as int) =~= items@);
    }
    cur
}

/// How one entry advances the classification: a termination marker ends the
/// scan; otherwise the entry's timestamp (when parseable) becomes the most
/// recent one, a user message means the assistant is working, an assistant
/// message maps its stop reason to waiting-for-approval (capturing the
/// requested tool), waiting-for-input, or still working; anything else
/// changes nothing.  An unparseable line is skipped.
pub open spec fn spec_scan_step(acc: ScanAcc, p: (Option<TranscriptEntry>, Vec<
    TranscriptContent,
>)) -> ScanAcc {
    if acc.ended {
        acc
    } else {
        match p.0 {
            None => acc,
            Some(ent) => {
                if view_opt_string(ent.entry_type) == Some("summary"@) {
                    ScanAcc { ended: true, ..acc }
                } else {
                    let ts = match ent.timestamp {
                        Some(t) => match rfc3339_secs_of(t@) {
                            Some(v) => v,
                            None => acc.timestamp,
                        },
                        None => acc.timestamp,
                    };
                    let st_tool = match view_opt_string(ent.role) {
                        Some(r) => if r == "user"@ {
                            (ClaudeSessionState::Working, acc.last_tool)
                        } else if r == "assistant"@ {
                            match view_opt_string(ent.stop_reason) {
                                Some(sr) => if sr == "tool_use"@ {
                                    (
                                        ClaudeSessionState::WaitingForApproval,
                                        spec_tool_from_content(p.1@, acc.last_tool),
                                    )
                                } else if sr == "end_turn"@ {
                                    (ClaudeSessionState::WaitingForInput, acc.last_tool)
                                } else {
                                    (ClaudeSessionState::Working, acc.last_tool)
                                },
                                None => (ClaudeSessionState::Working, acc.last_tool),
                            }
                        } else {
                            (acc.state, acc.last_tool)
                        },
                        None => (acc.state, acc.last_tool),
                    };
                    ScanAcc { ended: false, timestamp: ts, last_tool: st_tool.1, state: st_tool.0 }
                }
            },
        }
    }
}

/// The classification state after scanning a sequence of parsed lines in
/// order.
pub open spec fn spec_scan_entries(
    entries: Seq<(Option<TranscriptEntry>, Vec<TranscriptContent>)>,
) -> ScanAcc
    decreases entries.len(),
{
    if entries.len() == 0 {
        spec_initial_acc()
    } else {
        spec_scan_step(spec_scan_entries(entries.drop_last()), entries.last())
    }
}

/// Advance the classification by one parsed line.
fn scan_step(acc: ScanAcc, e: Option<TranscriptEntry>, tools: Vec<TranscriptContent>) -> (r:
    ScanAcc)
    ensures
        r == spec_scan_step(acc, (e, tools)),
{
    if acc.ended {
        return acc;
    }
    match e {
        None => acc,
        Some(ent) => {
            let is_summary = match &ent.entry_type {
                Some(t) => str_eq(t.as_str(), "summary"),
                None => false,
            };
            if is_summary {
                return ScanAcc { ended: true, ..acc };
            }
            let ts = match &ent.timestamp {
                Some(t) => match parse_rfc3339_secs(t.as_str()) {
                    Some(v) => v,
                    None => acc.timestamp,
                },
                None => acc.timestamp,
            };
            let mut st = acc.state;
            let mut tool = acc.last_tool;
            match &ent.role {
                Some(r) => {
                    if str_eq(r.as_str(), "user") {
                        st = ClaudeSessionState::Working;
                    } else if str_eq(r.as_str(), "assistant") {
                        let stop_is_tool = match &ent.stop_reason {
                            Some(s) => str_eq(s.as_str(), "tool_use"),
                            None => false,
                        };
                        let stop_is_end = match &ent.stop_reason {
                            Some(s) => str_eq(s.as_str(), "end_turn"),
                            None => false,
                        };
                        if stop_is_tool {
                            st = ClaudeSessionState::WaitingForApproval;
                            tool = tool_from_content(&tools, tool);
                        } else if stop_is_end {
                            st = ClaudeSessionState::WaitingForInput;
                        } else {
                            st = ClaudeSessionState::Working;
                        }
                    }
                },
                None => {},
            }
            ScanAcc { ended: false, timestamp: ts, last_tool: tool, state: st }
        },
    }
}

/// The scanned suffix of a transcript: its last lines, up to the window.
pub open spec fn spec_window<T>(entries: Seq<T>) -> Seq<T> {
    if entries.len() <= TRANSCRIPT_WINDOW as int {
        entries
    } else {
        entries.skip(entries.len() - TRANSCRIPT_WINDOW as int)
    }
}

/// The parsed entries of a transcript's lines.
pub open spec fn spec_lines_entries(lines: Seq<String>) -> Seq<
    (Option<TranscriptEntry>, Vec<TranscriptContent>),
> {
    lines.map_values(|l: String| (transcript_json_of(l@), transcript_tools_of(l@)))
}

/// What the tail of a transcript says: ended if a termination marker is in
/// the window; otherwise live with the scanned state when a timestamp was
/// found and a state was recognized; otherwise undetermined.
pub open spec fn spec_classify(
    entries: Seq<(Option<TranscriptEntry>, Vec<TranscriptContent>)>,
) -> JsonlParseResult {
    let acc = spec_scan_entries(spec_window(entries));
    if acc.ended {
        JsonlParseResult::SessionEnded
    } else if acc.timestamp > 0 && acc.state != ClaudeSessionState::Unknown {
        JsonlParseResult::Active(acc.state, acc.last_tool, acc.timestamp)
    } else {
        JsonlParseResult::Unknown
    }
}

/// Classify a transcript from its lines, scanning only the final window.
pub fn parse_jsonl_for_state(lines: &Vec<String>) -> (r: JsonlParseResult)
    ensures
        r == spec_classify(spec_lines_entries(lines@)),
{
    let ghost entries = spec_lines_entries(lines@);
    let ghost window = spec_window(entries);
    let start: usize = if lines.len() <= TRANSCRIPT_WINDOW {
        0
    } else {
        lines.len() - TRANSCRIPT_WINDOW
    };
    proof {
        assert(window =~= entries.skip(start as int));
        assert(window.take(0) =~= Seq::<
            (Option<TranscriptEntry>, Vec<TranscriptContent>),
        >::empty());
    }
    let mut acc = ScanAcc {
        ended: false,
        timestamp: 0,
        last_tool: None,
        state: ClaudeSessionState::Unknown,
    };
    let mut i: usize = start;
    while i < lines.len()
        invariant
            start <= i <= lines@.len(),
            entries == spec_lines_entries(lines@),
            window == spec_window(entries),
            window == entries.skip(start as int),
            acc == spec_scan_entries(window.take(i - start)),
        decreases lines@.len() - i,
    {
        let e = parse_transcript_json(lines[i].as_str());
        let tools = parse_transcript_tools(lines[i].as_str());
        proof {
            let k = i - start;
            assert(window[k] == entries[i as int]);
            assert(entries[i as int] == (
                transcript_json_of(lines@[i as int]@),
                transcript_tools_of(lines@[i as int]@),
            ));
            assert(window.take(k + 1).drop_last() =~= window.take(k));
            assert(window.take(k + 1).last() == window[k]);
        }
        acc = scan_step(acc, e, tools);
        i += 1;
    }
    proof {
        assert(window.take(window.len() as int) =~= window);
    }
    if acc.ended {
        JsonlParseResult::SessionEnded
    } else if acc.timestamp > 0 {
        match acc.state {
            ClaudeSessionState::Unknown => JsonlParseResult::Unknown,
            _ => JsonlParseResult::Active(acc.state, acc.last_tool, acc.timestamp),
        }
    } else {
        JsonlParseResult::Unknown
    }
}

/// The working directory named by a transcript's first line, when it parses
/// and carries one.
pub open spec fn spec_transcript_project_path(lines: Seq<String>) -> Option<String> {
    if lines.len() == 0 {
        None
    } else {
        match transcript_json_of(lines[0]@) {
            None => None,
            Some(e) => e.cwd,
        }
    }
}

/// The project path a transcript is bound to: the `cwd` of its first entry.
pub fn transcript_project_path(lines: &Vec<String>) -> (r: Option<String>)
    ensures
        r == spec_transcript_project_path(lines@),
{
    if lines.len() == 0 {
        return None;
    }
    match parse_transcript_json(lines[0].as_str()) {
        None => None,
        Some(e) => e.cwd,
    }
}

/// What the scanner does with one transcript.
pub enum TranscriptScanAction {
    /// A fresh fallback record for the matching project path.
    AddSession(StatusRecord),
    /// The session ended: any leftover status file for this project path is
    /// to be removed.
    CleanupStatusFile(String),
    /// Nothing: the transcript is for another path, undetermined, or stale.
    Ignore,
}

/// The scanner's decision for one transcript against a normalized query
/// path at time `now`: transcripts bound to another path (or none) are
/// ignored; a terminated session asks for cleanup of its status file; a
/// live, fresh classification becomes a record keyed by the transcript's
/// file stem; anything else is ignored.
pub open spec fn spec_scan_transcript(
    stem: String,
    lines: Seq<String>,
    normalized_target: Seq<char>,
    now: int,
) -> TranscriptScanAction {
    match spec_transcript_project_path(lines) {
        None => TranscriptScanAction::Ignore,
        Some(cwd) => if !spec_paths_match(spec_normalize_path(cwd@), normalized_target) {
            TranscriptScanAction::Ignore
        } else {
            match spec_classify(spec_lines_entries(lines)) {
                JsonlParseResult::SessionEnded => TranscriptScanAction::CleanupStatusFile(cwd),
                JsonlParseResult::Unknown => TranscriptScanAction::Ignore,
                JsonlParseResult::Active(st, tool, ts) => {
                    if !spec_is_stale(
                        now,
                        ts as int,
                        spec_state_threshold(spec_state_name(st), view_opt_string(tool)),
                    ) {
                        TranscriptScanAction::AddSession(
                            StatusRecord {
                                session_id: stem,
                                project_path: cwd,
                                state: st,
                                waiting_reason: None,
                                timestamp: ts,
                                last_tool: tool,
                            },
                        )
                    } else {
                        TranscriptScanAction::Ignore
                    }
                },
            }
        },
    }
}

/// Decide what one transcript (stem and lines) contributes for a normalized
/// query path.
pub fn scan_transcript(
    stem: String,
    lines: &Vec<String>,
    normalized_target: &str,
    now: i64,
) -> (r: TranscriptScanAction)
    ensures
        r == spec_scan_transcript(stem, lines@, normalized_target@, now as int),
{
    let cwd = match transcript_project_path(lines) {
        None => {
            return TranscriptScanAction::Ignore;
        },
        Some(c) => c,
    };
    let normalized_cwd = normalize_path(cwd.as_str());
    if !paths_match(normalized_cwd.as_str(), normalized_target) {
        return TranscriptScanAction::Ignore;
    }
    match parse_jsonl_for_state(lines) {
        JsonlParseResult::SessionEnded => TranscriptScanAction::CleanupStatusFile(cwd),
        JsonlParseResult::Unknown => TranscriptScanAction::Ignore,
        JsonlParseResult::Active(st, tool, ts) => {
            let threshold = get_stale_threshold_for_state(state_name(st), as_opt_str(&tool));
            if !is_stale(now, ts, threshold) {
                TranscriptScanAction::AddSession(
                    StatusRecord {
                        session_id: stem,
                        project_path: cwd,
                        state: st,
                        waiting_reason: None,
                        timestamp: ts,
                        last_tool: tool,
                    },
                )
            } else {
                TranscriptScanAction::Ignore
            }
        },
    }
}

/// A parsed entry carrying the session-termination marker.
pub open spec fn spec_is_summary(e: Option<TranscriptEntry>) -> bool {
    match e {
        None => false,
        Some(ent) => view_opt_string(ent.entry_type) == Some("summary"@),
    }
}

/// The scan ends exactly when some scanned entry is a termination marker.
pub proof fn lemma_scan_ended_iff_summary(
    entries: Seq<(Option<TranscriptEntry>, Vec<TranscriptContent>)>,
)
    ensures
        spec_scan_entries(entries).ended <==> exists|i: int|
            0 <= i < entries.len() && spec_is_summary((#[trigger] entries[i]).0),
    decreases entries.len(),
{
    if entries.len() > 0 {
        lemma_scan_ended_iff_summary(entries.drop_last());
        let prior = spec_scan_entries(entries.drop_last());
        if spec_scan_entries(entries).ended {
            if prior.ended {
                let i = choose|i: int|
                    0 <= i < entries.len() - 1 && spec_is_summary(
                        (#[trigger] entries.drop_last()[i]).0,
                    );
                assert(spec_is_summary(entries[i].0));
            } else {
                assert(spec_is_summary(entries[entries.len() - 1].0));
            }
        }
        if exists|i: int| 0 <= i < entries.len() && spec_is_summary((#[trigger] entries[i]).0) {
            let i = choose|i: int|
                0 <= i < entries.len() && spec_is_summary((#[trigger] entries[i]).0);
            if i < entries.len() - 1 {
                assert(spec_is_summary(entries.drop_last()[i].0));
                assert(prior.ended);
            }
            assert(spec_scan_entries(entries).ended);
        }
    }
}

/// A transcript whose most recent entry is a session-termination marker
/// yields no fallback record, whatever the timestamps; when its path
/// matches the query it instead asks for cleanup of the path's status file.
pub proof fn lemma_termination_marker_yields_no_record(
    stem: String,
    lines: Seq<String>,
    normalized_target: Seq<char>,
    now: int,
)
    requires
        lines.len() > 0,
        spec_is_summary(transcript_json_of(lines.last()@)),
    ensures
        !(spec_scan_transcript(stem, lines, normalized_target, now) is AddSession),
        (match spec_transcript_project_path(lines) {
            Some(cwd) => spec_paths_match(spec_normalize_path(cwd@), normalized_target),
            None => false,
        }) ==> spec_scan_transcript(stem, lines, normalized_target, now)
            == TranscriptScanAction::CleanupStatusFile(
            spec_transcript_project_path(lines).unwrap(),
        ),
{
    let entries = spec_lines_entries(lines);
    let window = spec_window(entries);
    assert(entries.len() == lines.len());
    assert(entries.last().0 == transcript_json_of(lines.last()@));
    assert(window.len() > 0);
    assert(window.last() == entries.last());
    lemma_scan_ended_iff_summary(window);
    assert(spec_is_summary(window[window.len() - 1].0));
    assert(spec_scan_entries(window).ended);
    assert(spec_classify(entries) == JsonlParseResult::SessionEnded);
}

} // verus!
