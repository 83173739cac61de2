//! The staleness policy: pure rules mapping a session's state and the most
//! recent tool to a timeout, and an age check against that timeout.
//!
//! Tools fall into latency classes: quick bookkeeping operations, file and
//! shell operations, network operations, sub-agent and browser automation,
//! tools matched by a name fragment, and a default.  Waiting and idle states
//! use one longer fixed threshold, since a user reviewing output for a few
//! minutes is not a dead session, while a silently hung tool call should be
//! flagged quickly.

use vstd::prelude::*;
use crate::strutil::{contains_str, has_substring, str_eq};

verus! {

/// Stale threshold in seconds for waiting and idle states.
pub const WAITING_STATE_STALE_THRESHOLD: i64 = 600;

/// The view of an optional string slice.
pub open spec fn view_opt_str(s: Option<&str>) -> Option<Seq<char>> {
    match s {
        None => None,
        Some(t) => Some(t@),
    }
}

/// Timeout class of a tool name, in seconds.
pub open spec fn spec_tool_threshold(tool: Option<Seq<char>>) -> int {
    match tool {
        None => 60,
        Some(t) => if t == "TodoWrite"@ || t == "ExitPlanMode"@ || t == "EnterPlanMode"@ {
            10
        } else if t == "Read"@ || t == "Write"@ || t == "Edit"@ || t == "Glob"@ || t == "Grep"@
            || t == "NotebookEdit"@ {
            30
        } else if t == "Bash"@ || t == "KillShell"@ {
            30
        } else if t == "WebFetch"@ || t == "WebSearch"@ {
            120
        } else if t == "Task"@ || t == "TaskOutput"@ {
            180
        } else if has_substring(t, "Playwright"@) || has_substring(t, "Browser"@) {
            180
        } else if has_substring(t, "mcp"@) || has_substring(t, "MCP"@) {
            120
        } else {
            60
        },
    }
}

/// Timeout for a session in the given state: a working session goes by its
/// last tool's class, waiting and idle states by the fixed longer threshold,
/// and an unrecognized state falls back to the tool class.
pub open spec fn spec_state_threshold(state: Seq<char>, tool: Option<Seq<char>>) -> int {
    if state == "working"@ {
        spec_tool_threshold(tool)
    } else if state == "waiting_for_approval"@ || state == "waiting_for_input"@
        || state == "idle"@ {
        WAITING_STATE_STALE_THRESHOLD as int
    } else {
        spec_tool_threshold(tool)
    }
}

/// A record is stale when its timestamp is known (positive) and its age
/// exceeds the threshold.  A zero timestamp is never stale by this check.
pub open spec fn spec_is_stale(now: int, timestamp: int, threshold: int) -> bool {
    timestamp > 0 && now - timestamp > threshold
}

/// Stale threshold in seconds for the given last tool.
pub fn get_stale_threshold_for_tool(tool: Option<&str>) -> (r: i64)
    ensures
        r as int == spec_tool_threshold(view_opt_str(tool)),
{
    match tool {
        None => 60,
        Some(t) => {
            if str_eq(t, "TodoWrite") || str_eq(t, "ExitPlanMode") || str_eq(t, "EnterPlanMode") {
                10
            } else if str_eq(t, "Read") || str_eq(t, "Write") || str_eq(t, "Edit")
                || str_eq(t, "Glob") || str_eq(t, "Grep") || str_eq(t, "NotebookEdit") {
                30
            } else if str_eq(t, "Bash") || str_eq(t, "KillShell") {
                30
            } else if str_eq(t, "WebFetch") || str_eq(t, "WebSearch") {
                120
            } else if str_eq(t, "Task") || str_eq(t, "TaskOutput") {
                180
            } else if contains_str(t, "Playwright") || contains_str(t, "Browser") {
                180
            } else if contains_str(t, "mcp") || contains_str(t, "MCP") {
                120
            } else {
                60
            }
        },
    }
}

/// Stale threshold in seconds for a session state (by name) and last tool.
pub fn get_stale_threshold_for_state(state: &str, tool: Option<&str>) -> (r: i64)
    ensures
        r as int == spec_state_threshold(state@, view_opt_str(tool)),
{
    if str_eq(state, "working") {
        get_stale_threshold_for_tool(tool)
    } else if str_eq(state, "waiting_for_approval") || str_eq(state, "waiting_for_input")
        || str_eq(state, "idle") {
        WAITING_STATE_STALE_THRESHOLD
    } else {
        get_stale_threshold_for_tool(tool)
    }
}

/// Is a record with the given timestamp stale at time `now` under the given
/// threshold?
pub fn is_stale(now: i64, timestamp: i64, threshold: i64) -> (r: bool)
    ensures
        r == spec_is_stale(now as int, timestamp as int, threshold as int),
{
    timestamp > 0 && (now as i128) - (timestamp as i128) > (threshold as i128)
}

/// A record whose timestamp is zero (or negative, i.e. unknown) is never
/// stale, whatever its age.
pub proof fn lemma_zero_timestamp_never_stale(now: int, timestamp: int, threshold: int)
    requires
        timestamp <= 0,
    ensures
        !spec_is_stale(now, timestamp, threshold),
{
}

/// The quick bookkeeping tools have a ten-second threshold.
pub proof fn lemma_quick_tool_threshold(t: Seq<char>)
    requires
        t == "TodoWrite"@ || t == "ExitPlanMode"@ || t == "EnterPlanMode"@,
    ensures
        spec_tool_threshold(Some(t)) == 10,
{
}

/// A tool in no named class and matching no name fragment, or an absent
/// tool, gets the default sixty-second threshold.
pub proof fn lemma_default_tool_threshold(t: Seq<char>)
    requires
        t != "TodoWrite"@ && t != "ExitPlanMode"@ && t != "EnterPlanMode"@,
        t != "Read"@ && t != "Write"@ && t != "Edit"@ && t != "Glob"@ && t != "Grep"@
            && t != "NotebookEdit"@,
        t != "Bash"@ && t != "KillShell"@,
        t != "WebFetch"@ && t != "WebSearch"@,
        t != "Task"@ && t != "TaskOutput"@,
        !has_substring(t, "Playwright"@) && !has_substring(t, "Browser"@),
        !has_substring(t, "mcp"@) && !has_substring(t, "MCP"@),
    ensures
        spec_tool_threshold(Some(t)) == 60,
        spec_tool_threshold(None) == 60,
{
}

} // verus!
