//! The data model: the state of one session, the status record surfaced to
//! the consumer, and the aggregate view per project path.

use vstd::prelude::*;

verus! {

/// Activity state of one session, as inferred from its artifacts.
#[derive(Clone, Copy, Debug, PartialEq, Eq, Structural)]
pub enum ClaudeSessionState {
    Working,
    WaitingForApproval,
    WaitingForInput,
    Idle,
    Unknown,
}

/// One session's last known state: the canonical in-memory record.
///
/// `session_id` is the stem of the backing file; `project_path` the path the
/// session is bound to; `timestamp` seconds since the epoch of the last
/// observed activity, with zero meaning never set; `last_tool` drives the
/// staleness threshold while working.
#[derive(Debug)]
pub struct StatusRecord {
    pub session_id: String,
    pub project_path: String,
    pub state: ClaudeSessionState,
    pub waiting_reason: Option<String>,
    pub timestamp: i64,
    pub last_tool: Option<String>,
}

impl Clone for StatusRecord {
    fn clone(&self) -> (r: Self)
        ensures
            r == *self,
    {
        StatusRecord {
            session_id: self.session_id.clone(),
            project_path: self.project_path.clone(),
            state: self.state,
            waiting_reason: clone_opt_string(&self.waiting_reason),
            timestamp: self.timestamp,
            last_tool: clone_opt_string(&self.last_tool),
        }
    }
}

/// A clone of an optional string, equal to the original.
pub fn clone_opt_string(s: &Option<String>) -> (r: Option<String>)
    ensures
        r == *s,
{
    match s {
        None => None,
        Some(v) => Some(v.clone()),
    }
}

/// The aggregate view for one queried project path.
#[derive(Debug)]
pub struct WorktreeClaudeStatus {
    /// Records bound to the queried path, newest timestamp first.
    pub active_sessions: Vec<StatusRecord>,
    /// True iff some active session is waiting for approval or input, or idle.
    pub has_pending_input: bool,
}

/// A session as listed to the consumer from the raw status files, carrying
/// the raw backing text and an optional display name.
#[derive(Debug)]
pub struct ClaudeSession {
    pub project_path: String,
    pub session_id: String,
    pub state: String,
    pub timestamp: u64,
    pub name: Option<String>,
    pub raw_json: String,
}

impl Clone for ClaudeSession {
    fn clone(&self) -> (r: Self)
        ensures
            r == *self,
    {
        ClaudeSession {
            project_path: self.project_path.clone(),
            session_id: self.session_id.clone(),
            state: self.state.clone(),
            timestamp: self.timestamp,
            name: clone_opt_string(&self.name),
            raw_json: self.raw_json.clone(),
        }
    }
}

/// Whether the hook configuration references this system's status directory,
/// and that directory's hooks as text, if any.
#[derive(Debug)]
pub struct HooksState {
    pub hooks_enabled: bool,
    pub hooks_json: Option<String>,
}

/// Result of checking the external hook configuration.
#[derive(Debug)]
pub struct ClaudeHooksConfig {
    pub configured: bool,
    pub status_dir_exists: bool,
}

/// The application's own configuration.
#[derive(Debug)]
pub struct WoodeyeConfig {
    pub custom_script_path: Option<String>,
}

impl Clone for WoodeyeConfig {
    fn clone(&self) -> (r: Self)
        ensures
            r == *self,
    {
        WoodeyeConfig { custom_script_path: clone_opt_string(&self.custom_script_path) }
    }
}

impl Default for WoodeyeConfig {
    fn default() -> (r: Self)
        ensures
            r.custom_script_path is None,
    {
        WoodeyeConfig { custom_script_path: None }
    }
}

/// Outcome of running a configured script.
#[derive(Debug)]
pub struct ScriptResult {
    pub success: bool,
    pub stdout: String,
    pub stderr: String,
    pub exit_code: Option<i32>,
}

/// Diagnostic summary of one raw status file.
#[derive(Debug)]
pub struct StatusFileInfo {
    pub filename: String,
    pub project_path: String,
    pub state: String,
    pub last_tool: Option<String>,
    pub stale_threshold: i64,
    pub timestamp: i64,
    pub age_seconds: i64,
    pub is_stale: bool,
}

/// The state named by a status file's `state` field; anything unrecognized
/// maps to `Unknown`.
pub open spec fn spec_state_of_name(s: Seq<char>) -> ClaudeSessionState {
    if s == "working"@ {
        ClaudeSessionState::Working
    } else if s == "waiting_for_approval"@ {
        ClaudeSessionState::WaitingForApproval
    } else if s == "waiting_for_input"@ {
        ClaudeSessionState::WaitingForInput
    } else if s == "idle"@ {
        ClaudeSessionState::Idle
    } else {
        ClaudeSessionState::Unknown
    }
}

/// The canonical name of a state, as written in status files.
pub open spec fn spec_state_name(st: ClaudeSessionState) -> Seq<char> {
    match st {
        ClaudeSessionState::Working => "working"@,
        ClaudeSessionState::WaitingForApproval => "waiting_for_approval"@,
        ClaudeSessionState::WaitingForInput => "waiting_for_input"@,
        ClaudeSessionState::Idle => "idle"@,
        ClaudeSessionState::Unknown => "unknown"@,
    }
}

/// Map a state name to the state.
pub fn state_from_name(s: &str) -> (r: ClaudeSessionState)
    ensures
        r == spec_state_of_name(s@),
{
    if crate::strutil::str_eq(s, "working") {
        ClaudeSessionState::Working
    } else if crate::strutil::str_eq(s, "waiting_for_approval") {
        ClaudeSessionState::WaitingForApproval
    } else if crate::strutil::str_eq(s, "waiting_for_input") {
        ClaudeSessionState::WaitingForInput
    } else if crate::strutil::str_eq(s, "idle") {
        ClaudeSessionState::Idle
    } else {
        ClaudeSessionState::Unknown
    }
}

/// Map a state to its canonical name.
pub fn state_name(st: ClaudeSessionState) -> (r: &'static str)
    ensures
        r@ == spec_state_name(st),
{
    match st {
        ClaudeSessionState::Working => "working",
        ClaudeSessionState::WaitingForApproval => "waiting_for_approval",
        ClaudeSessionState::WaitingForInput => "waiting_for_input",
        ClaudeSessionState::Idle => "idle",
        ClaudeSessionState::Unknown => "unknown",
    }
}

/// A session in this state is waiting on the user.
pub open spec fn spec_needs_input(st: ClaudeSessionState) -> bool {
    st is WaitingForApproval || st is WaitingForInput || st is Idle
}

/// Does a session in this state need user input?
pub fn needs_input(st: ClaudeSessionState) -> (r: bool)
    ensures
        r == spec_needs_input(st),
{
    match st {
        ClaudeSessionState::WaitingForApproval => true,
        ClaudeSessionState::WaitingForInput => true,
        ClaudeSessionState::Idle => true,
        _ => false,
    }
}

} // verus!
