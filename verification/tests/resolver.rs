use woodeye::resolver::{get_all_claude_statuses, get_claude_status};
use woodeye::session::{ClaudeSessionState, StatusRecord};

fn record(id: &str, path: &str, state: ClaudeSessionState, ts: i64) -> StatusRecord {
    StatusRecord {
        session_id: id.to_string(),
        project_path: path.to_string(),
        state,
        waiting_reason: None,
        timestamp: ts,
        last_tool: None,
    }
}

#[test]
fn no_sources_means_empty_view_without_pending_input() {
    let status = get_claude_status("/nowhere", &vec![], &vec![]);
    assert!(status.active_sessions.is_empty());
    assert!(!status.has_pending_input);
}

#[test]
fn two_records_on_one_path_both_appear_newest_first() {
    let store = vec![
        record("a", "/tmp/proj", ClaudeSessionState::Working, 100),
        record("b", "/tmp/other", ClaudeSessionState::Working, 500),
        record("c", "/tmp/proj", ClaudeSessionState::WaitingForInput, 200),
    ];
    let status = get_claude_status("/tmp/proj", &store, &vec![]);
    assert_eq!(status.active_sessions.len(), 2);
    assert_eq!(status.active_sessions[0].session_id, "c");
    assert_eq!(status.active_sessions[0].timestamp, 200);
    assert_eq!(status.active_sessions[1].session_id, "a");
    assert_eq!(status.active_sessions[1].timestamp, 100);
    assert!(status.has_pending_input);
}

#[test]
fn the_store_wins_over_the_fallback() {
    let store = vec![record("a", "/tmp/proj", ClaudeSessionState::Working, 100)];
    let fallback = vec![record("fb", "/tmp/proj", ClaudeSessionState::Idle, 999)];
    let status = get_claude_status("/tmp/proj", &store, &fallback);
    assert_eq!(status.active_sessions.len(), 1);
    assert_eq!(status.active_sessions[0].session_id, "a");
    assert!(!status.has_pending_input);
}

#[test]
fn the_fallback_is_used_when_nothing_in_the_store_matches() {
    let store = vec![record("a", "/tmp/other", ClaudeSessionState::Working, 100)];
    let fallback = vec![record("fb", "/tmp/proj", ClaudeSessionState::Idle, 50)];
    let status = get_claude_status("/tmp/proj", &store, &fallback);
    assert_eq!(status.active_sessions.len(), 1);
    assert_eq!(status.active_sessions[0].session_id, "fb");
    assert!(status.has_pending_input);
}

#[test]
fn pending_input_follows_the_states() {
    for (state, pending) in [
        (ClaudeSessionState::Working, false),
        (ClaudeSessionState::WaitingForApproval, true),
        (ClaudeSessionState::WaitingForInput, true),
        (ClaudeSessionState::Idle, true),
        (ClaudeSessionState::Unknown, false),
    ] {
        let store = vec![record("a", "/p", state, 1)];
        let status = get_claude_status("/p", &store, &vec![]);
        assert_eq!(status.has_pending_input, pending);
    }
}

#[test]
fn trailing_separators_do_not_prevent_a_match() {
    let store = vec![record("a", "/tmp/proj/", ClaudeSessionState::Working, 1)];
    let status = get_claude_status("/tmp/proj", &store, &vec![]);
    assert_eq!(status.active_sessions.len(), 1);
}

#[test]
fn empty_project_paths_never_match() {
    let store = vec![record("a", "", ClaudeSessionState::Working, 1)];
    let status = get_claude_status("", &store, &vec![]);
    assert!(status.active_sessions.is_empty());
}

#[test]
fn all_statuses_are_keyed_by_the_queried_paths() {
    let store = vec![
        record("a", "/p1", ClaudeSessionState::Working, 10),
        record("b", "/p2", ClaudeSessionState::Idle, 20),
    ];
    let paths = vec!["/p1".to_string(), "/p2".to_string(), "/p3".to_string()];
    let fallbacks = vec![
        vec![],
        vec![],
        vec![record("fb", "/p3", ClaudeSessionState::WaitingForApproval, 5)],
    ];
    let all = get_all_claude_statuses(&paths, &store, &fallbacks);
    assert_eq!(all.len(), 3);
    assert_eq!(all[0].0, "/p1");
    assert_eq!(all[0].1.active_sessions.len(), 1);
    assert!(!all[0].1.has_pending_input);
    assert_eq!(all[1].0, "/p2");
    assert!(all[1].1.has_pending_input);
    assert_eq!(all[2].0, "/p3");
    assert_eq!(all[2].1.active_sessions[0].session_id, "fb");
    assert!(all[2].1.has_pending_input);
}
