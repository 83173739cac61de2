use woodeye::session::ClaudeSessionState;
use woodeye::transcript::{
    parse_jsonl_for_state, scan_transcript, transcript_project_path, JsonlParseResult,
    TranscriptScanAction,
};

// 2024-01-01T00:00:00Z
const T0: i64 = 1_704_067_200;

fn user_line(ts: &str) -> String {
    format!(
        "{{\"type\":\"user\",\"timestamp\":\"{}\",\"message\":{{\"role\":\"user\",\"content\":[]}}}}",
        ts
    )
}

fn assistant_line(ts: &str, stop_reason: &str, tool: Option<&str>) -> String {
    let content = match tool {
        Some(name) => format!("[{{\"type\":\"tool_use\",\"name\":\"{}\"}}]", name),
        None => "[{\"type\":\"text\"}]".to_string(),
    };
    format!(
        "{{\"type\":\"assistant\",\"timestamp\":\"{}\",\"message\":{{\"role\":\"assistant\",\"stop_reason\":\"{}\",\"content\":{}}}}}",
        ts, stop_reason, content
    )
}

#[test]
fn a_user_message_means_working() {
    let lines = vec![
        "{\"type\":\"user\",\"cwd\":\"/tmp/proj\",\"timestamp\":\"2024-01-01T00:00:00Z\",\"message\":{\"role\":\"user\"}}".to_string(),
    ];
    match parse_jsonl_for_state(&lines) {
        JsonlParseResult::Active(state, tool, ts) => {
            assert_eq!(state, ClaudeSessionState::Working);
            assert_eq!(tool, None);
            assert_eq!(ts, T0);
        },
        _ => panic!("expected an active session"),
    }
}

#[test]
fn tool_use_means_waiting_for_approval_and_names_the_tool() {
    let lines = vec![
        user_line("2024-01-01T00:00:00Z"),
        assistant_line("2024-06-15T12:30:45+02:00", "tool_use", Some("Bash")),
    ];
    match parse_jsonl_for_state(&lines) {
        JsonlParseResult::Active(state, tool, ts) => {
            assert_eq!(state, ClaudeSessionState::WaitingForApproval);
            assert_eq!(tool.as_deref(), Some("Bash"));
            assert_eq!(ts, 1_718_447_445);
        },
        _ => panic!("expected an active session"),
    }
}

#[test]
fn end_turn_means_waiting_for_input() {
    let lines = vec![
        user_line("2024-01-01T00:00:00Z"),
        assistant_line("2024-01-01T00:00:10Z", "end_turn", None),
    ];
    match parse_jsonl_for_state(&lines) {
        JsonlParseResult::Active(state, _, ts) => {
            assert_eq!(state, ClaudeSessionState::WaitingForInput);
            assert_eq!(ts, T0 + 10);
        },
        _ => panic!("expected an active session"),
    }
}

#[test]
fn another_stop_reason_means_still_working() {
    let lines = vec![assistant_line("2024-01-01T00:00:00Z", "max_tokens", None)];
    match parse_jsonl_for_state(&lines) {
        JsonlParseResult::Active(state, _, _) => {
            assert_eq!(state, ClaudeSessionState::Working);
        },
        _ => panic!("expected an active session"),
    }
}

#[test]
fn a_termination_marker_ends_the_session() {
    let lines = vec![
        user_line("2024-01-01T00:00:00Z"),
        "{\"type\":\"summary\"}".to_string(),
    ];
    assert!(matches!(parse_jsonl_for_state(&lines), JsonlParseResult::SessionEnded));
}

#[test]
fn no_timestamp_or_no_state_is_unknown() {
    let no_ts = vec![
        "{\"type\":\"user\",\"message\":{\"role\":\"user\"}}".to_string(),
    ];
    assert!(matches!(parse_jsonl_for_state(&no_ts), JsonlParseResult::Unknown));
    let no_msg = vec![
        "{\"type\":\"system\",\"timestamp\":\"2024-01-01T00:00:00Z\"}".to_string(),
    ];
    assert!(matches!(parse_jsonl_for_state(&no_msg), JsonlParseResult::Unknown));
    let empty: Vec<String> = Vec::new();
    assert!(matches!(parse_jsonl_for_state(&empty), JsonlParseResult::Unknown));
}

#[test]
fn unparseable_lines_are_skipped_not_fatal() {
    let lines = vec![
        "{{{{ not json".to_string(),
        user_line("2024-01-01T00:00:00Z"),
        "also not json".to_string(),
    ];
    assert!(matches!(parse_jsonl_for_state(&lines), JsonlParseResult::Active(..)));
}

#[test]
fn only_the_last_ten_lines_are_scanned() {
    let mut lines = vec!["{\"type\":\"summary\"}".to_string()];
    for _ in 0..10 {
        lines.push(user_line("2024-01-01T00:00:00Z"));
    }
    // the marker is the eleventh-from-last line: outside the window
    assert!(matches!(parse_jsonl_for_state(&lines), JsonlParseResult::Active(..)));
    let mut lines2 = vec!["{\"type\":\"summary\"}".to_string()];
    for _ in 0..9 {
        lines2.push(user_line("2024-01-01T00:00:00Z"));
    }
    assert!(matches!(parse_jsonl_for_state(&lines2), JsonlParseResult::SessionEnded));
}

#[test]
fn the_first_line_names_the_project_path() {
    let lines = vec![
        "{\"type\":\"user\",\"cwd\":\"/tmp/proj\",\"message\":{\"role\":\"user\"}}".to_string(),
        user_line("2024-01-01T00:00:00Z"),
    ];
    assert_eq!(transcript_project_path(&lines).as_deref(), Some("/tmp/proj"));
    let no_cwd = vec![user_line("2024-01-01T00:00:00Z")];
    assert_eq!(transcript_project_path(&no_cwd), None);
}

#[test]
fn a_matching_fresh_transcript_becomes_a_record() {
    let now = T0 + 100;
    let lines = vec![
        "{\"type\":\"user\",\"cwd\":\"/tmp/proj/\",\"timestamp\":\"2024-01-01T00:00:00Z\",\"message\":{\"role\":\"user\"}}".to_string(),
        assistant_line("2024-01-01T00:01:00Z", "end_turn", None),
    ];
    match scan_transcript("sess-1".to_string(), &lines, "/tmp/proj", now) {
        TranscriptScanAction::AddSession(rec) => {
            assert_eq!(rec.session_id, "sess-1");
            assert_eq!(rec.project_path, "/tmp/proj/");
            assert_eq!(rec.state, ClaudeSessionState::WaitingForInput);
            assert_eq!(rec.timestamp, T0 + 60);
            assert_eq!(rec.waiting_reason, None);
        },
        _ => panic!("expected a fallback record"),
    }
}

#[test]
fn a_terminated_transcript_asks_for_cleanup_even_when_fresh() {
    let now = T0 + 10;
    let lines = vec![
        "{\"type\":\"user\",\"cwd\":\"/tmp/proj\",\"timestamp\":\"2024-01-01T00:00:00Z\",\"message\":{\"role\":\"user\"}}".to_string(),
        "{\"type\":\"summary\"}".to_string(),
    ];
    match scan_transcript("sess-1".to_string(), &lines, "/tmp/proj", now) {
        TranscriptScanAction::CleanupStatusFile(path) => assert_eq!(path, "/tmp/proj"),
        _ => panic!("expected a cleanup instruction"),
    }
}

#[test]
fn another_paths_transcript_is_ignored() {
    let now = T0 + 10;
    let lines = vec![
        "{\"type\":\"user\",\"cwd\":\"/tmp/other\",\"timestamp\":\"2024-01-01T00:00:00Z\",\"message\":{\"role\":\"user\"}}".to_string(),
    ];
    assert!(matches!(
        scan_transcript("s".to_string(), &lines, "/tmp/proj", now),
        TranscriptScanAction::Ignore
    ));
}

#[test]
fn a_stale_transcript_is_ignored() {
    // working via user message, default threshold 60s, 1000s old
    let now = T0 + 1000;
    let lines = vec![
        "{\"type\":\"user\",\"cwd\":\"/tmp/proj\",\"timestamp\":\"2024-01-01T00:00:00Z\",\"message\":{\"role\":\"user\"}}".to_string(),
    ];
    assert!(matches!(
        scan_transcript("s".to_string(), &lines, "/tmp/proj", now),
        TranscriptScanAction::Ignore
    ));
}
