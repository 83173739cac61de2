use woodeye::debug::get_debug_info;
use woodeye::listing::{list_sessions, lookup_name, read_session_names};
use woodeye::session::{state_from_name, state_name, needs_input, ClaudeSessionState};

fn session_json(path: &str, id: &str, state: &str, ts: u64, name: Option<&str>) -> String {
    match name {
        Some(n) => format!(
            "{{\"project_path\":\"{}\",\"session_id\":\"{}\",\"state\":\"{}\",\"timestamp\":{},\"name\":\"{}\"}}",
            path, id, state, ts, n
        ),
        None => format!(
            "{{\"project_path\":\"{}\",\"session_id\":\"{}\",\"state\":\"{}\",\"timestamp\":{}}}",
            path, id, state, ts
        ),
    }
}

#[test]
fn listing_merges_names_and_sorts_newest_first() {
    let files = vec![
        ("a.json".to_string(), session_json("/p1", "a", "working", 100, None)),
        ("names.json".to_string(), "{\"a\":\"ignored\"}".to_string()),
        ("hooks_backup.json".to_string(), "{}".to_string()),
        ("b.json".to_string(), session_json("/p2", "b", "idle", 300, Some("kept"))),
        ("junk.txt".to_string(), session_json("/p3", "x", "idle", 999, None)),
        ("c.json".to_string(), "not json".to_string()),
    ];
    let names = vec![
        ("a".to_string(), "first prompt".to_string()),
        ("b".to_string(), "unused".to_string()),
    ];
    let sessions = list_sessions(&files, &names);
    assert_eq!(sessions.len(), 2);
    assert_eq!(sessions[0].session_id, "b");
    assert_eq!(sessions[0].timestamp, 300);
    assert_eq!(sessions[0].name.as_deref(), Some("kept"));
    assert_eq!(sessions[1].session_id, "a");
    assert_eq!(sessions[1].name.as_deref(), Some("first prompt"));
    assert_eq!(sessions[1].raw_json, files[0].1);
    assert_eq!(sessions[1].state, "working");
}

#[test]
fn the_names_index_parses_and_looks_up() {
    let names = read_session_names("{\"s1\":\"alpha\",\"s2\":\"beta\"}");
    assert_eq!(names.len(), 2);
    assert_eq!(lookup_name(&names, "s1").as_deref(), Some("alpha"));
    assert_eq!(lookup_name(&names, "s2").as_deref(), Some("beta"));
    assert_eq!(lookup_name(&names, "s3"), None);
    assert!(read_session_names("not json").is_empty());
    assert!(read_session_names("{\"s1\":5}").is_empty());
}

#[test]
fn debug_info_reports_age_threshold_and_staleness() {
    let now: i64 = 10_000;
    let files = vec![
        (
            "a.json".to_string(),
            format!(
                "{{\"project_path\":\"/p\",\"state\":\"working\",\"last_tool\":\"Bash\",\"timestamp\":{}}}",
                now - 100
            ),
        ),
        ("bad.json".to_string(), "nope".to_string()),
        (
            "b.json".to_string(),
            format!(
                "{{\"project_path\":\"/q\",\"state\":\"idle\",\"timestamp\":{}}}",
                now - 10
            ),
        ),
    ];
    let infos = get_debug_info(&files, now);
    assert_eq!(infos.len(), 2);
    assert_eq!(infos[0].filename, "b.json");
    assert_eq!(infos[0].age_seconds, 10);
    assert_eq!(infos[0].stale_threshold, 600);
    assert!(!infos[0].is_stale);
    assert_eq!(infos[1].filename, "a.json");
    assert_eq!(infos[1].age_seconds, 100);
    assert_eq!(infos[1].stale_threshold, 30);
    assert!(infos[1].is_stale);
}

#[test]
fn debug_info_treats_an_unset_timestamp_as_age_zero() {
    let files = vec![(
        "a.json".to_string(),
        "{\"project_path\":\"/p\",\"state\":\"working\",\"timestamp\":0}".to_string(),
    )];
    let infos = get_debug_info(&files, 99_999);
    assert_eq!(infos.len(), 1);
    assert_eq!(infos[0].age_seconds, 0);
    assert!(!infos[0].is_stale);
}

#[test]
fn state_names_round_trip() {
    for (name, state) in [
        ("working", ClaudeSessionState::Working),
        ("waiting_for_approval", ClaudeSessionState::WaitingForApproval),
        ("waiting_for_input", ClaudeSessionState::WaitingForInput),
        ("idle", ClaudeSessionState::Idle),
    ] {
        assert_eq!(state_from_name(name), state);
        assert_eq!(state_name(state), name);
    }
    assert_eq!(state_from_name("whatever"), ClaudeSessionState::Unknown);
    assert_eq!(state_name(ClaudeSessionState::Unknown), "unknown");
}

#[test]
fn pending_input_states() {
    assert!(!needs_input(ClaudeSessionState::Working));
    assert!(needs_input(ClaudeSessionState::WaitingForApproval));
    assert!(needs_input(ClaudeSessionState::WaitingForInput));
    assert!(needs_input(ClaudeSessionState::Idle));
    assert!(!needs_input(ClaudeSessionState::Unknown));
}
