use woodeye::session::ClaudeSessionState;
use woodeye::store::{
    evicted_stems, is_status_file_name, kept_records, read_status_outcomes, read_status_record,
    StatusReadOutcome,
};

const NOW: i64 = 1_000_000;

fn fresh_working() -> String {
    format!(
        "{{\"project_path\":\"/tmp/proj\",\"state\":\"working\",\"last_tool\":\"Bash\",\"timestamp\":{}}}",
        NOW - 5
    )
}

#[test]
fn fresh_record_is_kept_with_its_fields() {
    match read_status_record("stem1".to_string(), fresh_working(), NOW) {
        StatusReadOutcome::Keep(rec) => {
            assert_eq!(rec.session_id, "stem1");
            assert_eq!(rec.project_path, "/tmp/proj");
            assert_eq!(rec.state, ClaudeSessionState::Working);
            assert_eq!(rec.timestamp, NOW - 5);
            assert_eq!(rec.last_tool.as_deref(), Some("Bash"));
            assert_eq!(rec.waiting_reason, None);
        },
        _ => panic!("expected the record to be kept"),
    }
}

#[test]
fn stale_record_is_evicted() {
    // Bash has a 30s threshold; 100s old is stale
    let content = format!(
        "{{\"project_path\":\"/tmp/proj\",\"state\":\"working\",\"last_tool\":\"Bash\",\"timestamp\":{}}}",
        NOW - 100
    );
    match read_status_record("stem2".to_string(), content, NOW) {
        StatusReadOutcome::Evict(stem) => assert_eq!(stem, "stem2"),
        _ => panic!("expected eviction"),
    }
}

#[test]
fn waiting_record_survives_what_would_stale_a_working_one() {
    let content = format!(
        "{{\"project_path\":\"/tmp/proj\",\"state\":\"waiting_for_input\",\"last_tool\":\"Bash\",\"timestamp\":{}}}",
        NOW - 100
    );
    match read_status_record("stem3".to_string(), content, NOW) {
        StatusReadOutcome::Keep(rec) => {
            assert_eq!(rec.state, ClaudeSessionState::WaitingForInput);
        },
        _ => panic!("expected the record to be kept"),
    }
}

#[test]
fn malformed_and_empty_path_records_are_skipped() {
    assert!(matches!(
        read_status_record("s".to_string(), "not json".to_string(), NOW),
        StatusReadOutcome::Skip
    ));
    assert!(matches!(
        read_status_record("s".to_string(), "{\"state\":\"working\"}".to_string(), NOW),
        StatusReadOutcome::Skip
    ));
    assert!(matches!(
        read_status_record(
            "s".to_string(),
            "{\"project_path\":\"\",\"state\":\"working\",\"timestamp\":1}".to_string(),
            NOW
        ),
        StatusReadOutcome::Skip
    ));
}

#[test]
fn missing_timestamp_reads_as_zero_and_is_never_stale() {
    let content = "{\"project_path\":\"/tmp/proj\",\"state\":\"working\"}".to_string();
    match read_status_record("s".to_string(), content, NOW) {
        StatusReadOutcome::Keep(rec) => {
            assert_eq!(rec.timestamp, 0);
        },
        _ => panic!("a zero timestamp must not be evicted"),
    }
}

#[test]
fn unknown_state_maps_to_unknown() {
    let content = format!(
        "{{\"project_path\":\"/tmp/proj\",\"state\":\"resting\",\"timestamp\":{}}}",
        NOW - 5
    );
    match read_status_record("s".to_string(), content, NOW) {
        StatusReadOutcome::Keep(rec) => assert_eq!(rec.state, ClaudeSessionState::Unknown),
        _ => panic!("expected the record to be kept"),
    }
}

#[test]
fn batch_outcomes_split_into_kept_and_evicted() {
    let files = vec![
        ("a".to_string(), fresh_working()),
        (
            "b".to_string(),
            format!(
                "{{\"project_path\":\"/p\",\"state\":\"working\",\"last_tool\":\"Bash\",\"timestamp\":{}}}",
                NOW - 500
            ),
        ),
        ("c".to_string(), "garbage".to_string()),
    ];
    let outcomes = read_status_outcomes(&files, NOW);
    assert_eq!(outcomes.len(), 3);
    let kept = kept_records(&outcomes);
    assert_eq!(kept.len(), 1);
    assert_eq!(kept[0].session_id, "a");
    let evicted = evicted_stems(&outcomes);
    assert_eq!(evicted, vec!["b".to_string()]);
}

#[test]
fn status_file_names_exclude_the_reserved_files() {
    assert!(is_status_file_name("0123abcd.json"));
    assert!(!is_status_file_name("names.json"));
    assert!(!is_status_file_name("hooks_backup.json"));
    assert!(!is_status_file_name("readme.txt"));
    assert!(!is_status_file_name("json"));
}
