use woodeye::staleness::{get_stale_threshold_for_state, get_stale_threshold_for_tool, is_stale};

#[test]
fn zero_timestamp_is_never_stale() {
    assert!(!is_stale(1_000_000, 0, 10));
    assert!(!is_stale(i64::MAX, 0, 0));
    assert!(!is_stale(0, 0, 60));
    assert!(!is_stale(5, -7, 60));
}

#[test]
fn quick_tools_threshold_is_ten() {
    assert_eq!(get_stale_threshold_for_tool(Some("TodoWrite")), 10);
    assert_eq!(get_stale_threshold_for_tool(Some("ExitPlanMode")), 10);
    assert_eq!(get_stale_threshold_for_tool(Some("EnterPlanMode")), 10);
}

#[test]
fn default_tool_threshold_is_sixty() {
    assert_eq!(get_stale_threshold_for_tool(None), 60);
    assert_eq!(get_stale_threshold_for_tool(Some("SomethingNew")), 60);
}

#[test]
fn file_and_shell_tools_threshold_is_thirty() {
    assert_eq!(get_stale_threshold_for_tool(Some("Read")), 30);
    assert_eq!(get_stale_threshold_for_tool(Some("Write")), 30);
    assert_eq!(get_stale_threshold_for_tool(Some("Edit")), 30);
    assert_eq!(get_stale_threshold_for_tool(Some("Glob")), 30);
    assert_eq!(get_stale_threshold_for_tool(Some("Grep")), 30);
    assert_eq!(get_stale_threshold_for_tool(Some("NotebookEdit")), 30);
    assert_eq!(get_stale_threshold_for_tool(Some("Bash")), 30);
    assert_eq!(get_stale_threshold_for_tool(Some("KillShell")), 30);
}

#[test]
fn network_and_agent_tools_thresholds() {
    assert_eq!(get_stale_threshold_for_tool(Some("WebFetch")), 120);
    assert_eq!(get_stale_threshold_for_tool(Some("WebSearch")), 120);
    assert_eq!(get_stale_threshold_for_tool(Some("Task")), 180);
    assert_eq!(get_stale_threshold_for_tool(Some("TaskOutput")), 180);
}

#[test]
fn name_fragments_pick_a_class() {
    assert_eq!(get_stale_threshold_for_tool(Some("PlaywrightClick")), 180);
    assert_eq!(get_stale_threshold_for_tool(Some("OpenBrowserTab")), 180);
    assert_eq!(get_stale_threshold_for_tool(Some("mcp__server__tool")), 120);
    assert_eq!(get_stale_threshold_for_tool(Some("SomeMCPTool")), 120);
}

#[test]
fn working_webfetch_fresh_at_100_stale_at_130() {
    let threshold = get_stale_threshold_for_state("working", Some("WebFetch"));
    assert_eq!(threshold, 120);
    let now = 10_000;
    assert!(!is_stale(now, now - 100, threshold));
    assert!(is_stale(now, now - 130, threshold));
}

#[test]
fn idle_fresh_at_590_stale_at_610_whatever_the_tool() {
    let now = 100_000;
    for tool in [None, Some("TodoWrite"), Some("WebFetch"), Some("Task")] {
        let threshold = get_stale_threshold_for_state("idle", tool);
        assert_eq!(threshold, 600);
        assert!(!is_stale(now, now - 590, threshold));
        assert!(is_stale(now, now - 610, threshold));
    }
}

#[test]
fn waiting_states_use_the_long_threshold() {
    assert_eq!(get_stale_threshold_for_state("waiting_for_approval", Some("Read")), 600);
    assert_eq!(get_stale_threshold_for_state("waiting_for_input", None), 600);
    assert_eq!(get_stale_threshold_for_state("unknown", Some("Read")), 30);
    assert_eq!(get_stale_threshold_for_state("anything_else", None), 60);
}

#[test]
fn staleness_boundary_is_strict() {
    // age exactly equal to the threshold is still fresh
    assert!(!is_stale(1000, 940, 60));
    assert!(is_stale(1001, 940, 60));
}
