//! The details of an execution.
use compas::dashboard::theme::{
    MARKER_COMPLETED, MARKER_FAILED, MARKER_QUEUED, MARKER_RUNNING, MARKER_TIMEOUT,
};
use compas::dashboard::views::log_viewer::{
    compute_error_card_height, exec_status_marker, is_failure_status, ExecutionDetailState, Tab,
};
use compas::store::ExecutionRow;
use compas::style::{plain, Line};

fn make_execution(status: &str) -> ExecutionRow {
    ExecutionRow {
        id: "exec-001".to_string(),
        thread_id: "t-1".to_string(),
        batch_id: None,
        agent_alias: "focused".to_string(),
        dispatch_message_id: None,
        status: status.to_string(),
        queued_at: 1_700_000_000,
        picked_up_at: Some(1_700_000_001),
        started_at: Some(1_700_000_002),
        finished_at: Some(1_700_000_100),
        duration_ms: Some(98_000),
        exit_code: Some(0),
        output_preview: None,
        error_detail: None,
        parsed_intent: Some("Test intent".to_string()),
        prompt_hash: None,
        attempt_number: 1,
        retry_after: None,
        error_category: None,
        original_dispatch_message_id: None,
        pid: None,
        eligible_at: None,
        eligible_reason: None,
    }
}

fn make_state(status: &str, lines: Vec<&str>) -> ExecutionDetailState {
    let execution = make_execution(status);
    let mut state = ExecutionDetailState::new(
        execution,
        None,
        Some("{\"in\":1}".to_string()),
        true,
        Vec::new(),
        false,
    );
    state.lines = lines.into_iter().map(str::to_string).collect();
    state
}

// ── is_running ───────────────────────────────────────────────────────────

#[test]
fn test_log_viewer_is_running_executing() {
    let s = make_state("executing", vec![]);
    assert!(s.is_running());
}

#[test]
fn test_log_viewer_is_not_running_completed() {
    let s = make_state("completed", vec![]);
    assert!(!s.is_running());
}

// ── Scroll ───────────────────────────────────────────────────────────────

#[test]
fn test_log_viewer_scroll_up_clamps_at_zero() {
    let mut s = make_state("completed", vec!["a"; 20]);
    s.set_tab(Tab::Output);
    s.tab_states[Tab::Output.index()].scroll_offset = 2;
    s.scroll_up(10);
    assert_eq!(s.tab_states[Tab::Output.index()].scroll_offset, 0);
}

#[test]
fn test_log_viewer_scroll_up_disables_follow() {
    let mut s = make_state("executing", vec!["a"; 20]);
    s.set_tab(Tab::Output);
    s.tab_states[Tab::Output.index()].follow = true;
    s.scroll_up(1);
    assert!(!s.tab_states[Tab::Output.index()].follow);
}

#[test]
fn test_log_viewer_toggle_follow_on() {
    let mut s = make_state("executing", vec!["a"; 5]);
    s.set_tab(Tab::Output);
    s.tab_states[Tab::Output.index()].scroll_offset = 0;
    s.tab_states[Tab::Output.index()].follow = false;
    s.toggle_follow();
    assert!(s.tab_states[Tab::Output.index()].follow);
    assert_eq!(s.tab_states[Tab::Output.index()].scroll_offset, usize::MAX);
}

// ── Tab navigation ───────────────────────────────────────────────────────

#[test]
fn test_tab_navigation_next() {
    let mut s = make_state("completed", vec!["a"]);
    s.active_tab = Tab::Input;
    s.next_tab();
    assert_eq!(s.active_tab, Tab::Output);
    s.next_tab();
    assert_eq!(s.active_tab, Tab::Timeline);
    s.next_tab();
    assert_eq!(s.active_tab, Tab::Input);
}

#[test]
fn test_tab_navigation_prev() {
    let mut s = make_state("completed", vec!["a"]);
    s.active_tab = Tab::Input;
    s.prev_tab();
    assert_eq!(s.active_tab, Tab::Timeline);
    s.prev_tab();
    assert_eq!(s.active_tab, Tab::Output);
    s.prev_tab();
    assert_eq!(s.active_tab, Tab::Input);
}

#[test]
fn test_set_tab() {
    let mut s = make_state("completed", vec!["a"]);
    s.set_tab(Tab::Timeline);
    assert_eq!(s.active_tab, Tab::Timeline);
    s.set_tab(Tab::Input);
    assert_eq!(s.active_tab, Tab::Input);
}

// ── Status-adaptive defaults ─────────────────────────────────────────────

#[test]
fn test_status_adaptive_defaults_failed() {
    let execution = make_execution("failed");
    let s = ExecutionDetailState::new(execution, None, None, false, Vec::new(), false);
    assert_eq!(s.active_tab, Tab::Output);
    assert!(!s.tab_states[Tab::Output.index()].follow);
    assert_eq!(s.tab_states[Tab::Output.index()].scroll_offset, usize::MAX);
}

#[test]
fn test_status_adaptive_defaults_executing() {
    let execution = make_execution("executing");
    let s = ExecutionDetailState::new(execution, None, None, false, Vec::new(), false);
    assert_eq!(s.active_tab, Tab::Output);
    assert!(s.tab_states[Tab::Output.index()].follow);
}

#[test]
fn test_status_adaptive_defaults_queued() {
    let execution = make_execution("queued");
    let s = ExecutionDetailState::new(execution, None, None, false, Vec::new(), false);
    assert_eq!(s.active_tab, Tab::Input);
    assert!(!s.tab_states[Tab::Input.index()].follow);
}

#[test]
fn test_status_adaptive_defaults_completed() {
    let execution = make_execution("completed");
    let s = ExecutionDetailState::new(execution, None, None, false, Vec::new(), false);
    assert_eq!(s.active_tab, Tab::Output);
    assert!(!s.tab_states[Tab::Output.index()].follow);
    assert_eq!(s.tab_states[Tab::Output.index()].scroll_offset, 0);
}

// ── Independent tab scroll ───────────────────────────────────────────────

#[test]
fn test_independent_tab_scroll() {
    let mut s = make_state("completed", vec!["a"; 20]);
    s.set_tab(Tab::Output);
    s.tab_states[Tab::Output.index()].scroll_offset = 5;
    s.set_tab(Tab::Timeline);
    assert_eq!(s.tab_states[Tab::Timeline.index()].scroll_offset, 0);
    assert_eq!(s.tab_states[Tab::Output.index()].scroll_offset, 5);
}

// ── Helpers ──────────────────────────────────────────────────────────────

#[test]
fn test_is_failure_status() {
    assert!(is_failure_status("failed"));
    assert!(is_failure_status("crashed"));
    assert!(is_failure_status("timed_out"));
    assert!(!is_failure_status("completed"));
    assert!(!is_failure_status("executing"));
}

#[test]
fn test_exec_status_marker_values() {
    assert_eq!(exec_status_marker("executing"), MARKER_RUNNING);
    assert_eq!(exec_status_marker("completed"), MARKER_COMPLETED);
    assert_eq!(exec_status_marker("failed"), MARKER_FAILED);
    assert_eq!(exec_status_marker("timed_out"), MARKER_TIMEOUT);
    assert_eq!(exec_status_marker("queued"), MARKER_QUEUED);
}

// ── Reading and measuring ─────────────────────────────────────

#[test]
fn new_bytes_of_the_log_become_lines() {
    let mut state = make_state("executing", vec!["one"]);
    state.append_log(&b"two\nthr\xffee\n".to_vec(), 20);
    assert_eq!(state.lines, ["one", "two", "thr\u{fffd}ee"]);
    assert_eq!(state.file_pos, 20);
}

#[test]
fn content_is_measured_as_it_is_wrapped() {
    let mut state = make_state("completed", vec![]);
    let content = vec![Line::of("aaa bbb ccc", plain()), Line::of("x", plain())];
    // Eleven columns in an area of seven: three inside the frame.
    let (card, rows) = state.measure(&content, 7, 30);
    assert_eq!((card, rows), (0, 4));
    assert_eq!(state.visible_rows, 23);
    let (_, rows) = state.measure(&content, 40, 30);
    assert_eq!(rows, 2);
}

#[test]
fn a_failure_has_a_card_of_its_height() {
    let mut state = make_state("failed", vec![]);
    state.execution.error_category = Some("net".to_string());
    state.execution.error_detail = None;
    assert_eq!(compute_error_card_height(&state.execution, 80), 3);
    state.execution.error_detail = Some("word ".repeat(100));
    assert_eq!(compute_error_card_height(&state.execution, 40), 6);
    let (card, _) = state.measure(&vec![], 84, 30);
    assert_eq!(card, 6);
}
