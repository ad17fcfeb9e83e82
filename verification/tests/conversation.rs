//! The conversation of a thread.
use compas::clock::format_timestamp;
use compas::dashboard::theme::{ACCENT, TEXT_DIM};
use compas::dashboard::views::conversation::{
    build_conversation_lines, build_items, intent_color, item_timestamp, push_execution_completed_line,
    push_execution_started_line, push_message_lines, ConversationViewState,
};
use compas::dashboard::views::markdown::{
    markdown_to_lines, markdown_to_lines_standalone, render_markdown, MdEvent, MdTag,
};
use compas::store::{ExecutionRow, MessageRow};
use compas::style::{Color, Line};

/// The time at which the lines are drawn.
const NOW: i64 = 1_700_100_000;

fn make_message(id: i64, from_alias: &str, intent: &str, body: &str) -> MessageRow {
    MessageRow {
        id,
        thread_id: "t-1".to_string(),
        from_alias: from_alias.to_string(),
        to_alias: "orch-dev-2".to_string(),
        intent: intent.to_string(),
        body: body.to_string(),
        batch_id: None,
        created_at: 1_700_000_000 + id * 60,
    }
}

fn make_execution(id: &str, agent: &str, status: &str, queued_at: i64) -> ExecutionRow {
    ExecutionRow {
        id: id.to_string(),
        thread_id: "t-1".to_string(),
        batch_id: None,
        agent_alias: agent.to_string(),
        dispatch_message_id: None,
        status: status.to_string(),
        queued_at,
        picked_up_at: None,
        started_at: Some(queued_at + 1),
        finished_at: if status == "completed" {
            Some(queued_at + 120)
        } else {
            None
        },
        duration_ms: if status == "completed" {
            Some(120_000)
        } else {
            None
        },
        exit_code: None,
        output_preview: None,
        error_detail: None,
        parsed_intent: None,
        prompt_hash: None,
        attempt_number: 1,
        retry_after: None,
        error_category: None,
        original_dispatch_message_id: None,
        pid: None,
        eligible_at: None,
        eligible_reason: None,
    }
}

#[test]
fn test_conversation_state_new_sets_last_message_id() {
    let msgs = vec![make_message(1, "operator", "dispatch", "hello")];
    let state =
        ConversationViewState::new("t-1".to_string(), None, "Active".to_string(), msgs, vec![]);
    assert_eq!(state.last_message_id, Some(1));
}

#[test]
fn test_conversation_state_new_empty_last_message_id_none() {
    let state = ConversationViewState::new(
        "t-1".to_string(),
        None,
        "Active".to_string(),
        vec![],
        vec![],
    );
    assert_eq!(state.last_message_id, None);
}

#[test]
fn test_conversation_state_follow_mode_default_true() {
    let state = ConversationViewState::new(
        "t-1".to_string(),
        None,
        "Active".to_string(),
        vec![],
        vec![],
    );
    assert!(state.follow_mode);
    assert_eq!(state.scroll_offset, usize::MAX);
}

#[test]
fn test_conversation_state_scroll_up_disables_follow() {
    let mut state = ConversationViewState::new(
        "t-1".to_string(),
        None,
        "Active".to_string(),
        vec![],
        vec![],
    );
    state.scroll_up(5);
    assert!(!state.follow_mode);
}

#[test]
fn test_conversation_state_scroll_up_clamps_at_zero() {
    let mut state = ConversationViewState::new(
        "t-1".to_string(),
        None,
        "Active".to_string(),
        vec![],
        vec![],
    );
    state.follow_mode = false;
    state.scroll_offset = 3;
    state.scroll_up(10);
    assert_eq!(state.scroll_offset, 0);
}

#[test]
fn test_conversation_state_toggle_follow_enables_and_scrolls_bottom() {
    let mut state = ConversationViewState::new(
        "t-1".to_string(),
        None,
        "Active".to_string(),
        vec![],
        vec![],
    );
    state.follow_mode = false;
    state.scroll_offset = 0;
    state.toggle_follow();
    assert!(state.follow_mode);
    assert_eq!(state.scroll_offset, usize::MAX);
}

#[test]
fn test_conversation_state_toggle_follow_disables() {
    let mut state = ConversationViewState::new(
        "t-1".to_string(),
        None,
        "Active".to_string(),
        vec![],
        vec![],
    );
    assert!(state.follow_mode);
    state.toggle_follow();
    assert!(!state.follow_mode);
}

#[test]
fn test_conversation_state_is_active() {
    let mut state = ConversationViewState::new(
        "t-1".to_string(),
        None,
        "Active".to_string(),
        vec![],
        vec![],
    );
    assert!(state.is_active());
    state.thread_status = "Completed".to_string();
    assert!(!state.is_active());
}

#[test]
fn test_build_items_empty() {
    let items = build_items(&[], &[]);
    assert!(items.is_empty());
}

#[test]
fn test_build_items_sorted_by_timestamp() {
    let msgs = vec![
        make_message(2, "operator", "dispatch", "second"),
        make_message(1, "operator", "dispatch", "first"),
    ];
    let items = build_items(&msgs, &[]);
    // Should be sorted: first (created_at = 1_700_000_060) before second (1_700_000_120)
    assert_eq!(items.len(), 2);
    assert!(item_timestamp(&items[0]) <= item_timestamp(&items[1]));
}

#[test]
fn test_build_items_interleaves_executions() {
    let msgs = vec![make_message(1, "operator", "dispatch", "go")];
    let execs = vec![make_execution(
        "exec-1",
        "agent",
        "completed",
        1_700_000_000 + 90,
    )];
    let items = build_items(&msgs, &execs);
    // msg at t=60, exec_started at t=91, exec_completed at t=210
    assert_eq!(items.len(), 3);
}

#[test]
fn test_format_timestamp_returns_string() {
    // Just verify it produces a non-empty, non-error string for a valid ts
    let ts = 1_700_000_000i64;
    let result = format_timestamp(ts, NOW);
    assert!(!result.is_empty());
    assert_ne!(result, "-");
}

#[test]
fn test_intent_color_dispatch() {
    assert_eq!(intent_color("dispatch"), Color::Cyan);
}

#[test]
fn test_intent_color_review_request() {
    assert_eq!(intent_color("review-request"), Color::Yellow);
}

#[test]
fn test_intent_color_changes_requested() {
    assert_eq!(intent_color("changes-requested"), Color::Red);
}

#[test]
fn test_intent_color_error() {
    assert_eq!(intent_color("error"), Color::Red);
}

#[test]
fn test_intent_color_status_update() {
    assert_eq!(intent_color("status-update"), Color::DarkGray);
}

#[test]
fn test_push_message_lines_operator_header() {
    let msg = make_message(1, "operator", "dispatch", "hello");
    let mut lines: Vec<Line> = Vec::new();
    push_message_lines(&msg, NOW, &mut lines);
    // First line is header: "operator → orch-dev-2  [dispatch]  <ts>"
    let header_text: String = lines[0].spans.iter().map(|s| s.text.as_str()).collect();
    assert!(header_text.contains("operator"));
    assert!(header_text.contains("orch-dev-2"));
    assert!(header_text.contains("[dispatch]"));
}

#[test]
fn test_push_message_lines_body_with_prefix() {
    let msg = make_message(1, "agent", "review-request", "line one\nline two");
    let mut lines: Vec<Line> = Vec::new();
    push_message_lines(&msg, NOW, &mut lines);
    // Markdown treats "line one\nline two" as a single paragraph with soft break.
    // Lines: header, "│ line one line two" (no borders — CONV-3 removed them)
    assert_eq!(lines.len(), 2);
    let body_text: String = lines[1].spans.iter().map(|s| s.text.as_str()).collect();
    assert!(body_text.contains("line one"));
    assert!(body_text.contains("line two"));
}

#[test]
fn test_push_execution_started_line_format() {
    let mut lines: Vec<Line> = Vec::new();
    push_execution_started_line("orch-dev-2", 1_700_000_000, NOW, &mut lines);
    assert_eq!(lines.len(), 1);
    let text: String = lines[0].spans.iter().map(|s| s.text.as_str()).collect();
    assert!(text.contains("▶"));
    assert!(text.contains("orch-dev-2"));
}

#[test]
fn test_push_execution_completed_line_success() {
    let mut lines: Vec<Line> = Vec::new();
    push_execution_completed_line("agent", 1_700_000_000, Some(5_000), true, NOW, &mut lines);
    let text: String = lines[0].spans.iter().map(|s| s.text.as_str()).collect();
    assert!(text.contains("✓"));
    assert!(text.contains("Completed"));
}

#[test]
fn test_push_execution_completed_line_failure() {
    let mut lines: Vec<Line> = Vec::new();
    push_execution_completed_line("agent", 1_700_000_000, None, false, NOW, &mut lines);
    let text: String = lines[0].spans.iter().map(|s| s.text.as_str()).collect();
    assert!(text.contains("✗"));
    assert!(text.contains("Failed"));
}

// ── Markdown rendering tests ──────────────────────────────────────────

/// Helper: collect all span text from markdown_to_lines output.
fn md_text(body: &str) -> Vec<String> {
    markdown_to_lines(body, TEXT_DIM)
        .iter()
        .map(|line| {
            line.spans
                .iter()
                .map(|s| s.text.as_str())
                .collect::<String>()
        })
        .collect()
}

#[test]
fn test_markdown_plain_text() {
    let lines = md_text("hello world");
    assert_eq!(lines.len(), 1);
    assert!(lines[0].contains("hello world"));
}

#[test]
fn test_markdown_empty_body() {
    let lines = markdown_to_lines("", TEXT_DIM);
    assert!(lines.is_empty());
}

#[test]
fn test_markdown_heading() {
    let lines = md_text("## Summary");
    assert_eq!(lines.len(), 1);
    assert!(lines[0].contains("Summary"));
}

#[test]
fn test_markdown_heading_has_bold_accent_style() {
    let lines = markdown_to_lines("## Summary", TEXT_DIM);
    // Skip prefix span (index 0), check the text span style.
    let text_span = &lines[0].spans[1];
    assert_eq!(text_span.style.fg, Some(ACCENT));
    assert!(text_span.style.bold);
}

#[test]
fn test_markdown_bold_text() {
    let lines = markdown_to_lines("**bold**", TEXT_DIM);
    // Spans: prefix, bold text
    let text_span = &lines[0].spans[1];
    assert!(text_span.style.bold);
    assert_eq!(text_span.text.as_str(), "bold");
}

#[test]
fn test_markdown_italic_text() {
    let lines = markdown_to_lines("*italic*", TEXT_DIM);
    let text_span = &lines[0].spans[1];
    assert!(text_span.style.italic);
    assert_eq!(text_span.text.as_str(), "italic");
}

#[test]
fn test_markdown_inline_code() {
    let lines = markdown_to_lines("`code`", TEXT_DIM);
    let code_span = &lines[0].spans[1];
    assert_eq!(code_span.style.fg, Some(Color::Cyan));
    assert_eq!(code_span.text.as_str(), "code");
}

#[test]
fn test_markdown_code_block() {
    let lines = md_text("```\nfn main() {}\n```");
    // Should have at least one line with code content.
    let has_code = lines.iter().any(|l| l.contains("fn main()"));
    assert!(has_code);
}

#[test]
fn test_markdown_bullet_list() {
    let body = "- item one\n- item two";
    let lines = md_text(body);
    let has_bullet = lines
        .iter()
        .any(|l| l.contains("•") && l.contains("item one"));
    assert!(has_bullet, "Expected bullet prefix: {:?}", lines);
}

#[test]
fn test_markdown_thematic_break() {
    let lines = md_text("above\n\n---\n\nbelow");
    let has_rule = lines.iter().any(|l| l.contains("────"));
    assert!(has_rule, "Expected thematic break line: {:?}", lines);
}

#[test]
fn test_markdown_all_lines_have_prefix() {
    let body = "## Header\n\nSome **bold** text.\n\n- item\n\n```\ncode\n```\n\n---";
    let lines = markdown_to_lines(body, TEXT_DIM);
    for (i, line) in lines.iter().enumerate() {
        assert!(!line.spans.is_empty(), "Line {} should not be empty", i);
        assert_eq!(
            line.spans[0].text.as_str(),
            "│ ",
            "Line {} should start with │ prefix",
            i
        );
    }
}

#[test]
fn test_markdown_no_panic_on_malformed() {
    // Various edge cases that should not panic.
    let _ = markdown_to_lines("```", TEXT_DIM);
    let _ = markdown_to_lines("**unclosed bold", TEXT_DIM);
    let _ = markdown_to_lines("# ", TEXT_DIM);
    let _ = markdown_to_lines("---\n---\n---", TEXT_DIM);
    let _ = markdown_to_lines("```\n```\n```", TEXT_DIM);
}

// ── Whole conversations and standalone Markdown ───────────────────────────────

fn shown(lines: &[Line]) -> Vec<String> {
    lines.iter().map(|l| l.spans.iter().map(|s| s.text.as_str()).collect()).collect()
}

#[test]
fn an_empty_conversation_says_so() {
    let state = ConversationViewState::new(
        "t-1".to_string(),
        None,
        "Active".to_string(),
        vec![],
        vec![],
    );
    assert_eq!(shown(&build_conversation_lines(&state, 80, NOW)), ["  No messages."]);
}

#[test]
fn a_conversation_is_shown_in_order_of_time() {
    let messages =
        vec![make_message(2, "dev", "status-update", "second"), make_message(1, "operator", "dispatch", "first")];
    let state = ConversationViewState::new(
        "t-1".to_string(),
        None,
        "Active".to_string(),
        messages,
        vec![make_execution("e-1", "dev", "executing", 1_700_000_090)],
    );
    let lines = shown(&build_conversation_lines(&state, 80, NOW));
    let at = |word: &str| lines.iter().position(|l| l.contains(word)).unwrap();
    assert!(at("first") < at("second"));
    assert!(lines.iter().filter(|l| l.contains("first")).count() == 1);
}

#[test]
fn standalone_markdown_has_no_border() {
    assert_eq!(shown(&markdown_to_lines_standalone("plain *text*")), ["plain text"]);
    let bordered = shown(&markdown_to_lines("plain *text*", TEXT_DIM));
    assert!(bordered[0].ends_with("plain text"));
    assert!(bordered[0].len() > "plain text".len());
}

#[test]
fn rendering_follows_the_events() {
    let events = vec![
        MdEvent::Open(MdTag::Paragraph),
        MdEvent::Text("a".to_string()),
        MdEvent::HardBreak,
        MdEvent::Text("b".to_string()),
        MdEvent::Close(MdTag::Paragraph),
    ];
    assert_eq!(shown(&render_markdown(&events, None)), ["a", "b"]);
}

#[test]
fn a_conversation_is_measured_with_its_frame() {
    let mut state = ConversationViewState::new(
        "t-1".to_string(),
        None,
        "Active".to_string(),
        vec![],
        vec![],
    );
    let content = markdown_to_lines_standalone("one two three");
    // One row of text, and two rows of the frame; one of the three fits.
    state.measure(&content, 40, 3);
    assert_eq!((state.visible_rows, state.scroll_offset), (1, 2));
    state.measure(&content, 4, 3);
    assert_eq!(state.scroll_offset, 0);
}
