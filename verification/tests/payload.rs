//! Payloads and log lines.
use compas::dashboard::views::payload::{
    extract_content_from_log_line, format_log_line, format_payload_lines, JsonViewMode,
};

#[test]
fn test_format_payload_pretty_json() {
    let out = format_payload_lines("{\"a\":1}", JsonViewMode::RawPretty, 10);
    assert_eq!(out[0], "{");
    assert!(out.iter().any(|l| l.contains("\"a\": 1")));
}

#[test]
fn test_format_payload_humanized_json() {
    let out = format_payload_lines(
        "{\"meta\":{\"agent\":\"focused\"},\"ok\":true}",
        JsonViewMode::Humanized,
        10,
    );
    assert!(out.contains(&"meta.agent: focused".to_string()));
    assert!(out.contains(&"ok: true".to_string()));
}

#[test]
fn test_format_payload_invalid_json_falls_back() {
    let out = format_payload_lines("{bad", JsonViewMode::Humanized, 10);
    assert_eq!(out, vec!["{bad"]);
}

#[test]
fn test_format_payload_truncates() {
    let out = format_payload_lines("a\nb\nc\nd", JsonViewMode::RawPretty, 3);
    assert_eq!(out.len(), 3);
    assert_eq!(out[2], "... (truncated)");
}

#[test]
fn test_format_log_line_pretty_json() {
    let out = format_log_line("{\"ok\":true}", JsonViewMode::RawPretty);
    assert!(out.len() > 1);
}

// ── extract_content_from_log_line tests ─────────────────────────────────

#[test]
fn test_extract_content_assistant_text() {
    let line = r#"{"type":"assistant","message":{"content":[{"type":"text","text":"Hello world\nSecond line"}]}}"#;
    let result = extract_content_from_log_line(line).unwrap();
    assert_eq!(result, vec!["Hello world", "Second line"]);
}

#[test]
fn test_extract_content_assistant_thinking_only_skipped() {
    let line = r#"{"type":"assistant","message":{"content":[{"type":"thinking","thinking":"Let me think..."}]}}"#;
    assert!(extract_content_from_log_line(line).is_none());
}

#[test]
fn test_extract_content_assistant_tool_use_only_skipped() {
    let line = r#"{"type":"assistant","message":{"content":[{"type":"tool_use","name":"Bash","input":{"command":"ls"}}]}}"#;
    assert!(extract_content_from_log_line(line).is_none());
}

#[test]
fn test_extract_content_assistant_mixed_extracts_text_only() {
    let line = r#"{"type":"assistant","message":{"content":[{"type":"thinking","thinking":"hmm"},{"type":"text","text":"The answer is 42"},{"type":"tool_use","name":"Write","input":{}}]}}"#;
    let result = extract_content_from_log_line(line).unwrap();
    assert_eq!(result, vec!["The answer is 42"]);
}

#[test]
fn test_extract_content_result_event() {
    let line = r#"{"type":"result","subtype":"success","result":"All done.\nFiles updated."}"#;
    let result = extract_content_from_log_line(line).unwrap();
    assert_eq!(result, vec!["All done.", "Files updated."]);
}

#[test]
fn test_extract_content_skip_system() {
    let line = r#"{"type":"system","subtype":"init","cwd":"/tmp","tools":["Bash"]}"#;
    assert!(extract_content_from_log_line(line).is_none());
}

#[test]
fn test_extract_content_skip_rate_limit() {
    let line = r#"{"type":"rate_limit_event","retry_after":5}"#;
    assert!(extract_content_from_log_line(line).is_none());
}

#[test]
fn test_extract_content_skip_user() {
    let line =
        r#"{"type":"user","message":{"role":"user","content":[{"type":"tool_result"}]}}"#;
    assert!(extract_content_from_log_line(line).is_none());
}

#[test]
fn test_extract_content_non_json_passthrough() {
    let line = "some plain text output";
    let result = extract_content_from_log_line(line).unwrap();
    assert_eq!(result, vec!["some plain text output"]);
}

#[test]
fn test_extract_content_stderr_passthrough() {
    let line = "[stderr] warning: something happened";
    let result = extract_content_from_log_line(line).unwrap();
    assert_eq!(result, vec!["[stderr] warning: something happened"]);
}

#[test]
fn test_extract_content_opencode_delta() {
    let line = r#"{"type":"content.delta","part":{"text":"streaming chunk"}}"#;
    let result = extract_content_from_log_line(line).unwrap();
    assert_eq!(result, vec!["streaming chunk"]);
}

#[test]
fn test_extract_content_codex_item_completed() {
    let line = r#"{"type":"item.completed","item":{"text":"Done.\nAll good."}}"#;
    let result = extract_content_from_log_line(line).unwrap();
    assert_eq!(result, vec!["Done.", "All good."]);
}

#[test]
fn test_extract_content_unknown_type_skipped() {
    let line = r#"{"type":"some_unknown_event","data":"stuff"}"#;
    assert!(extract_content_from_log_line(line).is_none());
}

#[test]
fn test_extract_content_empty_line_skipped() {
    assert!(extract_content_from_log_line("").is_none());
    assert!(extract_content_from_log_line("   ").is_none());
}

#[test]
fn test_extract_content_result_empty_text_skipped() {
    let line = r#"{"type":"result","result":"  "}"#;
    assert!(extract_content_from_log_line(line).is_none());
}
