//! Texts and colors that the views share.
use compas::dashboard::theme::{
    thread_status_icon, ACCENT, FAILURE, MARKER_COMPLETED, MARKER_FAILED, MARKER_IDLE,
    MARKER_RUNNING, MARKER_TIMEOUT, SUCCESS_DIM, TEXT_DIM, TEXT_NORMAL,
};
use compas::dashboard::views::{
    exec_status_color, format_duration_ms, format_duration_secs, format_tokens,
    humanize_exec_status, humanize_thread_status, thread_status_color, truncate,
    truncate_left,
};
use compas::style::Color;

// humanize_thread_status

#[test]
fn test_humanize_thread_status_passthrough_active() {
    assert_eq!(humanize_thread_status("Active"), "Active");
}

#[test]
fn test_humanize_thread_status_passthrough_completed() {
    assert_eq!(humanize_thread_status("Completed"), "Completed");
}

#[test]
fn test_humanize_thread_status_passthrough_failed() {
    assert_eq!(humanize_thread_status("Failed"), "Failed");
}

#[test]
fn test_humanize_thread_status_passthrough_abandoned() {
    assert_eq!(humanize_thread_status("Abandoned"), "Abandoned");
}

#[test]
fn test_humanize_thread_status_passthrough_unknown() {
    assert_eq!(
        humanize_thread_status("SomeFutureStatus"),
        "SomeFutureStatus"
    );
}

// humanize_exec_status

#[test]
fn test_humanize_exec_status_picked_up() {
    assert_eq!(humanize_exec_status("picked_up"), "Picked Up");
}

#[test]
fn test_humanize_exec_status_timed_out() {
    assert_eq!(humanize_exec_status("timed_out"), "Timed Out");
}

#[test]
fn test_humanize_exec_status_queued() {
    assert_eq!(humanize_exec_status("queued"), "Queued");
}

#[test]
fn test_humanize_exec_status_executing() {
    assert_eq!(humanize_exec_status("executing"), "Executing");
}

#[test]
fn test_humanize_exec_status_completed() {
    assert_eq!(humanize_exec_status("completed"), "Completed");
}

#[test]
fn test_humanize_exec_status_failed() {
    assert_eq!(humanize_exec_status("failed"), "Failed");
}

#[test]
fn test_humanize_exec_status_crashed() {
    assert_eq!(humanize_exec_status("crashed"), "Crashed");
}

#[test]
fn test_humanize_exec_status_cancelled() {
    assert_eq!(humanize_exec_status("cancelled"), "Cancelled");
}

#[test]
fn test_humanize_exec_status_passthrough_unknown() {
    assert_eq!(
        humanize_exec_status("some_future_status"),
        "some_future_status"
    );
}

// format_duration_secs

#[test]
fn test_format_duration_secs_zero() {
    assert_eq!(format_duration_secs(0), "0s");
}

#[test]
fn test_format_duration_secs_seconds() {
    assert_eq!(format_duration_secs(30), "30s");
    assert_eq!(format_duration_secs(59), "59s");
}

#[test]
fn test_format_duration_secs_minutes() {
    // 90s → 1m 30s
    assert_eq!(format_duration_secs(90), "1m 30s");
    assert_eq!(format_duration_secs(3599), "59m 59s");
}

#[test]
fn test_format_duration_secs_hours() {
    // 3661s → 1h 1m
    assert_eq!(format_duration_secs(3_661), "1h 1m");
    assert_eq!(format_duration_secs(86_399), "23h 59m");
}

#[test]
fn test_format_duration_secs_days() {
    // 90000s = 1d 1h
    assert_eq!(format_duration_secs(90_000), "1d 1h");
    assert_eq!(format_duration_secs(172_800), "2d 0h");
}

#[test]
fn test_format_duration_secs_negative_clamps_to_zero() {
    assert_eq!(format_duration_secs(-5), "0s");
}

// format_duration_ms

#[test]
fn test_format_duration_ms_zero() {
    assert_eq!(format_duration_ms(0), "0ms");
}

#[test]
fn test_format_duration_ms_millis() {
    assert_eq!(format_duration_ms(500), "500ms");
    assert_eq!(format_duration_ms(999), "999ms");
}

#[test]
fn test_format_duration_ms_delegates_to_secs() {
    // 1500ms → format_duration_secs(1) → "1s"
    assert_eq!(format_duration_ms(1_500), "1s");
    // 174929ms → format_duration_secs(174) → "2m 54s"
    assert_eq!(format_duration_ms(174_929), "2m 54s");
}

#[test]
fn test_format_duration_ms_negative() {
    assert_eq!(format_duration_ms(-1), "-");
}

// thread_status_color

#[test]
fn test_thread_status_color_active() {
    assert_eq!(thread_status_color("Active"), Color::Yellow);
    assert_eq!(thread_status_color("active"), Color::Yellow);
}

#[test]
fn test_thread_status_color_completed() {
    assert_eq!(thread_status_color("Completed"), Color::Green);
}

#[test]
fn test_thread_status_color_failed() {
    assert_eq!(thread_status_color("Failed"), Color::Red);
}

#[test]
fn test_thread_status_color_abandoned() {
    assert_eq!(thread_status_color("Abandoned"), Color::DarkGray);
}

#[test]
fn test_thread_status_color_unknown() {
    assert_eq!(thread_status_color("SomeFuture"), Color::White);
}

// exec_status_color

#[test]
fn test_exec_status_color_completed() {
    assert_eq!(exec_status_color("completed"), Color::Green);
}

#[test]
fn test_exec_status_color_failed() {
    assert_eq!(exec_status_color("failed"), Color::Red);
}

#[test]
fn test_exec_status_color_crashed() {
    assert_eq!(exec_status_color("crashed"), Color::Red);
}

#[test]
fn test_exec_status_color_timed_out() {
    assert_eq!(exec_status_color("timed_out"), Color::Red);
}

#[test]
fn test_exec_status_color_executing() {
    assert_eq!(exec_status_color("executing"), Color::Yellow);
}

#[test]
fn test_exec_status_color_picked_up() {
    assert_eq!(exec_status_color("picked_up"), Color::Yellow);
}

#[test]
fn test_exec_status_color_queued() {
    assert_eq!(exec_status_color("queued"), Color::Cyan);
}

#[test]
fn test_exec_status_color_cancelled() {
    assert_eq!(exec_status_color("cancelled"), Color::DarkGray);
}

#[test]
fn test_exec_status_color_unknown() {
    assert_eq!(exec_status_color("other"), Color::White);
}

// truncate

#[test]
fn test_truncate_short_string_passes_through() {
    assert_eq!(truncate("hello", 10), "hello");
}

#[test]
fn test_truncate_exact_length_passes_through() {
    assert_eq!(truncate("hello", 5), "hello");
}

#[test]
fn test_truncate_long_string_appends_ellipsis() {
    let s = "a".repeat(50);
    let result = truncate(&s, 10);
    assert!(result.ends_with('…'), "expected trailing ellipsis");
    // 9 'a' chars + "…" (3 UTF-8 bytes but 1 char)
    assert_eq!(result, format!("{}…", "a".repeat(9)));
}

#[test]
fn test_truncate_empty_string() {
    assert_eq!(truncate("", 10), "");
}

#[test]
fn test_truncate_max_chars_zero_returns_ellipsis() {
    // max_chars == 0 ≤ 1 → "…"
    assert_eq!(truncate("hello", 0), "…");
}

#[test]
fn test_truncate_max_chars_one_returns_ellipsis() {
    // max_chars == 1 ≤ 1 → "…"
    assert_eq!(truncate("hello", 1), "…");
}

#[test]
fn test_truncate_max_chars_two_truncates_to_one_char_plus_ellipsis() {
    assert_eq!(truncate("hello", 2), "h…");
}

#[test]
fn test_truncate_non_ascii_chars() {
    assert_eq!(truncate("héllo", 4), "hél…");
    assert_eq!(truncate("日本語テスト", 4), "日本語…");
    assert_eq!(truncate("café", 4), "café"); // exactly 4 chars
    assert_eq!(truncate("café", 3), "ca…");
}

// format_tokens

#[test]
fn test_format_tokens_zero() {
    assert_eq!(format_tokens(0), "0");
}

#[test]
fn test_format_tokens_below_thousand() {
    assert_eq!(format_tokens(999), "999");
}

#[test]
fn test_format_tokens_one_thousand() {
    assert_eq!(format_tokens(1_000), "1.0K");
}

#[test]
fn test_format_tokens_thousands() {
    assert_eq!(format_tokens(12_345), "12.3K");
}

#[test]
fn test_format_tokens_below_million() {
    // 999_999 / 1000.0 = 999.999 ≥ 999.95, promotes to M
    assert_eq!(format_tokens(999_999), "1.0M");
}

#[test]
fn test_format_tokens_one_million() {
    assert_eq!(format_tokens(1_000_000), "1.0M");
}

#[test]
fn test_format_tokens_millions() {
    assert_eq!(format_tokens(1_234_567), "1.2M");
}

#[test]
fn test_format_tokens_negative_clamps_to_zero() {
    assert_eq!(format_tokens(-5), "0");
}

// thread_status_icon

#[test]
fn an_execution_decides_the_icon_of_its_thread() {
    assert_eq!(thread_status_icon("Failed", Some("queued")), (MARKER_RUNNING, ACCENT));
    assert_eq!(thread_status_icon("Active", Some("crashed")), (MARKER_FAILED, FAILURE));
    assert_eq!(thread_status_icon("Active", Some("timed_out")), (MARKER_TIMEOUT, FAILURE));
    assert_eq!(thread_status_icon("Active", Some("completed")), (MARKER_COMPLETED, SUCCESS_DIM));
}

#[test]
fn without_a_known_execution_the_thread_decides_its_icon() {
    assert_eq!(thread_status_icon("Completed", None), (MARKER_COMPLETED, SUCCESS_DIM));
    assert_eq!(thread_status_icon("Failed", Some("cancelled")), (MARKER_FAILED, FAILURE));
    assert_eq!(thread_status_icon("Abandoned", None), (MARKER_IDLE, TEXT_DIM));
    assert_eq!(thread_status_icon("Active", None), (" ", TEXT_NORMAL));
}

// truncate and truncate_left

#[test]
fn cutting_keeps_the_end_or_the_beginning() {
    assert_eq!(truncate("abcdef", 4), "abc…");
    assert_eq!(truncate_left("abcdef", 4), "…def");
    assert_eq!(truncate_left("abc", 4), "abc");
    assert_eq!(truncate_left("abc", 1), "…");
}

#[test]
fn cutting_twice_changes_nothing_more() {
    assert_eq!(truncate(&truncate("abcdef", 4), 4), truncate("abcdef", 4));
    assert_eq!(truncate_left(&truncate_left("abcdef", 4), 4), truncate_left("abcdef", 4));
}
