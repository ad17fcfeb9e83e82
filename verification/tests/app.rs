//! Keys, clicks and what they change.
use compas::dashboard::app::{App, Key, Moment, HELP_LINE_COUNT};
use compas::dashboard::geometry::{
    detect_log_tab_click, detect_tab_click, HistoryClickCache, OpsClickCache, Rect,
};

// ── detect_tab_click ─────────────────────────────────────────────────

fn make_tab_bar(x: u16, y: u16, w: u16, h: u16) -> Rect {
    Rect::new(x, y, w, h)
}

#[test]
fn test_detect_tab_click_first_tab() {
    // Tab bar bordered block: inner starts at x=1.
    // Tab labels: "Ops" (5 chars padded), "Agents" (8), "History" (9), "Settings" (10)
    // With padding: " Ops " = 5, " Agents " = 8, " History " = 9, " Settings " = 10
    // Dividers: " │ " = 3 chars
    let bar = make_tab_bar(0, 0, 80, 3);
    // Inner area: x=1, y=1, w=78, h=1
    // Tab " Ops " occupies cols 1..6 (inner-relative 0..5)
    assert_eq!(detect_tab_click(1, bar), Some(0)); // first char of " Ops "
    assert_eq!(detect_tab_click(5, bar), Some(0)); // last char of " Ops "
}

#[test]
fn test_detect_tab_click_second_tab() {
    let bar = make_tab_bar(0, 0, 80, 3);
    // After "Ops" (5) + divider (3) = offset 8 → "Agents" tab starts at inner-rel 8
    // Inner starts at x=1, so absolute col = 1 + 8 = 9
    assert_eq!(detect_tab_click(9, bar), Some(1));
}

#[test]
fn test_detect_tab_click_third_tab() {
    let bar = make_tab_bar(0, 0, 80, 3);
    // After "Ops" (5) + div (3) + "Agents" (8) + div (3) = 19
    // Absolute col = 1 + 19 = 20
    assert_eq!(detect_tab_click(20, bar), Some(2));
}

#[test]
fn test_detect_tab_click_fourth_tab() {
    let bar = make_tab_bar(0, 0, 80, 3);
    // After "Ops" (5) + div (3) + "Agents" (8) + div (3) + "History" (9) + div (3) = 31
    // Absolute col = 1 + 31 = 32
    assert_eq!(detect_tab_click(32, bar), Some(3));
}

#[test]
fn test_detect_tab_click_on_divider() {
    let bar = make_tab_bar(0, 0, 80, 3);
    // Divider between Ops and Agents: inner-relative 5, 6, 7 → absolute 6, 7, 8.
    // Clicks in the divider region resolve to the next tab (acceptable UX —
    // the gap is small and clicking between tabs selects the nearest one).
    assert_eq!(detect_tab_click(6, bar), Some(1));
    assert_eq!(detect_tab_click(7, bar), Some(1));
    assert_eq!(detect_tab_click(8, bar), Some(1));
}

#[test]
fn test_detect_tab_click_outside_right() {
    let bar = make_tab_bar(0, 0, 80, 3);
    // After all tabs: 5 + 3 + 8 + 3 + 9 + 3 + 10 = 41 → inner-relative 41+
    // Absolute col = 1 + 41 = 42
    assert_eq!(detect_tab_click(42, bar), None);
}

#[test]
fn test_detect_tab_click_on_border() {
    let bar = make_tab_bar(0, 0, 80, 3);
    // Col 0 is the left border — outside inner area.
    assert_eq!(detect_tab_click(0, bar), None);
}

#[test]
fn test_detect_tab_click_offset_origin() {
    // Tab bar not at (0,0) — e.g., nested layout.
    let bar = make_tab_bar(10, 5, 60, 3);
    // Inner starts at x=11. First tab at absolute col 11.
    assert_eq!(detect_tab_click(11, bar), Some(0));
    assert_eq!(detect_tab_click(10, bar), None); // border
}

// ── detect_log_tab_click ──────────────────────────────────────────────
//
// Log tab bar layout (no border, 1 row):
//   "╶ " (2 chars) + "Input" (5) + "    " (4) + "Timeline (N)" (dynamic) + "    " (4) + "Output" (6)
//
// With event_count=3: "Timeline (3)" = 12 chars
// Offsets: Input starts at 2, ends at 6 (exclusive 7)
//          gap 7..11, Timeline starts at 11, ends at 22 (exclusive 23)
//          gap 23..27, Output starts at 27, ends at 32 (exclusive 33)

fn make_log_tab_rect(x: u16, y: u16, w: u16) -> Rect {
    Rect::new(x, y, w, 1)
}

#[test]
fn test_detect_log_tab_click_input_first_char() {
    let r = make_log_tab_rect(0, 0, 80);
    // "Input" starts at offset 2 (after "╶ ")
    assert_eq!(detect_log_tab_click(2, 0, r, 3), Some(0));
}

#[test]
fn test_detect_log_tab_click_input_last_char() {
    let r = make_log_tab_rect(0, 0, 80);
    // "Input" is 5 chars: offsets 2..6 inclusive
    assert_eq!(detect_log_tab_click(6, 0, r, 3), Some(0));
}

#[test]
fn test_detect_log_tab_click_timeline() {
    let r = make_log_tab_rect(0, 0, 80);
    // event_count=3 → "Timeline (3)" = 12 chars, starts at 2+5+4=11
    assert_eq!(detect_log_tab_click(11, 0, r, 3), Some(1));
    assert_eq!(detect_log_tab_click(22, 0, r, 3), Some(1)); // last char
}

#[test]
fn test_detect_log_tab_click_output() {
    let r = make_log_tab_rect(0, 0, 80);
    // "Output" starts at 2+5+4+12+4=27 (with event_count=3)
    assert_eq!(detect_log_tab_click(27, 0, r, 3), Some(2));
    assert_eq!(detect_log_tab_click(32, 0, r, 3), Some(2)); // last char
}

#[test]
fn test_detect_log_tab_click_gap_between_tabs() {
    let r = make_log_tab_rect(0, 0, 80);
    // Gap between Input (ends at 7) and Timeline (starts at 11): offsets 7..10
    assert_eq!(detect_log_tab_click(7, 0, r, 3), None);
    assert_eq!(detect_log_tab_click(10, 0, r, 3), None);
}

#[test]
fn test_detect_log_tab_click_wrong_row() {
    let r = make_log_tab_rect(0, 5, 80);
    // Click on correct col but wrong row
    assert_eq!(detect_log_tab_click(2, 4, r, 3), None); // above
    assert_eq!(detect_log_tab_click(2, 6, r, 3), None); // below
}

#[test]
fn test_detect_log_tab_click_col_before_rect() {
    let r = make_log_tab_rect(5, 0, 80);
    // col < tab_rect.x
    assert_eq!(detect_log_tab_click(4, 0, r, 3), None);
}

#[test]
fn test_detect_log_tab_click_col_past_rect() {
    let r = make_log_tab_rect(0, 0, 30);
    // col >= tab_rect.x + tab_rect.width
    assert_eq!(detect_log_tab_click(30, 0, r, 3), None);
}

#[test]
fn test_detect_log_tab_click_nonzero_origin() {
    let r = make_log_tab_rect(5, 10, 80);
    // "Input" starts at tab_rect.x + 2 = 7
    assert_eq!(detect_log_tab_click(7, 10, r, 3), Some(0));
    assert_eq!(detect_log_tab_click(11, 10, r, 3), Some(0)); // last char of Input
                                                             // "Timeline (3)" starts at 5 + 11 = 16
    assert_eq!(detect_log_tab_click(16, 10, r, 3), Some(1));
    // "Output" starts at 5 + 27 = 32
    assert_eq!(detect_log_tab_click(32, 10, r, 3), Some(2));
}

// ── Slot geometry lookup (Ops click mapping) ─────────────────────────

fn ops_clicks(slot_geometry: &[(usize, usize)], list_rect: Rect, scroll: usize) -> OpsClickCache {
    OpsClickCache { slot_geometry: slot_geometry.to_vec(), scroll, list_rect }
}

#[test]
fn test_ops_slot_geometry_basic_lookup() {
    // 3 selectable slots at display rows 2, 3, 5 with height 1 each.
    let clicks = ops_clicks(&[(2, 1), (3, 1), (5, 1)], Rect::new(0, 10, 80, 20), 0);

    // Click on row 12 → display row 2 → slot 0
    assert_eq!(clicks.clicked_slot(12), Some(0));
    // Click on row 13 → display row 3 → slot 1
    assert_eq!(clicks.clicked_slot(13), Some(1));
    // Click on row 14 → display row 4 → no slot (gap between 1 and 2)
    assert_eq!(clicks.clicked_slot(14), None);
}

#[test]
fn test_ops_slot_geometry_with_scroll() {
    // Slots at rows 0, 2, 4 (height 2 each — selected items expand).
    let clicks = ops_clicks(&[(0, 2), (2, 2), (4, 2)], Rect::new(0, 5, 80, 10), 3);

    // Click on row 5 → display row 3 → inside slot 1 (offset=2, height=2)
    assert_eq!(clicks.clicked_slot(5), Some(1));
}

#[test]
fn test_ops_slot_geometry_multi_line_item() {
    // Slot 0 at row 1 with height 3 (e.g., running item with progress + detail).
    // Slot 1 at row 5 with height 1.
    let clicks = ops_clicks(&[(1, 3), (5, 1)], Rect::new(0, 0, 80, 20), 0);

    // Clicking rows 1, 2, 3 should all resolve to slot 0.
    for click_row in 1u16..=3 {
        assert_eq!(clicks.clicked_slot(click_row), Some(0), "click_row={click_row}");
    }

    // Row 5 → slot 1
    assert_eq!(clicks.clicked_slot(5), Some(1));
}

// ── History click mapping ────────────────────────────────────────────

fn history_clicks(
    selectable_to_row: &[usize],
    table_rect: Rect,
    scroll_offset: usize,
) -> HistoryClickCache {
    HistoryClickCache {
        selectable_to_row: selectable_to_row.to_vec(),
        table_rect,
        scroll_offset,
        header_rows: 1,
    }
}

#[test]
fn test_history_click_header_rejected() {
    let clicks = history_clicks(&[0, 1], Rect::new(0, 5, 80, 20), 0);

    // Click on row 5 is the header → rejected
    assert_eq!(clicks.clicked_slot(5), None);
}

#[test]
fn test_history_click_maps_to_slot() {
    let clicks = history_clicks(&[0, 1, 3, 4], Rect::new(0, 5, 80, 20), 0);

    // Click on row 6 → table row 0 → slot 0
    assert_eq!(clicks.clicked_slot(6), Some(0));
    // Click on row 9 → table row 3 → slot 2
    assert_eq!(clicks.clicked_slot(9), Some(2));
}

#[test]
fn test_history_click_with_scroll() {
    let clicks = history_clicks(&[0, 1, 5, 6], Rect::new(0, 0, 80, 20), 3);

    // Click on row 2 → table row 4 → no match
    assert_eq!(clicks.clicked_slot(2), None);
    // Click on row 3 → table row 5 → slot 2
    assert_eq!(clicks.clicked_slot(3), Some(2));
}

// ── help_scroll ──────────────────────────────────────────────────────

fn make_test_app() -> App {
    App::new("/tmp/compas-test/logs".to_string(), 2_000)
}

fn moment() -> Moment {
    Moment { now: 1_000, now_ms: 100_000, stale_active_secs: 3_600, agents: vec!["test".to_string()] }
}

#[test]
fn test_help_scroll_up_clamps_at_zero() {
    let mut app = make_test_app();
    app.show_help = true;
    app.help_scroll = 0;
    app.handle_help_key(Key::Up);
    assert_eq!(app.help_scroll, 0);
    app.handle_help_key(Key::Char('k'));
    assert_eq!(app.help_scroll, 0);
}

#[test]
fn test_help_scroll_down_clamps_at_max() {
    let mut app = make_test_app();
    app.show_help = true;
    // A viewport smaller than content.
    app.help_viewport_height = 10;
    let max_scroll = HELP_LINE_COUNT.saturating_sub(10); // 11
    app.help_scroll = max_scroll;
    app.handle_help_key(Key::Down);
    assert_eq!(app.help_scroll, max_scroll);
    app.handle_help_key(Key::Char('j'));
    assert_eq!(app.help_scroll, max_scroll);
}

#[test]
fn test_help_toggle_resets_scroll() {
    let mut app = make_test_app();
    // Open help and scroll down.
    app.toggle_help();
    assert!(app.show_help);
    app.help_scroll = 5;
    // Close and re-open — scroll should reset.
    app.toggle_help();
    assert!(!app.show_help);
    app.toggle_help();
    assert!(app.show_help);
    assert_eq!(app.help_scroll, 0);
}

// ── quit confirmation ────────────────────────────────────────────────

#[test]
fn test_handle_list_key_q_sets_confirm_not_quit() {
    let mut app = make_test_app();
    assert!(!app.confirm_quit);
    assert!(!app.should_quit);

    app.handle_list_key(Key::Char('q'), &moment());

    assert!(app.confirm_quit);
    assert!(!app.should_quit);
}

#[test]
fn test_handle_quit_confirm_key_y_quits() {
    let mut app = make_test_app();
    app.confirm_quit = true;

    app.handle_quit_confirm_key(Key::Char('y'));

    assert!(app.should_quit);
}

#[test]
fn test_handle_quit_confirm_key_n_cancels() {
    let mut app = make_test_app();
    app.confirm_quit = true;

    app.handle_quit_confirm_key(Key::Char('n'));
    assert!(!app.confirm_quit);

    // Also test Esc
    app.confirm_quit = true;
    app.handle_quit_confirm_key(Key::Esc);
    assert!(!app.confirm_quit);
}
