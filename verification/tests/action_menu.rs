//! The action menu, the confirmation and the feedback.
use compas::dashboard::actions::ActionEntry;
use compas::dashboard::views::action_menu::{
    confirmation_line, feedback_line, menu_lines, menu_size, menu_title,
};
use compas::style::Line;

fn text_of(line: &Line) -> String {
    line.spans.iter().map(|s| s.text.as_str()).collect()
}

fn menu_text(label: &str, actions: &Vec<ActionEntry>) -> String {
    let mut s = menu_title(label);
    for line in menu_lines(actions).iter() {
        s.push_str(&text_of(line));
    }
    s
}

fn entries(list: &[(char, &'static str)]) -> Vec<ActionEntry> {
    list.iter().map(|(key, label)| ActionEntry { key: *key, label }).collect()
}

#[test]
fn test_render_action_menu_no_panic_empty() {
    let s = menu_text("thread abc", &entries(&[]));
    assert!(s.contains("No actions available"));
    assert!(s.contains("Esc"));
}

#[test]
fn test_render_action_menu_no_panic_with_actions() {
    let actions = entries(&[('a', "Abandon"), ('r', "Retry"), ('c', "Cancel"), ('d', "Delete")]);
    let s = menu_text("thread abc", &actions);
    assert!(s.contains('a'));
    assert!(s.contains("Abandon"));
    assert!(s.contains('d'));
    assert!(s.contains("Delete"));
    assert!(s.contains("Esc"));
}

#[test]
fn test_render_action_menu_no_panic_six_actions() {
    let actions = entries(&[
        ('a', "Abandon"),
        ('r', "Retry"),
        ('c', "Cancel"),
        ('d', "Delete"),
        ('m', "Merge"),
        ('v', "View"),
    ]);
    let s = menu_text("batch GAP-11", &actions);
    assert!(s.contains("Abandon"));
    assert!(s.contains("View"));
    assert!(s.contains("Esc cancel"));
}

#[test]
fn test_confirmation_line_has_spans() {
    let line = confirmation_line("Abandon thread abc? [y]es / [n]o");
    assert!(!line.spans.is_empty());
}

#[test]
fn test_confirmation_line_preserves_text() {
    let line = confirmation_line("Abandon thread abc? [y]es / [n]o");
    let text: String = line.spans.iter().map(|s| s.text.as_str()).collect();
    assert_eq!(text, "Abandon thread abc? [y]es / [n]o");
}

#[test]
fn test_feedback_line_success() {
    let line = feedback_line("Thread abandoned", false);
    let text: String = line.spans.iter().map(|s| s.text.as_str()).collect();
    assert!(text.contains('✓'));
    assert!(text.contains("Thread abandoned"));
}

#[test]
fn test_feedback_line_error() {
    let line = feedback_line("Action timed out", true);
    let text: String = line.spans.iter().map(|s| s.text.as_str()).collect();
    assert!(text.contains('✗'));
    assert!(text.contains("Action timed out"));
}

#[test]
fn menu_grows_with_its_actions() {
    let few = menu_size("t", &entries(&[('a', "Abandon")]));
    let many = menu_size("t", &entries(&[('a', "Abandon"), ('r', "Retry")]));
    assert_eq!(many.1, few.1 + 1);
}
