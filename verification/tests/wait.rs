//! Waiting for a response.
use compas::mcp::wait::{
    compute_wait_ceiling, next_report, resolve_wait_timeout, PROGRESS_INTERVAL_SECS,
};

#[test]
fn test_compute_wait_ceiling_non_chain() {
    assert_eq!(compute_wait_ceiling(600, false), 630);
    assert_eq!(compute_wait_ceiling(0, false), 30);
    assert_eq!(compute_wait_ceiling(1, false), 31);
    assert_eq!(compute_wait_ceiling(1800, false), 1830);
}

#[test]
fn test_compute_wait_ceiling_chain() {
    assert_eq!(compute_wait_ceiling(600, true), 1830);
    assert_eq!(compute_wait_ceiling(0, true), 30);
    assert_eq!(compute_wait_ceiling(1, true), 33);
    assert_eq!(compute_wait_ceiling(1800, true), 5430);
}

#[test]
fn test_resolve_wait_timeout_under_ceiling() {
    let (effective, clamped) = resolve_wait_timeout(Some(300), 630);
    assert_eq!(effective, 300);
    assert!(!clamped);
}

#[test]
fn test_resolve_wait_timeout_over_ceiling() {
    let (effective, clamped) = resolve_wait_timeout(Some(5000), 630);
    assert_eq!(effective, 630);
    assert!(clamped);
}

#[test]
fn test_resolve_wait_timeout_at_ceiling() {
    let (effective, clamped) = resolve_wait_timeout(Some(630), 630);
    assert_eq!(effective, 630);
    assert!(!clamped);
}

#[test]
fn test_resolve_wait_timeout_none_defaults_to_ceiling() {
    let (effective, clamped) = resolve_wait_timeout(None, 630);
    assert_eq!(effective, 630);
    assert!(!clamped);
}

#[test]
fn progress_counts_intervals_until_a_notification_fails() {
    let mut elapsed = 0;
    for n in 1..=6 {
        elapsed = next_report(elapsed, PROGRESS_INTERVAL_SECS, true).unwrap();
        assert_eq!(elapsed, n * 10);
    }
    assert_eq!(next_report(elapsed, PROGRESS_INTERVAL_SECS, false), None);
    assert_eq!(next_report(u64::MAX - 1, PROGRESS_INTERVAL_SECS, true), Some(u64::MAX));
}
