//! The Ops list.
use compas::dashboard::views::activity::{
    batch_progress, classify_rows, filter_merge_ops, footer_counts, ops_selectable_count,
    ops_selectable_targets, ActivityData, OpsSelectable, OPS_BATCH_SECTION_LIMIT,
    RECENTLY_COMPLETED_LIMIT,
};
use compas::dashboard::views::ops_lines::format_relative_future;
use compas::store::{MergeOperation, ThreadStatusView};

fn make_row(
    thread_id: &str,
    batch_id: Option<&str>,
    thread_status: &str,
    execution_status: Option<&str>,
    updated_at: i64,
) -> ThreadStatusView {
    ThreadStatusView {
        thread_id: thread_id.to_string(),
        batch_id: batch_id.map(|b| b.to_string()),
        summary: None,
        thread_status: thread_status.to_string(),
        thread_created_at: 0,
        thread_updated_at: updated_at,
        execution_id: None,
        agent_alias: None,
        execution_status: execution_status.map(|s| s.to_string()),
        queued_at: None,
        started_at: None,
        finished_at: None,
        duration_ms: None,
        error_detail: None,
        parsed_intent: None,
        prompt_hash: None,
        eligible_at: None,
        eligible_reason: None,
    }
}

#[test]
fn test_ops_selectable_targets_includes_batches() {
    let rows = vec![
        make_row("t1", Some("b1"), "Active", Some("executing"), 1),
        make_row("t2", Some("b1"), "Failed", Some("failed"), 2),
        make_row("t3", Some("b2"), "Completed", Some("completed"), 3),
    ];

    let targets = ops_selectable_targets(&rows, &[], None, 100, 3600);
    assert!(targets.iter().any(|t| matches!(t, OpsSelectable::Batch(_))));
}

#[test]
fn test_ops_selectable_targets_drill_excludes_batches() {
    let rows = vec![
        make_row("t1", Some("b1"), "Active", Some("executing"), 1),
        make_row("t2", Some("b2"), "Active", Some("queued"), 2),
    ];

    let targets = ops_selectable_targets(&rows, &[], Some("b1"), 100, 3600);
    assert!(!targets.iter().any(|t| matches!(t, OpsSelectable::Batch(_))));
    assert_eq!(targets.len(), 1);
}

#[test]
fn test_batch_progress_counts() {
    let rows = vec![
        make_row("t1", Some("b1"), "Active", Some("executing"), 1),
        make_row("t2", Some("b1"), "Failed", Some("failed"), 2),
        make_row("t3", Some("b1"), "Completed", Some("completed"), 3),
    ];

    let batches = batch_progress(&rows, 100, 3600);
    assert_eq!(batches.len(), 1);
    assert_eq!(batches[0].total, 3);
    assert_eq!(batches[0].completed, 1);
    assert_eq!(batches[0].failed, 1);
}

#[test]
fn test_section_threads_sorted_desc_by_updated_at() {
    let rows = vec![
        make_row("older", Some("b1"), "Active", None, 10),
        make_row("newer", Some("b1"), "Active", None, 20),
    ];
    let targets = ops_selectable_targets(&rows, &[], None, 100, 3600);
    let active_thread_ids: Vec<String> = targets
        .into_iter()
        .filter_map(|t| match t {
            OpsSelectable::Thread(idx) => Some(rows[idx].thread_id.clone()),
            _ => None,
        })
        .collect();
    assert_eq!(active_thread_ids[0], "newer");
}

#[test]
fn test_active_completed_thread_shows_in_active_section() {
    // An Active thread with a completed execution (waiting for operator review)
    // should appear in the active_threads section, not recently_completed.
    let rows = vec![
        make_row(
            "waiting-review",
            Some("b1"),
            "Active",
            Some("completed"),
            500,
        ),
        make_row(
            "truly-completed",
            Some("b1"),
            "Completed",
            Some("completed"),
            500,
        ),
    ];
    let classified = classify_rows(&rows, None, 1000, 3600);
    assert_eq!(classified.active_threads.len(), 1);
    assert_eq!(
        rows[classified.active_threads[0]].thread_id,
        "waiting-review"
    );
    // The Completed thread should be in recently_completed, not active_threads
    assert_eq!(classified.recently_completed.len(), 1);
    assert_eq!(
        rows[classified.recently_completed[0]].thread_id,
        "truly-completed"
    );
}

#[test]
fn test_ops_selectable_targets_caps_recently_completed() {
    let mut rows = Vec::new();
    for i in 0..(RECENTLY_COMPLETED_LIMIT + 5) {
        rows.push(make_row(
            &format!("t{i}"),
            Some("b1"),
            "Completed",
            Some("completed"),
            i as i64,
        ));
    }

    let targets = ops_selectable_targets(&rows, &[], None, 100, 3600);
    let recent_threads = targets
        .into_iter()
        .filter(|t| matches!(t, OpsSelectable::Thread(_)))
        .count();
    assert_eq!(recent_threads, RECENTLY_COMPLETED_LIMIT);
}

#[test]
fn test_ops_selectable_count_matches_targets_len() {
    let rows = vec![
        make_row("running", Some("b1"), "Active", Some("executing"), 10),
        make_row("active", Some("b1"), "Active", None, 9),
        make_row("done", Some("b1"), "Completed", Some("completed"), 8),
    ];

    let count = ops_selectable_count(&rows, &[], None, 100, 3600);
    let targets_len = ops_selectable_targets(&rows, &[], None, 100, 3600).len();
    assert_eq!(count, targets_len);
}

#[test]
fn test_ops_selectable_targets_caps_batches_section() {
    let mut rows = Vec::new();
    for i in 0..(OPS_BATCH_SECTION_LIMIT + 5) {
        rows.push(make_row(
            &format!("t{i}"),
            Some(&format!("b{i}")),
            "Completed",
            Some("completed"),
            i as i64,
        ));
    }

    let targets = ops_selectable_targets(&rows, &[], None, 100, 3600);
    let batch_count = targets
        .iter()
        .filter(|t| matches!(t, OpsSelectable::Batch(_)))
        .count();
    assert_eq!(batch_count, OPS_BATCH_SECTION_LIMIT);
}

#[test]
fn test_ops_selectable_targets_caps_active_batches_section() {
    let mut rows = Vec::new();
    for i in 0..(OPS_BATCH_SECTION_LIMIT + 5) {
        rows.push(make_row(
            &format!("t{i}"),
            Some(&format!("b{i}")),
            "Active",
            None,
            i as i64,
        ));
    }

    let targets = ops_selectable_targets(&rows, &[], None, 100, 3600);
    let batch_count = targets
        .iter()
        .filter(|t| matches!(t, OpsSelectable::Batch(_)))
        .count();
    assert_eq!(batch_count, OPS_BATCH_SECTION_LIMIT * 2);
}

#[test]
fn test_footer_counts_excludes_stale_from_active() {
    let data = ActivityData {
        rows: vec![
            make_row("running", Some("b1"), "Active", Some("executing"), 950),
            make_row("fresh", Some("b1"), "Active", None, 980),
            make_row("stale", Some("b1"), "Active", None, 100),
        ],
        thread_counts: vec![
            ("Active".to_string(), 3),
            ("Failed".to_string(), 0),
            ("Completed".to_string(), 0),
        ],
        queue_depth: 0,
        heartbeat: None,
        fetched_at: 0,
        cost_summary: None,
        merge_ops: Vec::new(),
    };

    let (active, failed, completed, stale, scheduled) = footer_counts(&data, 1000, 300);
    assert_eq!(active, 2);
    assert_eq!(failed, 0);
    assert_eq!(completed, 0);
    assert_eq!(stale, 1);
    assert_eq!(scheduled, 0);
}

#[test]
fn test_format_relative_future_seconds() {
    assert_eq!(format_relative_future(0), "now");
    assert_eq!(format_relative_future(45), "in 45s");
    assert_eq!(format_relative_future(-5), "now");
}

#[test]
fn test_format_relative_future_minutes() {
    assert_eq!(format_relative_future(90), "in 1m 30s");
    assert_eq!(format_relative_future(600), "in 10m 0s");
}

#[test]
fn test_format_relative_future_hours() {
    assert_eq!(format_relative_future(3661), "in 1h 1m");
    assert_eq!(format_relative_future(7200), "in 2h 0m");
}

#[test]
fn test_format_relative_future_days() {
    assert_eq!(format_relative_future(90000), "in 1d 1h");
    assert_eq!(format_relative_future(172800), "in 2d 0h");
}

fn make_merge_op(id: &str, status: &str, finished_at: Option<i64>) -> MergeOperation {
    make_merge_op_for(id, status, finished_at, &format!("thread-{}", id), "main")
}

fn make_merge_op_for(
    id: &str,
    status: &str,
    finished_at: Option<i64>,
    thread_id: &str,
    target_branch: &str,
) -> MergeOperation {
    MergeOperation {
        id: id.to_string(),
        thread_id: thread_id.to_string(),
        source_branch: format!("compas/{}", thread_id),
        target_branch: target_branch.to_string(),
        merge_strategy: "merge".to_string(),
        requested_by: "operator".to_string(),
        status: status.to_string(),
        push_requested: false,
        queued_at: 100,
        claimed_at: None,
        started_at: None,
        finished_at,
        duration_ms: None,
        result_summary: None,
        error_detail: None,
        conflict_files: None,
        commit_message: None,
    }
}

#[test]
fn test_merge_queue_section_hidden_when_empty() {
    let rows = vec![make_row("t1", Some("b1"), "Active", Some("executing"), 10)];
    let merge_ops: Vec<MergeOperation> = Vec::new();
    let targets = ops_selectable_targets(&rows, &merge_ops, None, 100, 3600);
    assert!(!targets
        .iter()
        .any(|t| matches!(t, OpsSelectable::MergeOp(_))));
}

#[test]
fn test_merge_queue_section_shows_active_ops() {
    let rows = vec![make_row("t1", Some("b1"), "Active", Some("executing"), 10)];
    let merge_ops = vec![
        make_merge_op("op1", "queued", None),
        make_merge_op("op2", "executing", None),
    ];
    let targets = ops_selectable_targets(&rows, &merge_ops, None, 100, 3600);
    let merge_count = targets
        .iter()
        .filter(|t| matches!(t, OpsSelectable::MergeOp(_)))
        .count();
    assert_eq!(merge_count, 2);
}

#[test]
fn test_ops_selectable_includes_merge_ops() {
    let rows = vec![
        make_row("t1", None, "Active", Some("executing"), 10),
        make_row("t2", None, "Completed", Some("completed"), 5),
    ];
    let merge_ops = vec![make_merge_op("op1", "executing", None)];
    let targets = ops_selectable_targets(&rows, &merge_ops, None, 100, 3600);

    // Merge ops should appear between active threads and recently completed
    let merge_positions: Vec<usize> = targets
        .iter()
        .enumerate()
        .filter(|(_, t)| matches!(t, OpsSelectable::MergeOp(_)))
        .map(|(i, _)| i)
        .collect();
    let completed_positions: Vec<usize> = targets
        .iter()
        .enumerate()
        .filter(|(_, t)| {
            if let OpsSelectable::Thread(idx) = t {
                rows[*idx].thread_status == "Completed"
            } else {
                false
            }
        })
        .map(|(i, _)| i)
        .collect();

    assert!(!merge_positions.is_empty());
    assert!(!completed_positions.is_empty());
    // Merge ops should come before recently completed
    assert!(merge_positions[0] < completed_positions[0]);
}

#[test]
fn test_merge_ops_terminal_filtered_by_time_window() {
    let now_unix = 1000;
    // Completed op within window (10 min = 600s)
    let recent = make_merge_op("recent", "completed", Some(500));
    // Completed op outside window
    let old = make_merge_op("old", "completed", Some(100));
    // Failed op within extended window (30 min = 1800s)
    let mut failed_recent = make_merge_op("failed-recent", "failed", Some(500));
    failed_recent.error_detail = Some("merge conflict".to_string());

    let ops = vec![recent, old, failed_recent];
    let visible = filter_merge_ops(&ops, now_unix);

    let ids: Vec<&str> = visible.iter().map(|o| o.id.as_str()).collect();
    assert!(ids.contains(&"recent"));
    assert!(!ids.contains(&"old")); // too old
    assert!(ids.contains(&"failed-recent"));
}

#[test]
fn test_filter_merge_ops_superseded_by_completed() {
    let now_unix = 1000;
    // Failed at t=400, then a successful retry completed at t=500 — same pair.
    let failed = make_merge_op_for("f1", "failed", Some(400), "thr-A", "main");
    let completed = make_merge_op_for("c1", "completed", Some(500), "thr-A", "main");

    let ops = vec![failed, completed];
    let visible = filter_merge_ops(&ops, now_unix);
    let ids: Vec<&str> = visible.iter().map(|o| o.id.as_str()).collect();

    assert!(!ids.contains(&"f1"), "failed op should be superseded");
    assert!(ids.contains(&"c1"), "completed op should still show");
}

#[test]
fn test_filter_merge_ops_multiple_failures_superseded() {
    let now_unix = 1000;
    // Two failures before a success — all for the same (thread_id, target_branch).
    let fail1 = make_merge_op_for("f1", "failed", Some(300), "thr-A", "main");
    let fail2 = make_merge_op_for("f2", "failed", Some(400), "thr-A", "main");
    let success = make_merge_op_for("c1", "completed", Some(500), "thr-A", "main");

    let ops = vec![fail1, fail2, success];
    let visible = filter_merge_ops(&ops, now_unix);
    let ids: Vec<&str> = visible.iter().map(|o| o.id.as_str()).collect();

    assert!(!ids.contains(&"f1"), "first failure should be superseded");
    assert!(!ids.contains(&"f2"), "second failure should be superseded");
    assert!(ids.contains(&"c1"), "completed op should still show");
}

#[test]
fn test_filter_merge_ops_different_target_branch_independent() {
    let now_unix = 1000;
    // Success on main does NOT suppress failure on release/v2.
    let fail_release = make_merge_op_for("f1", "failed", Some(400), "thr-A", "release/v2");
    let success_main = make_merge_op_for("c1", "completed", Some(500), "thr-A", "main");

    let ops = vec![fail_release, success_main];
    let visible = filter_merge_ops(&ops, now_unix);
    let ids: Vec<&str> = visible.iter().map(|o| o.id.as_str()).collect();

    assert!(
        ids.contains(&"f1"),
        "failure on release/v2 should NOT be superseded by success on main"
    );
    assert!(ids.contains(&"c1"));
}

#[test]
fn test_filter_merge_ops_not_superseded_without_retry() {
    let now_unix = 1000;
    // Failed op within 30-min window, no completed pair exists — must still show.
    let failed = make_merge_op_for("f1", "failed", Some(500), "thr-A", "main");

    let ops = vec![failed];
    let visible = filter_merge_ops(&ops, now_unix);
    let ids: Vec<&str> = visible.iter().map(|o| o.id.as_str()).collect();

    assert!(
        ids.contains(&"f1"),
        "failed op with no retry should still be visible"
    );
}

#[test]
fn test_ops_selectable_excludes_merge_ops_in_drill_mode() {
    let rows = vec![make_row("t1", Some("b1"), "Active", Some("executing"), 10)];
    let merge_ops = vec![
        make_merge_op("op1", "executing", None),
        make_merge_op("op2", "queued", None),
    ];
    let targets = ops_selectable_targets(&rows, &merge_ops, Some("b1"), 100, 3600);
    assert!(
        !targets
            .iter()
            .any(|t| matches!(t, OpsSelectable::MergeOp(_))),
        "merge ops should not appear when drilling into a batch"
    );
}
