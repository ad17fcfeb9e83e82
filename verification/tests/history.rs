//! The history of executions.
use compas::dashboard::views::executions::{
    group_execution_indices_by_batch, history_selectable_targets, HistorySelectable,
};
use compas::store::ExecutionRow;

#[test]
fn test_group_execution_indices_by_batch_orders_by_latest_queued_at() {
    let rows = vec![
        ExecutionRow {
            id: "1".to_string(),
            thread_id: "t1".to_string(),
            batch_id: Some("b1".to_string()),
            agent_alias: "a".to_string(),
            dispatch_message_id: None,
            status: "completed".to_string(),
            queued_at: 10,
            picked_up_at: None,
            started_at: None,
            finished_at: None,
            duration_ms: None,
            exit_code: None,
            output_preview: None,
            error_detail: None,
            parsed_intent: None,
            prompt_hash: None,
            attempt_number: 0,
            retry_after: None,
            error_category: None,
            original_dispatch_message_id: None,
            pid: None,
            eligible_at: None,
            eligible_reason: None,
        },
        ExecutionRow {
            id: "2".to_string(),
            thread_id: "t2".to_string(),
            batch_id: Some("b2".to_string()),
            agent_alias: "a".to_string(),
            dispatch_message_id: None,
            status: "completed".to_string(),
            queued_at: 20,
            picked_up_at: None,
            started_at: None,
            finished_at: None,
            duration_ms: None,
            exit_code: None,
            output_preview: None,
            error_detail: None,
            parsed_intent: None,
            prompt_hash: None,
            attempt_number: 0,
            retry_after: None,
            error_category: None,
            original_dispatch_message_id: None,
            pid: None,
            eligible_at: None,
            eligible_reason: None,
        },
        ExecutionRow {
            id: "3".to_string(),
            thread_id: "t3".to_string(),
            batch_id: None,
            agent_alias: "a".to_string(),
            dispatch_message_id: None,
            status: "completed".to_string(),
            queued_at: 30,
            picked_up_at: None,
            started_at: None,
            finished_at: None,
            duration_ms: None,
            exit_code: None,
            output_preview: None,
            error_detail: None,
            parsed_intent: None,
            prompt_hash: None,
            attempt_number: 0,
            retry_after: None,
            error_category: None,
            original_dispatch_message_id: None,
            pid: None,
            eligible_at: None,
            eligible_reason: None,
        },
    ];
    let groups = group_execution_indices_by_batch(&rows, None, 50);
    assert_eq!(groups[0].label, "Unbatched");
    assert_eq!(groups[1].label, "b2");
    assert_eq!(groups[2].label, "b1");
}

#[test]
fn test_group_execution_indices_in_batch_sorted_desc() {
    let mut rows = Vec::new();
    for (id, ts) in [("a", 1), ("b", 3), ("c", 2)] {
        rows.push(ExecutionRow {
            id: id.to_string(),
            thread_id: format!("t-{id}"),
            batch_id: Some("b1".to_string()),
            agent_alias: "x".to_string(),
            dispatch_message_id: None,
            status: "completed".to_string(),
            queued_at: ts,
            picked_up_at: None,
            started_at: None,
            finished_at: None,
            duration_ms: None,
            exit_code: None,
            output_preview: None,
            error_detail: None,
            parsed_intent: None,
            prompt_hash: None,
            attempt_number: 0,
            retry_after: None,
            error_category: None,
            original_dispatch_message_id: None,
            pid: None,
            eligible_at: None,
            eligible_reason: None,
        });
    }
    let groups = group_execution_indices_by_batch(&rows, Some("b1"), 50);
    assert_eq!(groups.len(), 1);
    let ids: Vec<String> = groups[0]
        .indices
        .iter()
        .map(|i| rows[*i].id.clone())
        .collect();
    assert_eq!(ids, vec!["b".to_string(), "c".to_string(), "a".to_string()]);
}

#[test]
fn test_selectable_targets_include_batch_headers_when_not_drilled() {
    let rows = vec![ExecutionRow {
        id: "1".to_string(),
        thread_id: "t1".to_string(),
        batch_id: Some("b1".to_string()),
        agent_alias: "a".to_string(),
        dispatch_message_id: None,
        status: "completed".to_string(),
        queued_at: 10,
        picked_up_at: None,
        started_at: None,
        finished_at: None,
        duration_ms: None,
        exit_code: None,
        output_preview: None,
        error_detail: None,
        parsed_intent: None,
        prompt_hash: None,
        attempt_number: 0,
        retry_after: None,
        error_category: None,
        original_dispatch_message_id: None,
        pid: None,
        eligible_at: None,
        eligible_reason: None,
    }];
    let targets = history_selectable_targets(&rows, None, 50);
    assert!(matches!(targets.first(), Some(HistorySelectable::Batch(_))));
}

#[test]
fn test_selectable_targets_hide_batch_headers_when_drilled() {
    let rows = vec![ExecutionRow {
        id: "1".to_string(),
        thread_id: "t1".to_string(),
        batch_id: Some("b1".to_string()),
        agent_alias: "a".to_string(),
        dispatch_message_id: None,
        status: "completed".to_string(),
        queued_at: 10,
        picked_up_at: None,
        started_at: None,
        finished_at: None,
        duration_ms: None,
        exit_code: None,
        output_preview: None,
        error_detail: None,
        parsed_intent: None,
        prompt_hash: None,
        attempt_number: 0,
        retry_after: None,
        error_category: None,
        original_dispatch_message_id: None,
        pid: None,
        eligible_at: None,
        eligible_reason: None,
    }];
    let targets = history_selectable_targets(&rows, Some("b1"), 50);
    assert!(targets
        .iter()
        .all(|t| matches!(t, HistorySelectable::Execution(_))));
}

#[test]
fn every_batch_has_one_group() {
    let row = |id: &str, batch: Option<&str>, queued_at: i64| ExecutionRow {
        id: id.to_string(),
        thread_id: "t".to_string(),
        batch_id: batch.map(|b| b.to_string()),
        agent_alias: "a".to_string(),
        dispatch_message_id: None,
        status: "completed".to_string(),
        queued_at,
        picked_up_at: None,
        started_at: None,
        finished_at: None,
        duration_ms: None,
        exit_code: None,
        output_preview: None,
        error_detail: None,
        parsed_intent: None,
        prompt_hash: None,
        attempt_number: 0,
        retry_after: None,
        error_category: None,
        original_dispatch_message_id: None,
        pid: None,
        eligible_at: None,
        eligible_reason: None,
    };
    let rows = vec![
        row("1", Some("b1"), 10),
        row("2", None, 5),
        row("3", Some("b2"), 20),
        row("4", Some("b1"), 30),
        row("5", Some("b1"), 20),
    ];
    let groups = group_execution_indices_by_batch(&rows, None, 2);
    let keys: Vec<&str> = groups.iter().map(|g| g.key.as_str()).collect();
    assert_eq!(keys, ["__UNBATCHED__", "b1", "b2"]);
    assert_eq!(groups[1].indices, vec![3, 4]);
    assert_eq!(groups[1].hidden_count, 1);
    let drilled = group_execution_indices_by_batch(&rows, Some("b1"), 10);
    assert_eq!(drilled.len(), 1);
    assert_eq!(drilled[0].indices, vec![3, 4, 0]);
    // A filter shows what stands behind the header, whatever the limit cuts.
    for limit in [1, 2, 10] {
        let all = history_selectable_targets(&rows, None, limit);
        for (at, header) in all.iter().enumerate() {
            let HistorySelectable::Batch(key) = header else { continue };
            let part = history_selectable_targets(&rows, Some(key.as_str()), limit);
            let end = at + 1 + part.len();
            assert!(!part.is_empty());
            assert_eq!(format!("{:?}", &all[at + 1..end]), format!("{part:?}"));
            assert!(end == all.len() || matches!(all[end], HistorySelectable::Batch(_)));
        }
    }
}
