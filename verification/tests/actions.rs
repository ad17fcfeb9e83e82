//! What can be done with a selected row.
use compas::dashboard::actions::{
    action_for_key, available_actions, confirmation_prompt, needs_confirmation, ActionTarget,
    PendingAction,
};
use compas::lifecycle::CloseStatus;

fn thread_target(status: &str, has_worktree: bool) -> ActionTarget {
    ActionTarget::Thread {
        thread_id: "01KMVTEST1234567".into(),
        status: status.into(),
        summary: Some("test thread".into()),
        has_worktree,
    }
}

#[test]
fn test_available_actions_active_thread() {
    let target = thread_target("Active", false);
    let actions = available_actions(&target);
    assert_eq!(actions.len(), 3);
    assert_eq!(actions[0].key, 'a');
    assert_eq!(actions[1].key, 'c');
    assert_eq!(actions[2].key, 'f');
}

#[test]
fn test_available_actions_active_worktree_thread() {
    let target = thread_target("Active", true);
    let actions = available_actions(&target);
    assert_eq!(actions.len(), 4);
    assert_eq!(actions[3].key, 'm');
    assert_eq!(actions[3].label, "Queue merge");
}

#[test]
fn test_available_actions_terminal_thread() {
    for status in &["Completed", "Failed", "Abandoned"] {
        let target = thread_target(status, false);
        let actions = available_actions(&target);
        assert_eq!(actions.len(), 1, "expected 1 action for status {status}");
        assert_eq!(actions[0].key, 'r');
        assert_eq!(actions[0].label, "Reopen");
    }
}

#[test]
fn test_available_actions_batch() {
    let target = ActionTarget::Batch {
        batch_id: "GAP-11".into(),
    };
    let actions = available_actions(&target);
    assert_eq!(actions.len(), 1);
    assert_eq!(actions[0].key, 'a');
    assert_eq!(actions[0].label, "Abandon batch");
}

#[test]
fn test_available_actions_queued_merge() {
    let target = ActionTarget::MergeOp {
        op_id: "01ABC".into(),
        status: "queued".into(),
    };
    let actions = available_actions(&target);
    assert_eq!(actions.len(), 1);
    assert_eq!(actions[0].key, 'x');
    assert_eq!(actions[0].label, "Cancel merge");
}

#[test]
fn test_available_actions_non_queued_merge() {
    for status in &["executing", "completed", "failed", "cancelled"] {
        let target = ActionTarget::MergeOp {
            op_id: "01ABC".into(),
            status: (*status).into(),
        };
        let actions = available_actions(&target);
        assert!(
            actions.is_empty(),
            "expected empty actions for merge status {status}"
        );
    }
}

#[test]
fn test_needs_confirmation_reopen_false() {
    let action = PendingAction::ReopenThread {
        thread_id: "t1".into(),
    };
    assert!(!needs_confirmation(&action));
}

#[test]
fn test_needs_confirmation_abandon_true() {
    let action = PendingAction::AbandonThread {
        thread_id: "t1".into(),
    };
    assert!(needs_confirmation(&action));
}

#[test]
fn test_needs_confirmation_all_others_true() {
    let cases = vec![
        PendingAction::AbandonBatch {
            batch_id: "b1".into(),
        },
        PendingAction::CloseThread {
            thread_id: "t1".into(),
            status: CloseStatus::Completed,
        },
        PendingAction::CloseThread {
            thread_id: "t1".into(),
            status: CloseStatus::Failed,
        },
        PendingAction::CancelMerge { op_id: "m1".into() },
        PendingAction::QueueMerge {
            thread_id: "t1".into(),
        },
    ];
    for action in cases {
        assert!(needs_confirmation(&action));
    }
}

#[test]
fn test_action_for_key_matches_available() {
    // Active thread without worktree
    let target = thread_target("Active", false);
    let actions = available_actions(&target);
    for entry in &actions {
        assert!(
            action_for_key(entry.key, &target).is_some(),
            "key '{}' should produce an action",
            entry.key
        );
    }
    assert!(action_for_key('z', &target).is_none());
    assert!(action_for_key('m', &target).is_none()); // no worktree

    // Active thread with worktree
    let target_wt = thread_target("Active", true);
    assert!(action_for_key('m', &target_wt).is_some());

    // Terminal thread
    let target_term = thread_target("Completed", false);
    assert!(action_for_key('r', &target_term).is_some());
    assert!(action_for_key('a', &target_term).is_none());

    // Batch
    let target_batch = ActionTarget::Batch {
        batch_id: "B1".into(),
    };
    assert!(action_for_key('a', &target_batch).is_some());
    assert!(action_for_key('x', &target_batch).is_none());

    // Queued merge
    let target_merge = ActionTarget::MergeOp {
        op_id: "M1".into(),
        status: "queued".into(),
    };
    assert!(action_for_key('x', &target_merge).is_some());
    assert!(action_for_key('a', &target_merge).is_none());

    // Non-queued merge
    let target_merge_done = ActionTarget::MergeOp {
        op_id: "M2".into(),
        status: "completed".into(),
    };
    assert!(action_for_key('x', &target_merge_done).is_none());
}

#[test]
fn test_confirmation_prompt_truncates_long_ids() {
    let action = PendingAction::AbandonThread {
        thread_id: "01KMVABCDEFGHIJKLMNOP".into(),
    };
    let prompt = confirmation_prompt(&action);
    assert!(prompt.contains("01KMVABCDEFG…"));
    assert!(prompt.contains("[y]es / [n]o"));
}

#[test]
fn test_confirmation_prompt_short_id_no_truncation() {
    let action = PendingAction::AbandonThread {
        thread_id: "SHORT".into(),
    };
    let prompt = confirmation_prompt(&action);
    assert!(prompt.contains("SHORT"));
    assert!(!prompt.contains('…'));
}

#[test]
fn test_confirmation_prompt_variants() {
    let batch = PendingAction::AbandonBatch {
        batch_id: "GAP-11".into(),
    };
    assert!(confirmation_prompt(&batch).starts_with("Abandon batch GAP-11?"));

    let close = PendingAction::CloseThread {
        thread_id: "t1".into(),
        status: CloseStatus::Completed,
    };
    assert!(confirmation_prompt(&close).contains("as completed?"));

    let cancel = PendingAction::CancelMerge { op_id: "m1".into() };
    assert!(confirmation_prompt(&cancel).starts_with("Cancel merge op m1?"));

    let queue = PendingAction::QueueMerge {
        thread_id: "t1".into(),
    };
    assert!(confirmation_prompt(&queue).starts_with("Queue merge for thread t1?"));
}
