//! Closing, abandoning and reopening threads, over a store in memory.
use compas::lifecycle::merge::{MergeError, MergeReply, MergeService, MergeStep, Queueing};
use compas::lifecycle::{
    AbandonBatchOutcome, AbandonOutcome, AbandonReply, AbandonStep, Abandoning, CloseOutcome,
    CloseReply, CloseRequest, CloseStatus, CloseStep, LifecycleError, LifecycleService,
    ReopenOutcome, ReopenReply, ReopenStep, Reopening,
};
use compas::store::{MergeOperation, ThreadRow, ThreadStatus};

struct Store {
    threads: Vec<ThreadRow>,
    worktrees: Vec<String>,
    executions: Vec<(String, String)>,
    merge_ops: Vec<MergeOperation>,
    messages: Vec<(String, String, String)>,
    broken: bool,
}

impl Store {
    fn new() -> Store {
        Store {
            threads: Vec::new(),
            worktrees: Vec::new(),
            executions: Vec::new(),
            merge_ops: Vec::new(),
            messages: Vec::new(),
            broken: false,
        }
    }

    fn ensure_thread(&mut self, thread_id: &str, batch_id: Option<&str>) {
        self.threads.push(ThreadRow {
            thread_id: thread_id.to_string(),
            batch_id: batch_id.map(|b| b.to_string()),
            summary: None,
            status: "Active".to_string(),
            created_at: 0,
            updated_at: 0,
        });
    }

    fn get_thread(&self, thread_id: &str) -> Result<Option<ThreadRow>, String> {
        if self.broken {
            return Err("disk gone".to_string());
        }
        Ok(self.threads.iter().find(|t| t.thread_id == thread_id).cloned())
    }

    fn get_thread_status(&self, thread_id: &str) -> Option<String> {
        self.get_thread(thread_id).unwrap().map(|t| t.status)
    }

    fn set_status(&mut self, thread_id: &str, status: &str) {
        for t in self.threads.iter_mut() {
            if t.thread_id == thread_id {
                t.status = status.to_string();
            }
        }
    }

    fn insert_execution(&mut self, thread_id: &str) {
        self.executions.push((thread_id.to_string(), "queued".to_string()));
    }

    fn cancel_executions(&mut self, thread_id: &str) -> u64 {
        let mut n = 0;
        for (t, status) in self.executions.iter_mut() {
            if t == thread_id && status == "queued" {
                *status = "cancelled".to_string();
                n += 1;
            }
        }
        n
    }

    fn has_completed_merge(&self, thread_id: &str) -> bool {
        self.merge_ops.iter().any(|o| o.thread_id == thread_id && o.status == "completed")
    }

    fn has_worktree(&self, thread_id: &str) -> bool {
        self.worktrees.iter().any(|w| w == thread_id)
    }
}

fn close(
    store: &mut Store,
    thread_id: &str,
    status: CloseStatus,
    note: Option<&str>,
) -> Result<CloseOutcome, LifecycleError> {
    let svc = LifecycleService::new();
    let request = CloseRequest {
        thread_id: thread_id.to_string(),
        from: "operator".to_string(),
        status,
        note: note.map(|n| n.to_string()),
    };
    let mut step = CloseStep::FindThread;
    loop {
        let reply = match step {
            CloseStep::FindThread => CloseReply::Thread(store.get_thread(thread_id)),
            CloseStep::FindWorktree => CloseReply::Worktree(Ok(store.has_worktree(thread_id))),
            CloseStep::FindCompletedMerge => {
                CloseReply::Merge(Ok(store.has_completed_merge(thread_id)))
            }
            CloseStep::SetStatus(s) => {
                store.set_status(thread_id, s.as_str());
                CloseReply::Updated(Ok(()))
            }
            CloseStep::InsertMessage { to, intent, body, .. } => {
                store.messages.push((to, intent, body));
                CloseReply::Messaged(Ok(()))
            }
            CloseStep::Done(r) => return r,
        };
        step = svc.close(&request, reply);
    }
}

fn abandon(store: &mut Store, thread_id: &str) -> Result<AbandonOutcome, LifecycleError> {
    let svc = LifecycleService::new();
    let mut state = Abandoning::new(thread_id);
    let mut step = AbandonStep::FindThread;
    loop {
        let reply = match step {
            AbandonStep::FindThread => AbandonReply::Thread(store.get_thread(thread_id)),
            AbandonStep::FindProcesses => AbandonReply::Processes(Ok(Vec::new())),
            AbandonStep::CancelExecutions => {
                AbandonReply::Cancelled(Ok(store.cancel_executions(thread_id)))
            }
            AbandonStep::KillProcesses(pids) => {
                AbandonReply::Killed(pids.iter().map(|_| true).collect())
            }
            AbandonStep::FindWorktree => AbandonReply::Worktree(Ok(store.has_worktree(thread_id))),
            AbandonStep::SetStatus(s) => {
                store.set_status(thread_id, s.as_str());
                AbandonReply::Updated(Ok(()))
            }
            AbandonStep::Done(r) => return r,
        };
        step = svc.abandon(&mut state, reply);
    }
}

fn abandon_batch(store: &mut Store, batch_id: &str) -> AbandonBatchOutcome {
    let svc = LifecycleService::new();
    let threads: Vec<ThreadRow> =
        store.threads.iter().filter(|t| t.batch_id.as_deref() == Some(batch_id)).cloned().collect();
    let mut batch = svc.abandon_batch(batch_id, Ok(threads)).unwrap();
    while let Some(id) = batch.pending() {
        let result = abandon(store, id);
        batch.record(result);
    }
    batch.outcome
}

fn reopen(store: &mut Store, thread_id: &str) -> Result<ReopenOutcome, LifecycleError> {
    let svc = LifecycleService::new();
    let mut state = Reopening::new(thread_id);
    let mut step = ReopenStep::FindThread;
    loop {
        let reply = match step {
            ReopenStep::FindThread => ReopenReply::Thread(store.get_thread(thread_id)),
            ReopenStep::SetStatus(s) => {
                store.set_status(thread_id, s.as_str());
                ReopenReply::Updated(Ok(()))
            }
            ReopenStep::Done(r) => return r,
        };
        step = svc.reopen(&mut state, reply);
    }
}

fn merge_op(id: &str, thread_id: &str, status: &str) -> MergeOperation {
    MergeOperation {
        id: id.to_string(),
        thread_id: thread_id.to_string(),
        source_branch: format!("compas/{thread_id}"),
        target_branch: "main".to_string(),
        merge_strategy: "merge".to_string(),
        requested_by: "operator".to_string(),
        status: status.to_string(),
        push_requested: false,
        queued_at: 1000,
        claimed_at: None,
        started_at: None,
        finished_at: None,
        duration_ms: None,
        result_summary: None,
        error_detail: None,
        conflict_files: None,
        commit_message: None,
    }
}

#[test]
fn test_service_close_completed_sets_terminal() {
    let mut store = Store::new();
    store.ensure_thread("t-1", None);

    // Non-worktree thread closes without merge
    let out = close(&mut store, "t-1", CloseStatus::Completed, Some("done")).unwrap();
    assert_eq!(out.status, "Completed");

    assert_eq!(store.get_thread_status("t-1").unwrap(), "Completed");
}

#[test]
fn test_service_abandon_sets_terminal_and_cancels() {
    let mut store = Store::new();
    store.ensure_thread("t-1", None);
    store.insert_execution("t-1");

    let out = abandon(&mut store, "t-1").unwrap();
    assert_eq!(out.status, "Abandoned");
    assert!(out.executions_cancelled >= 1);

    assert_eq!(store.get_thread_status("t-1").unwrap(), "Abandoned");
}

#[test]
fn test_service_reopen_non_terminal_errors() {
    let mut store = Store::new();
    store.ensure_thread("t-1", None);

    let err = reopen(&mut store, "t-1").unwrap_err();
    assert!(err.message().contains("only terminal threads can be reopened"));
}

#[test]
fn test_service_close_nonexistent_thread_errors() {
    let mut store = Store::new();

    let err = close(&mut store, "missing", CloseStatus::Failed, None).unwrap_err();
    assert!(matches!(err, LifecycleError::ThreadNotFound { .. }));
}

#[test]
fn test_close_completed_worktree_requires_merge() {
    let mut store = Store::new();
    store.ensure_thread("t-wt-1", None);
    store.worktrees.push("t-wt-1".to_string());

    let err = close(&mut store, "t-wt-1", CloseStatus::Completed, None).unwrap_err();

    assert!(err.message().contains("no completed merge"));
    assert!(err.message().contains("orch_merge"));

    // Thread should still be Active
    assert_eq!(store.get_thread_status("t-wt-1").unwrap(), "Active");
}

#[test]
fn test_close_completed_worktree_with_completed_merge_succeeds() {
    let mut store = Store::new();
    store.ensure_thread("t-wt-2", None);
    store.worktrees.push("t-wt-2".to_string());

    // A completed merge op
    store.merge_ops.push(merge_op("m-ok", "t-wt-2", "completed"));

    let out = close(&mut store, "t-wt-2", CloseStatus::Completed, Some("merged and done")).unwrap();

    assert_eq!(out.status, "Completed");
    assert_eq!(store.get_thread_status("t-wt-2").unwrap(), "Completed");
}

#[test]
fn test_close_completed_worktree_with_failed_merge_refuses() {
    let mut store = Store::new();
    store.ensure_thread("t-wt-3", None);
    store.worktrees.push("t-wt-3".to_string());

    // A failed merge op (not completed)
    store.merge_ops.push(merge_op("m-fail", "t-wt-3", "failed"));

    let err = close(&mut store, "t-wt-3", CloseStatus::Completed, None).unwrap_err();

    assert!(err.message().contains("no completed merge"));
}

#[test]
fn test_close_completed_worktree_with_pending_merge_refuses() {
    let mut store = Store::new();
    store.ensure_thread("t-wt-4", None);
    store.worktrees.push("t-wt-4".to_string());

    // A queued merge op (still pending, not completed)
    store.merge_ops.push(merge_op("m-pending", "t-wt-4", "queued"));

    let err = close(&mut store, "t-wt-4", CloseStatus::Completed, None).unwrap_err();

    assert!(err.message().contains("no completed merge"));
}

#[test]
fn test_close_failed_worktree_no_merge_required() {
    let mut store = Store::new();
    store.ensure_thread("t-wt-5", None);
    store.worktrees.push("t-wt-5".to_string());

    // Failed close on worktree thread — no merge required
    let out = close(&mut store, "t-wt-5", CloseStatus::Failed, Some("failed work")).unwrap();
    assert_eq!(out.status, "Failed");
}

#[test]
fn test_close_completed_non_worktree_no_merge_required() {
    let mut store = Store::new();
    store.ensure_thread("t-shared", None);

    // Non-worktree thread — no merge gate
    let out = close(&mut store, "t-shared", CloseStatus::Completed, Some("done")).unwrap();
    assert_eq!(out.status, "Completed");
}

// ── abandon_batch ─────────────────────────────────────────────

#[test]
fn test_abandon_batch_all_active() {
    let mut store = Store::new();
    store.ensure_thread("t-1", Some("b-1"));
    store.ensure_thread("t-2", Some("b-1"));
    store.ensure_thread("t-3", Some("b-1"));
    store.insert_execution("t-1");
    store.insert_execution("t-2");
    store.insert_execution("t-3");

    let out = abandon_batch(&mut store, "b-1");
    assert_eq!(out.batch_id, "b-1");
    assert_eq!(out.threads_abandoned, 3);
    assert_eq!(out.threads_already_terminal, 0);
    assert!(out.errors.is_empty());

    // All threads should now be Abandoned
    for tid in &["t-1", "t-2", "t-3"] {
        assert_eq!(store.get_thread_status(tid).unwrap(), "Abandoned");
    }
}

#[test]
fn test_abandon_batch_mixed_states() {
    let mut store = Store::new();
    store.ensure_thread("t-1", Some("b-2"));
    store.ensure_thread("t-2", Some("b-2"));
    store.ensure_thread("t-3", Some("b-2"));
    // Set one thread to Completed (terminal)
    store.set_status("t-2", ThreadStatus::Completed.as_str());

    let out = abandon_batch(&mut store, "b-2");
    assert_eq!(out.threads_abandoned, 2);
    assert_eq!(out.threads_already_terminal, 1);
    assert!(out.errors.is_empty());
}

#[test]
fn test_abandon_batch_empty() {
    let mut store = Store::new();

    let out = abandon_batch(&mut store, "nonexistent-batch");
    assert_eq!(out.threads_abandoned, 0);
    assert_eq!(out.threads_already_terminal, 0);
    assert!(out.errors.is_empty());
}

#[test]
fn test_abandon_batch_unrecognized_status_collects_error() {
    let mut store = Store::new();
    store.ensure_thread("t-1", Some("b-err"));
    store.set_status("t-1", "Bogus");

    let out = abandon_batch(&mut store, "b-err");
    assert_eq!(out.threads_abandoned, 0);
    assert_eq!(out.threads_already_terminal, 0);
    assert_eq!(out.errors.len(), 1);
    assert!(out.errors[0].contains("unrecognized status"));
}

#[test]
fn test_abandon_batch_all_terminal() {
    let mut store = Store::new();
    store.ensure_thread("t-1", Some("b-3"));
    store.ensure_thread("t-2", Some("b-3"));
    store.set_status("t-1", ThreadStatus::Completed.as_str());
    store.set_status("t-2", ThreadStatus::Completed.as_str());

    let out = abandon_batch(&mut store, "b-3");
    assert_eq!(out.threads_abandoned, 0);
    assert_eq!(out.threads_already_terminal, 2);
    assert!(out.errors.is_empty());
}

// ── merge ─────────────────────────────────────────────────────

#[test]
fn test_queue_merge_invalid_strategy() {
    let svc = MergeService::new();
    let mut state = Queueing::new("t-1", "operator", Some("main"), Some("yolo"), "merge");

    let err = match svc.queue_merge(&mut state, MergeReply::Begin, "/w", 0) {
        MergeStep::Done(result) => result.unwrap_err(),
        other => panic!("unexpected step {other:?}"),
    };

    assert!(matches!(err, MergeError::InvalidStrategy(ref s) if s == "yolo"));
    assert!(err.message().contains("yolo"));
}

// ── order and refusals ────────────────────────────────────────

#[test]
fn close_then_reopen_then_close_again() {
    let mut store = Store::new();
    store.ensure_thread("t-1", None);
    close(&mut store, "t-1", CloseStatus::Failed, None).unwrap();
    assert_eq!(
        store.messages,
        vec![(
            "operator".to_string(),
            "failure".to_string(),
            "thread closed as failed".to_string()
        )]
    );
    let out = reopen(&mut store, "t-1").unwrap();
    assert_eq!(out.previous_status, "Failed");
    assert_eq!(out.new_status, "Active");
    assert_eq!(store.get_thread_status("t-1").unwrap(), "Active");
    close(&mut store, "t-1", CloseStatus::Completed, None).unwrap();
    assert_eq!(store.messages[1].1, "completion");
    assert_eq!(store.messages[1].2, "thread closed as completed");
}

#[test]
fn broken_store_is_a_lookup_failure() {
    let mut store = Store::new();
    store.ensure_thread("t-1", None);
    store.broken = true;
    let err = close(&mut store, "t-1", CloseStatus::Completed, None).unwrap_err();
    assert!(matches!(err, LifecycleError::LookupFailed { .. }));
    assert!(err.message().contains("disk gone"));
    let err = abandon(&mut store, "t-1").unwrap_err();
    assert!(matches!(err, LifecycleError::LookupFailed { .. }));
}

#[test]
fn failed_update_is_a_storage_failure() {
    let svc = LifecycleService::new();
    let request = CloseRequest {
        thread_id: "t-1".to_string(),
        from: "operator".to_string(),
        status: CloseStatus::Completed,
        note: None,
    };
    for (reply, context) in [
        (CloseReply::Worktree(Err("x".to_string())), "failed to check worktree info"),
        (CloseReply::Merge(Err("x".to_string())), "failed to check merge status"),
        (CloseReply::Updated(Err("x".to_string())), "failed to close thread"),
    ] {
        match svc.close(&request, reply) {
            CloseStep::Done(Err(e)) => assert!(e.message().contains(context), "{}", e.message()),
            other => panic!("unexpected step {other:?}"),
        }
    }
    let mut state = Reopening::new("t-1");
    match svc.reopen(&mut state, ReopenReply::Updated(Err("x".to_string()))) {
        ReopenStep::Done(Err(e)) => assert!(e.message().contains("failed to reopen thread")),
        other => panic!("unexpected step {other:?}"),
    }
}

#[test]
fn a_refused_reopening_writes_nothing() {
    let mut store = Store::new();
    store.ensure_thread("t-1", None);
    let svc = LifecycleService::new();
    let mut state = Reopening::new("t-1");
    let reply = ReopenReply::Thread(store.get_thread("t-1"));
    assert!(matches!(svc.reopen(&mut state, reply), ReopenStep::Done(Err(_))));
    store.set_status("t-1", "Completed");
    let reply = ReopenReply::Thread(store.get_thread("t-1"));
    assert!(matches!(svc.reopen(&mut state, reply), ReopenStep::SetStatus(ThreadStatus::Active)));
}

#[test]
fn a_batch_goes_on_after_a_failure() {
    let svc = LifecycleService::new();
    let row = |id: &str, status: &str| ThreadRow {
        thread_id: id.to_string(),
        batch_id: Some("b".to_string()),
        summary: None,
        status: status.to_string(),
        created_at: 0,
        updated_at: 0,
    };
    let threads = vec![row("a", "Active"), row("b", "Failed"), row("c", "odd"), row("d", "Active")];
    let mut batch = svc.abandon_batch("b", Ok(threads)).unwrap();
    let mut asked = Vec::new();
    while let Some(id) = batch.pending() {
        asked.push(id.to_string());
        batch.record(Err(LifecycleError::LookupFailed { message: "gone".to_string() }));
    }
    assert_eq!(asked, ["a", "d"]);
    assert_eq!(batch.outcome.threads_already_terminal, 1);
    assert_eq!(batch.outcome.errors.len(), 3);
    let err = svc.abandon_batch("b", Err("x".to_string())).unwrap_err();
    assert!(err.message().contains("failed to list threads for batch 'b': x"));
}

#[test]
fn a_merge_that_the_preflight_refuses_is_not_inserted() {
    let svc = MergeService::new();
    let mut state = Queueing::new("t-1", "operator", None, None, "squash");
    assert!(matches!(
        svc.queue_merge(&mut state, MergeReply::Begin, "/w", 0),
        MergeStep::FindWorktree
    ));
    match svc.queue_merge(&mut state, MergeReply::Worktree(Ok(None)), "/w", 0) {
        MergeStep::Preflight { target_branch, repo_root } => {
            assert_eq!((target_branch.as_str(), repo_root.as_str()), ("main", "/w"));
        }
        other => panic!("unexpected step {other:?}"),
    }
    let refused = MergeReply::Preflight(Err("dirty".to_string()));
    match svc.queue_merge(&mut state, refused, "/w", 0) {
        MergeStep::Done(Err(e)) => assert_eq!(e.message(), "preflight failed: dirty"),
        other => panic!("unexpected step {other:?}"),
    }
}

#[test]
fn abandon_names_the_worktree_branch() {
    let mut store = Store::new();
    store.ensure_thread("t-9", None);
    store.worktrees.push("t-9".to_string());
    let out = abandon(&mut store, "t-9").unwrap();
    assert_eq!(out.worktree_branch.as_deref(), Some("compas/t-9"));
}

#[test]
fn abandon_kills_the_processes_that_were_read() {
    let svc = LifecycleService::new();
    let mut state = Abandoning::new("t-9");
    let running = vec![("e-1".to_string(), 11), ("e-2".to_string(), 12)];
    let step = svc.abandon(&mut state, AbandonReply::Processes(Ok(running)));
    assert!(matches!(step, AbandonStep::CancelExecutions));
    match svc.abandon(&mut state, AbandonReply::Cancelled(Ok(2))) {
        AbandonStep::KillProcesses(pids) => assert_eq!(pids, vec![11, 12]),
        other => panic!("unexpected step {other:?}"),
    }
    svc.abandon(&mut state, AbandonReply::Killed(vec![true, false]));
    svc.abandon(&mut state, AbandonReply::Worktree(Ok(false)));
    match svc.abandon(&mut state, AbandonReply::Updated(Ok(()))) {
        AbandonStep::Done(Ok(out)) => {
            assert_eq!((out.executions_cancelled, out.processes_killed), (2, 1));
        }
        other => panic!("unexpected step {other:?}"),
    }
    // Processes that could not be read are none.
    let mut state = Abandoning::new("t-9");
    svc.abandon(&mut state, AbandonReply::Processes(Err("down".to_string())));
    match svc.abandon(&mut state, AbandonReply::Cancelled(Ok(0))) {
        AbandonStep::KillProcesses(pids) => assert!(pids.is_empty()),
        other => panic!("unexpected step {other:?}"),
    }
}
