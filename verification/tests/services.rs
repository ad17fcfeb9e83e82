//! Events, hooks, errors, ids, JSON, time, waiting, merging and health.
use compas::clock::{format_timestamp, Instant, FIRST_SECOND, LAST_SECOND};
use compas::dashboard::settings::{next_fire, next_run_label, settings_lines, ScheduleConfig, SettingsInfo};
use compas::error::{daemon_lock_held_message, OrchestratorError};
use compas::events::OrchestratorEvent;
use compas::hooks::{
    event_json, hook_group, HookEntry, HookGroup, HookPoll, HookRunner, HookStep, HooksConfig,
};
use compas::ids::new_ulid;
use compas::json::{parse_json, pretty_json, Json};
use compas::lifecycle::merge::{MergeError, MergeReply, MergeService, MergeStep, Queueing};
use compas::lifecycle::LifecycleError;
use compas::mcp::health::{
    begin_health, diagnose, health_report, heartbeat_info, needs_heartbeat, PingCache, PingResult,
};
use compas::mcp::lifecycle::{abandon_batch_answer, close_request};
use compas::mcp::merge::{
    cancel_answer, cancel_refusal, merge_answer, merge_detail_answer, merge_overview_answer,
    merge_progress_message, merge_progress_token, op_to_detail, wait_merge_answer,
    wait_merge_timeout, WaitMergeAnswer, WaitMergeOutcome,
};
use compas::mcp::params::{CloseParams, CloseStatus, WaitParams};
use compas::mcp::session::{list_agents, session_info, AgentConfig, HandoffConfig, HandoffTarget};
use compas::mcp::wait::{
    progress_message, progress_token, wait_answer, wait_request, WaitAnswer, WaitOutcome,
};
use compas::store::{
    message_ref, parse_message_ref, ExecutionRow, MergeOperation, MessageRow, ThreadRow,
    ThreadStatus,
};
use compas::text::{eq_ignore_case, replace, split_lines, trim};

// ── Hooks ────────────────────────────────────────────────────

fn hook(command: &str, timeout_secs: u64) -> HookEntry {
    HookEntry { command: command.to_string(), args: None, timeout_secs, env: None }
}

fn status_changed(new_status: &str) -> OrchestratorEvent {
    OrchestratorEvent::ThreadStatusChanged {
        thread_id: "t-1".to_string(),
        new_status: new_status.to_string(),
    }
}

#[test]
fn hooks_follow_their_events() {
    let config = HooksConfig {
        on_execution_started: vec![hook("started", 1)],
        on_execution_completed: vec![hook("completed", 1)],
        on_thread_closed: vec![hook("closed", 1)],
        on_thread_failed: vec![hook("failed", 1)],
    };
    let name = |e: &OrchestratorEvent| config.hooks_for(e).map(|h| h[0].command.clone());
    let started = OrchestratorEvent::ExecutionStarted {
        execution_id: "e".to_string(),
        thread_id: "t".to_string(),
        agent_alias: "a".to_string(),
    };
    assert_eq!(name(&started).as_deref(), Some("started"));
    assert_eq!(name(&status_changed("Completed")).as_deref(), Some("closed"));
    assert_eq!(name(&status_changed("Failed")).as_deref(), Some("failed"));
    assert_eq!(name(&status_changed("Active")), None);
    assert!(matches!(hook_group(&started), Some(HookGroup::ExecutionStarted)));
    assert!(hook_group(&OrchestratorEvent::AgentHealthChanged {
        agent_alias: "a".to_string(),
        healthy: true
    })
    .is_none());
}

#[test]
fn hooks_read_json() {
    let text = event_json(&status_changed("Failed"), "2026-01-01T00:00:00Z");
    let value = parse_json(&text).unwrap();
    assert_eq!(value.get_str("event"), Some("thread_failed"));
    assert_eq!(value.get_str("thread_id"), Some("t-1"));
    assert_eq!(value.get_str("new_status"), Some("Failed"));
    assert_eq!(value.get_str("timestamp"), Some("2026-01-01T00:00:00Z"));
    let completed = OrchestratorEvent::ExecutionCompleted {
        execution_id: "e".to_string(),
        thread_id: "t".to_string(),
        agent_alias: "a".to_string(),
        success: true,
        duration_ms: 1500,
    };
    let value = parse_json(&event_json(&completed, "now")).unwrap();
    assert!(matches!(value.get("success"), Some(Json::Bool(true))));
    assert!(matches!(value.get("duration_ms"), Some(Json::Number(n)) if n == "1500"));
}

#[test]
fn hooks_end_at_their_timeout() {
    let h = hook("sleep", 2);
    assert!(matches!(HookRunner::run_hook(&h, HookPoll::Exited, 9_999), HookStep::Done));
    assert!(matches!(HookRunner::run_hook(&h, HookPoll::Running, 1_999), HookStep::Wait));
    match HookRunner::run_hook(&h, HookPoll::Running, 2_000) {
        HookStep::Kill(e) => assert_eq!(e, "hook 'sleep' timed out after 2s"),
        other => panic!("unexpected step {other:?}"),
    }
    match HookRunner::run_hook(&h, HookPoll::WaitFailed("gone".to_string()), 0) {
        HookStep::Failed(e) => assert_eq!(e, "error waiting for hook 'sleep': gone"),
        other => panic!("unexpected step {other:?}"),
    }
    assert_eq!(HookRunner::spawn_failed(&h, "no such file"), "failed to spawn hook 'sleep': no such file");
}

#[test]
fn every_hook_runs_in_order() {
    let hooks = vec![hook("a", 1), hook("b", 1)];
    let mut ran = Vec::new();
    while let Some(h) = HookRunner::run_hooks(&hooks, ran.len()) {
        ran.push(h.command.clone());
    }
    assert_eq!(ran, vec!["a", "b"]);
}

// ── Errors ───────────────────────────────────────────────────

#[test]
fn errors_say_what_happened() {
    let m = || "m".to_string();
    for (e, text) in [
        (OrchestratorError::Config(m()), "config error: m"),
        (OrchestratorError::Store(m()), "store error: m"),
        (OrchestratorError::Workflow(m()), "workflow error: m"),
        (OrchestratorError::Backend(m()), "backend error: m"),
        (OrchestratorError::Notification(m()), "notification error: m"),
        (OrchestratorError::Audit(m()), "audit error: m"),
        (OrchestratorError::Io(m()), "io error: m"),
        (OrchestratorError::Yaml(m()), "yaml parse error: m"),
        (OrchestratorError::Json(m()), "json error: m"),
        (OrchestratorError::Sqlite(m()), "sqlite error: m"),
        (OrchestratorError::UnknownAlias(m()), "unknown agent alias: m"),
        (
            OrchestratorError::InvalidTransition { from: "a".to_string(), to: "b".to_string() },
            "invalid intent transition: a -> b",
        ),
        (OrchestratorError::Timeout(m()), "timeout: m"),
        (OrchestratorError::Other(m()), "m"),
    ] {
        assert_eq!(e.message(), text);
    }
    let held = OrchestratorError::DaemonLockHeld {
        worker_id: "w".to_string(),
        pid: 7,
        heartbeat_age_secs: 3,
    };
    assert_eq!(held.message(), daemon_lock_held_message("w", 7, 3));
    assert_eq!(
        daemon_lock_held_message("w", 7, 3),
        "worker lock held by another process (worker_id: w, pid: 7, heartbeat_age_secs: 3). Kill the existing worker (kill 7) or wait for it to exit."
    );
    assert!(daemon_lock_held_message("w", 0, 0).contains("hasn't started heartbeating yet"));
    let e = LifecycleError::ThreadNotFound { thread_id: "t-1".to_string() };
    assert!(e.message().contains("t-1"));
    assert!(MergeError::PreflightFailed("dirty".to_string()).message().contains("dirty"));
    assert!(MergeError::StoreFailed("disk".to_string()).message().contains("disk"));
}

// ── Texts, ids and references ────────────────────────────────

#[test]
fn ids_are_fresh() {
    let a = new_ulid();
    assert_eq!(a.len(), 26);
    assert_ne!(a, new_ulid());
}

#[test]
fn references_read_back() {
    for id in [0, 1, -5, i64::MAX, i64::MIN] {
        assert_eq!(parse_message_ref(&message_ref(id)), Ok(id));
    }
    assert!(parse_message_ref("nope").is_err());
    for s in [ThreadStatus::Active, ThreadStatus::Completed, ThreadStatus::Failed, ThreadStatus::Abandoned] {
        assert_eq!(ThreadStatus::parse(s.as_str()), Some(s));
    }
    assert_eq!(ThreadStatus::parse("active"), None);
}

#[test]
fn texts_behave() {
    assert_eq!(trim(" \t\u{a0}x y\n"), "x y");
    assert_eq!(split_lines("a\r\nb\n\nc"), vec!["a", "b", "", "c"]);
    assert_eq!(replace("a_b_", "_", "--"), "a--b--");
    assert!(eq_ignore_case("ABÉ", "abÉ"));
    assert!(!eq_ignore_case("É", "é"));
}

#[test]
fn json_is_read_and_written() {
    assert!(parse_json("{bad").is_none());
    let v = parse_json("{\"b\":[1,null,\"x\"],\"a\":true}").unwrap();
    match v.get("b") {
        Some(Json::Array(items)) => {
            assert!(matches!(&items[0], Json::Number(n) if n == "1"));
            assert!(matches!(&items[1], Json::Null));
            assert!(matches!(&items[2], Json::Str(s) if s == "x"));
        }
        other => panic!("unexpected value {other:?}"),
    }
    assert!(v.get("c").is_none());
    assert_eq!(pretty_json("{\"a\":1}").unwrap(), "{\n  \"a\": 1\n}");
    assert!(pretty_json("x").is_none());
}

// ── Time ─────────────────────────────────────────────────────

#[test]
fn timestamps_show_the_day_when_it_is_another() {
    let ts = 1_700_000_000; // 2023-11-14 22:13:20 UTC
    assert_eq!(format_timestamp(ts, ts + 60), "22:13 UTC");
    assert_eq!(format_timestamp(ts, ts + 86_400), "Nov 14 22:13");
    assert_eq!(format_timestamp(i64::MAX, ts), "-");
    assert_eq!(format_timestamp(-1, -1), "23:59 UTC");
    assert_eq!(format_timestamp(7 * 3600 + 5 * 60, 0), "07:05 UTC");
    assert_eq!(format_timestamp(LAST_SECOND, LAST_SECOND), "23:59 UTC");
    assert_eq!(format_timestamp(LAST_SECOND + 1, LAST_SECOND + 1), "-");
    assert_eq!(format_timestamp(FIRST_SECOND, FIRST_SECOND), "00:00 UTC");
    assert_eq!(format_timestamp(FIRST_SECOND - 1, FIRST_SECOND - 1), "-");
}

fn schedule(cron: &str, enabled: bool) -> ScheduleConfig {
    ScheduleConfig {
        name: "nightly".to_string(),
        agent: "dev".to_string(),
        cron: cron.to_string(),
        enabled,
        max_runs: 5,
    }
}

#[test]
fn schedules_tell_their_next_run() {
    // 2023-11-14 22:13:20 UTC; the next hour begins 46m 40s later.
    let now = Instant { secs: 1_700_000_000, nanos: 0 };
    assert_eq!(next_fire(&schedule("0 * * * *", true), now), "46m 40s");
    assert_eq!(next_fire(&schedule("0 * * * *", false), now), "—");
    assert_eq!(next_fire(&schedule("never", true), now), "—");
    // The last second of 1969, and one of the year 1900.
    let before_epoch = Instant { secs: -1, nanos: 0 };
    assert_eq!(next_fire(&schedule("0 * * * *", true), before_epoch), "1s");
    let ancient = Instant { secs: -2_208_988_790, nanos: 0 };
    assert_eq!(next_fire(&schedule("0 * * * *", true), ancient), "59m 50s");
    // The year before the first that schedules span ends an hour later.
    let year_zero = Instant { secs: -62_135_596_800 - 3600, nanos: 0 };
    assert_eq!(next_fire(&schedule("0 * * * *", true), year_zero), "1h 0m");
    // The year 5000 is the last of them.
    let last_hours = Instant { secs: 95_649_119_999, nanos: 0 };
    assert_eq!(next_fire(&schedule("0 * * * *", true), last_hours), "—");
    let last_but_one = Instant { secs: 95_649_119_999 - 3600, nanos: 0 };
    assert_eq!(next_fire(&schedule("0 * * * *", true), last_but_one), "1s");
    let beyond = Instant { secs: i64::MAX, nanos: 0 };
    assert_eq!(next_fire(&schedule("0 * * * *", true), beyond), "—");
    assert_eq!(next_run_label(Some(Instant { secs: now.secs - 1, nanos: 0 }), now), "0s");
    let later = Instant { secs: now.secs + 2, nanos: 0 };
    assert_eq!(next_run_label(Some(later), Instant { secs: now.secs, nanos: 1 }), "1s");
    let info = SettingsInfo {
        config_path: "/c.yaml".to_string(),
        db_path: "/db".to_string(),
        poll_secs: 2,
        agent_count: 1,
        log_dir: "/logs".to_string(),
        schedules: vec![schedule("0 * * * *", true)],
    };
    let text: Vec<String> = settings_lines(&info, &None, now)
        .iter()
        .map(|l| l.spans.iter().map(|s| s.text.as_str()).collect())
        .collect();
    assert_eq!(text[0], "  Config:        /c.yaml");
    assert!(text.iter().any(|l| l.contains("nightly") && l.contains("46m 40s") && l.contains("0/5")));
}

// ── Waiting ──────────────────────────────────────────────────

fn wait_params(timeout_secs: Option<u64>) -> WaitParams {
    WaitParams {
        thread_id: "t".to_string(),
        intent: None,
        since_reference: None,
        strict_new: None,
        timeout_secs,
        await_chain: None,
    }
}

#[test]
fn waits_stay_below_their_ceiling() {
    let (request, limits) = wait_request(wait_params(Some(9_999)), 600, vec![]);
    assert_eq!(request.timeout_secs, 630);
    assert!(limits.clamped);
    let timeout = WaitOutcome::Timeout {
        thread_id: "t".to_string(),
        timeout_secs: 630,
        intent_filter: None,
        chain_pending: false,
    };
    match wait_answer(&limits, Ok(timeout)).unwrap() {
        WaitAnswer::Timeout(t) => {
            assert!(!t.found && t.clamped);
            assert_eq!(
                t.hint.unwrap(),
                "Requested timeout 9999s was clamped to server ceiling 630s (derived from execution_timeout_secs). Re-issue orch_wait to continue waiting."
            );
        }
        other => panic!("unexpected answer {other:?}"),
    }
    let found = WaitOutcome::Found {
        message: MessageRow {
            id: 4,
            thread_id: "t".to_string(),
            from_alias: "dev".to_string(),
            to_alias: "operator".to_string(),
            intent: "review".to_string(),
            body: "b".to_string(),
            batch_id: None,
            created_at: 1,
        },
        fanout_children_awaited: None,
        settled_at: None,
    };
    match wait_answer(&limits, Ok(found)).unwrap() {
        WaitAnswer::Found(f) => assert_eq!((f.found, f.reference.as_str()), (true, "db:4")),
        other => panic!("unexpected answer {other:?}"),
    }
    assert!(wait_answer(&limits, Err("x".to_string())).is_err());
    assert_eq!(progress_token("t"), "orch-wait-t");
    assert_eq!(progress_message("t", 10, 630), "waiting for message on thread t... 10/630s");
}

// ── Merging ──────────────────────────────────────────────────

fn merge_op(status: &str, conflicts: Option<&str>) -> MergeOperation {
    MergeOperation {
        id: "m-1".to_string(),
        thread_id: "t-1".to_string(),
        source_branch: "compas/t-1".to_string(),
        target_branch: "main".to_string(),
        merge_strategy: "merge".to_string(),
        requested_by: "operator".to_string(),
        status: status.to_string(),
        push_requested: false,
        queued_at: 1,
        claimed_at: None,
        started_at: None,
        finished_at: None,
        duration_ms: None,
        result_summary: None,
        error_detail: None,
        conflict_files: conflicts.map(|c| c.to_string()),
        commit_message: None,
    }
}

#[test]
fn merges_are_planned_and_queued() {
    let svc = MergeService::new();
    let mut state = Queueing::new("t-1", "operator", None, None, "squash");
    assert_eq!(state.op_id.len(), 26);
    assert_eq!((state.target_branch.as_str(), state.strategy.as_str()), ("main", "squash"));
    let root = Ok(Some(("/wt".to_string(), "/r".to_string())));
    match svc.queue_merge(&mut state, MergeReply::Worktree(root), "/w", 5) {
        MergeStep::Preflight { repo_root, .. } => assert_eq!(repo_root, "/r"),
        other => panic!("unexpected step {other:?}"),
    }
    let ready = MergeReply::Preflight(Ok("compas/t-1".to_string()));
    assert!(matches!(svc.queue_merge(&mut state, ready, "/w", 5), MergeStep::FindThread));
    let thread = ThreadRow {
        thread_id: "t-1".to_string(),
        batch_id: None,
        summary: Some("sum".to_string()),
        status: "Active".to_string(),
        created_at: 0,
        updated_at: 0,
    };
    let op = match svc.queue_merge(&mut state, MergeReply::Thread(Ok(Some(thread))), "/w", 5) {
        MergeStep::Insert(op) => op,
        other => panic!("unexpected step {other:?}"),
    };
    assert_eq!((op.id.as_str(), op.status.as_str()), (state.op_id.as_str(), "queued"));
    assert_eq!((op.source_branch.as_str(), op.queued_at), ("compas/t-1", 5));
    assert_eq!(op.commit_message.as_deref(), Some("sum"));
    match svc.queue_merge(&mut state, MergeReply::Inserted(Ok(())), "/w", 5) {
        MergeStep::CountQueued(branch) => assert_eq!(branch, "main"),
        other => panic!("unexpected step {other:?}"),
    }
    let mut last = |reply| match svc.queue_merge(&mut state, reply, "/w", 5) {
        MergeStep::Done(result) => result,
        other => panic!("unexpected step {other:?}"),
    };
    let queued = last(MergeReply::Depth(Ok(3))).unwrap();
    assert_eq!(queued.queue_depth, 3);
    assert_eq!(last(MergeReply::Depth(Err("x".to_string()))).unwrap().queue_depth, 1);
    assert!(matches!(
        last(MergeReply::Inserted(Err("x".to_string()))),
        Err(MergeError::StoreFailed(_))
    ));
    let answer = merge_answer(Ok(queued)).unwrap();
    assert_eq!(
        answer.next_step,
        format!(
            "orch_wait_merge(op_id=\"{0}\") or CLI: compas wait merge --op-id {0} --timeout 120",
            op.id
        )
    );
}

#[test]
fn failed_merges_suggest_what_to_do() {
    let d = op_to_detail(&merge_op("failed", Some("[\"a.rs\",\"b.rs\"]")));
    assert_eq!(d.conflict_files, Some(vec!["a.rs".to_string(), "b.rs".to_string()]));
    assert_eq!(
        d.suggested_actions.unwrap(),
        vec![
            "Resolve conflicts in the source branch, then re-queue the merge".to_string(),
            "Re-queue with: orch_merge(thread_id=\"t-1\", target_branch=\"main\")".to_string(),
            "Cancel with: orch_merge_cancel(op_id=\"m-1\")".to_string(),
        ]
    );
    let d = op_to_detail(&merge_op("failed", Some("no list")));
    assert!(d.conflict_files.is_none());
    assert_eq!(d.suggested_actions.unwrap().len(), 2);
    assert!(op_to_detail(&merge_op("completed", None)).suggested_actions.is_none());
}

#[test]
fn merge_tools_answer() {
    assert_eq!(merge_detail_answer("m", Ok(None)).unwrap_err(), "merge operation 'm' not found");
    assert_eq!(
        merge_detail_answer("m", Err("x".to_string())).unwrap_err(),
        "failed to query merge op: x"
    );
    let o = merge_overview_answer(Ok(vec![("queued".to_string(), 1)]), Ok(vec![merge_op("queued", None)]));
    assert_eq!(o.unwrap().recent[0].op_id, "m-1");
    assert_eq!(
        merge_overview_answer(Err("x".to_string()), Ok(vec![])).unwrap_err(),
        "failed to count merge operations: x"
    );
    assert_eq!(
        merge_overview_answer(Ok(vec![]), Err("x".to_string())).unwrap_err(),
        "failed to list merge operations: x"
    );
    assert_eq!(cancel_refusal("m", &Ok(None)).unwrap(), "merge operation 'm' not found");
    assert!(cancel_refusal("m", &Ok(Some(merge_op("queued", None)))).is_none());
    assert!(cancel_answer("m", Ok(true), None).unwrap().cancelled);
    assert_eq!(
        cancel_answer("m", Ok(false), Some(merge_op("executing", None))).unwrap_err(),
        "cannot cancel merge operation 'm' — current status is 'executing' (only 'queued' operations can be cancelled)"
    );
    assert_eq!(cancel_answer("m", Err("x".to_string()), None).unwrap_err(), "failed to cancel merge op: x");
    assert_eq!((wait_merge_timeout(None), wait_merge_timeout(Some(3))), (120, 3));
    assert_eq!(merge_progress_token("m"), "orch-wait-merge-m");
    assert_eq!(merge_progress_message("m", 1, 2), "waiting for merge op m... 1/2s");
    match wait_merge_answer(Ok(WaitMergeOutcome::Found(merge_op("completed", None)))).unwrap() {
        WaitMergeAnswer::Found(f) => assert!(f.found && f.status == "completed"),
        other => panic!("unexpected answer {other:?}"),
    }
}

// ── Health, agents and sessions ──────────────────────────────

fn agent(alias: &str, to: Option<&str>) -> AgentConfig {
    AgentConfig {
        alias: alias.to_string(),
        backend: "stub".to_string(),
        role: "worker".to_string(),
        model: None,
        timeout_secs: None,
        handoff: to.map(|t| HandoffConfig {
            on_response: Some(HandoffTarget::Single(t.to_string())),
            max_chain_depth: None,
        }),
    }
}

#[test]
fn health_pings_only_what_is_not_cached() {
    let agents = vec![agent("a", None), agent("b", None)];
    let mut cache = PingCache::new();
    let ping = |alive| PingResult { alive, latency_ms: 3, detail: None };
    cache.set("a".to_string(), ping(true), 1_000);
    let circuits = vec![("stub".to_string(), "open".to_string(), 2)];
    let mut check = begin_health(&agents, &None, &cache, 60_000, 2_000, &circuits);
    assert_eq!(check.need_ping.len(), 1);
    assert!(check.agents[0].cached && check.agents[0].ping_alive);
    assert_eq!((check.agents[0].circuit_state.as_str(), check.agents[0].circuit_failures), ("open", 2));
    let index = check.need_ping[0];
    check.apply_ping(index, ping(false), &mut cache, 2_000);
    assert!(!check.agents[1].cached && !check.agents[1].ping_alive);
    assert!(cache.get("b", 60_000, 2_001).is_some());
    let beat = heartbeat_info(Ok(Some(("w".to_string(), 5, 1, None))));
    let report = health_report(beat, Ok(9), check);
    assert_eq!((report.queue_depth, report.agents.len()), (9, 2));
    assert_eq!(report.worker_heartbeat.unwrap().worker_id, "w");
    assert!(heartbeat_info(Err("x".to_string())).is_none());
    let one = begin_health(&agents, &Some("b".to_string()), &cache, 0, 2_000, &circuits);
    assert_eq!((one.agents.len(), one.need_ping.len()), (1, 1));
    let all = begin_health(&agents, &None, &PingCache::new(), 60_000, 2_000, &circuits);
    assert_eq!(all.need_ping, [0, 1]);
}

fn execution(status: &str, error: Option<&str>) -> ExecutionRow {
    ExecutionRow {
        id: "e".to_string(),
        thread_id: "t".to_string(),
        batch_id: None,
        agent_alias: "a".to_string(),
        dispatch_message_id: None,
        status: status.to_string(),
        queued_at: 0,
        picked_up_at: None,
        started_at: None,
        finished_at: None,
        duration_ms: None,
        exit_code: None,
        output_preview: None,
        error_detail: error.map(|e| e.to_string()),
        parsed_intent: None,
        prompt_hash: None,
        attempt_number: 1,
        retry_after: None,
        error_category: None,
        original_dispatch_message_id: None,
        pid: None,
        eligible_at: None,
        eligible_reason: None,
    }
}

fn thread(status: &str) -> ThreadRow {
    ThreadRow {
        thread_id: "t".to_string(),
        batch_id: None,
        summary: None,
        status: status.to_string(),
        created_at: 0,
        updated_at: 0,
    }
}

#[test]
fn diagnosis_names_blockers() {
    let d = |status: &str, messages, executions: Vec<ExecutionRow>, beat| {
        diagnose("t", thread(status), messages, &executions, beat)
    };
    let r = d("Active", 1, vec![execution("failed", None)], true);
    assert_eq!(r.blockers, vec!["last execution failed: (no detail)"]);
    assert_eq!(r.suggestions, vec!["inspect error and re-dispatch or abandon"]);
    let r = d("Active", 1, vec![execution("queued", None)], false);
    assert_eq!(r.blockers, vec!["execution is queued but no worker heartbeat found"]);
    let r = d("Active", 1, vec![execution("queued", None)], true);
    assert!(r.blockers.is_empty() && r.suggestions.is_empty());
    let r = d("Active", 0, vec![], true);
    assert_eq!(r.blockers, vec!["thread is Active but has no messages or executions"]);
    let r = d("Failed", 1, vec![], true);
    assert_eq!(r.blockers, vec!["thread is in failed state"]);
    assert!(d("Completed", 1, vec![], true).blockers.is_empty());
    assert!(needs_heartbeat(&thread("Active"), &vec![execution("queued", None)]));
    assert!(!needs_heartbeat(&thread("Active"), &vec![execution("failed", None)]));
}

#[test]
fn agents_and_sessions_are_listed() {
    let agents = vec![agent("a", Some("b")), agent("b", Some("operator"))];
    let active = vec![("a".to_string(), 2)];
    let queued = vec![("b".to_string(), 1)];
    let r = list_agents(&agents, &active, &queued, 3, 10);
    assert_eq!((r.agents[0].active, r.agents[0].available), (2, 1));
    assert!(r.agents[0].await_chain_recommended);
    assert_eq!(r.agents[0].max_chain_depth, Some(3));
    assert_eq!((r.agents[1].queued, r.agents[1].await_chain_recommended), (1, false));
    assert_eq!((r.global_active, r.global_available), (2, 8));
    let s = session_info("1.2.3", &agents, "/db");
    assert_eq!((s.server.as_str(), s.agent_count), ("compas", 2));
}

#[test]
fn lifecycle_tools_answer() {
    let r = close_request(CloseParams {
        thread_id: "t".to_string(),
        from: "operator".to_string(),
        status: CloseStatus::Failed,
        note: None,
    });
    assert_eq!(r.thread_id, "t");
    assert!(matches!(r.status, compas::lifecycle::CloseStatus::Failed));
    let empty = compas::lifecycle::LifecycleService::new().abandon_batch("b", Ok(vec![])).unwrap();
    assert!(abandon_batch_answer("b", empty.outcome).is_err());
}
