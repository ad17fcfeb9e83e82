//! Status, transcripts, logs, tasks and statistics.
use compas::mcp::params::{PollParams, ReadLogParams, TasksParams};
use compas::mcp::query::{
    batch_status_answer, events_answer, events_limit, metrics_answer, poll_answer, poll_refusal,
    poll_since, read_answer, read_log_answer, scheduled_answer, status_answer, tasks_answer,
    tasks_limit, tasks_refusal, tasks_source, tool_stats_answer, transcript_answer,
    worktrees_answer, CostOverview, LogSource, PollFailure, ReadLogResponse, ToolCalls, ToolErrors, WorktreeInfo,
    BATCH_STATUS_LIMIT,
};
use compas::store::{
    AgentCostSummary, ExecutionEventRow, ExecutionRow, MessageRow, ThreadRow, ThreadStatusView,
};

fn execution(id: &str) -> ExecutionRow {
    ExecutionRow {
        id: id.to_string(),
        thread_id: "t-1".to_string(),
        batch_id: None,
        agent_alias: "dev".to_string(),
        dispatch_message_id: Some(1),
        status: "queued".to_string(),
        queued_at: 10,
        picked_up_at: None,
        started_at: None,
        finished_at: None,
        duration_ms: None,
        exit_code: None,
        output_preview: Some("one\ntwo\n".to_string()),
        error_detail: None,
        parsed_intent: None,
        prompt_hash: Some("h".to_string()),
        attempt_number: 1,
        retry_after: None,
        error_category: None,
        original_dispatch_message_id: None,
        pid: None,
        eligible_at: Some(1_767_225_600),
        eligible_reason: Some("scheduled".to_string()),
    }
}

fn view(thread_id: &str, execution_id: Option<&str>) -> ThreadStatusView {
    ThreadStatusView {
        thread_id: thread_id.to_string(),
        batch_id: None,
        summary: Some("s".to_string()),
        thread_status: "Active".to_string(),
        thread_created_at: 0,
        thread_updated_at: 0,
        execution_id: execution_id.map(|e| e.to_string()),
        agent_alias: Some("dev".to_string()),
        execution_status: Some("executing".to_string()),
        queued_at: None,
        started_at: Some(5),
        finished_at: None,
        duration_ms: None,
        error_detail: Some("boom".to_string()),
        parsed_intent: None,
        prompt_hash: None,
        eligible_at: Some(i64::MAX),
        eligible_reason: None,
    }
}

fn thread() -> ThreadRow {
    ThreadRow {
        thread_id: "t-1".to_string(),
        batch_id: Some("b".to_string()),
        summary: Some("s".to_string()),
        status: "Active".to_string(),
        created_at: 0,
        updated_at: 0,
    }
}

fn message(id: i64, intent: &str, body: &str) -> MessageRow {
    MessageRow {
        id,
        thread_id: "t-1".to_string(),
        from_alias: "dev".to_string(),
        to_alias: "operator".to_string(),
        intent: intent.to_string(),
        body: body.to_string(),
        batch_id: None,
        created_at: 7,
    }
}

fn failed<T>() -> Result<T, String> {
    Err("x".to_string())
}

#[test]
fn status_lists_threads_and_scheduled_count() {
    let a = status_answer(Ok(vec![view("t-1", None)]), Ok(4)).unwrap();
    assert_eq!(a.threads[0].agent.as_deref(), Some("dev"));
    assert_eq!(a.threads[0].error.as_deref(), Some("boom"));
    assert_eq!(a.scheduled_count, 4);
    assert_eq!(status_answer(Ok(vec![]), failed()).unwrap().scheduled_count, 0);
    assert_eq!(status_answer(failed(), Ok(4)).unwrap_err(), "status query failed: x");
}

#[test]
fn transcript_holds_messages_and_executions() {
    let t = transcript_answer(
        "t-1",
        Ok(vec![message(3, "dispatch", "go")]),
        Ok(vec![execution("e-1")]),
        Some(thread()),
    )
    .unwrap();
    assert_eq!(t.messages[0].reference, "db:3");
    assert_eq!(t.executions[0].agent, "dev");
    assert_eq!(t.thread_status.as_deref(), Some("Active"));
    assert_eq!(t.batch_id.as_deref(), Some("b"));
    let t = transcript_answer("t-1", Ok(vec![]), Ok(vec![]), None).unwrap();
    assert!(t.thread_status.is_none() && t.summary.is_none());
    assert_eq!(
        transcript_answer("t", failed(), failed(), None).unwrap_err(),
        "transcript query failed: x"
    );
    assert_eq!(
        transcript_answer("t", Ok(vec![]), failed(), None).unwrap_err(),
        "executions query failed: x"
    );
}

#[test]
fn single_message_is_read() {
    let d = read_answer("db:3", Ok(Some(message(3, "review", "body")))).unwrap();
    assert_eq!((d.id, d.reference.as_str(), d.body.as_str()), (3, "db:3", "body"));
    assert_eq!(read_answer("db:3", Ok(None)).unwrap_err(), "message not found: db:3");
    assert_eq!(read_answer("db:3", failed()).unwrap_err(), "read failed: x");
}

#[test]
fn metrics_fail_on_the_first_failure() {
    let cost = CostOverview {
        total_cost_bits: 1.5f64.to_bits(),
        total_tokens_in: 1,
        total_tokens_out: 2,
        executions_with_cost: 3,
    };
    let m = metrics_answer(Ok(vec![("Active".to_string(), 2)]), Ok(5), Ok(6), Ok(vec![]), Ok(cost));
    let m = m.unwrap();
    assert_eq!((m.total_messages, m.queue_depth), (5, 6));
    assert_eq!(f64::from_bits(m.cost.total_cost_bits), 1.5);
    let e = metrics_answer(Ok(vec![]), Ok(1), Err("first".to_string()), failed(), Ok(cost));
    assert_eq!(e.unwrap_err(), "metrics query failed: first");
}

#[test]
fn tool_statistics_are_joined_by_name() {
    let errors = vec![
        ToolErrors { tool_name: "Bash".to_string(), error_count: 1, error_rate_bits: 7 },
        ToolErrors { tool_name: "Bash".to_string(), error_count: 2, error_rate_bits: 8 },
    ];
    let calls = vec![
        ToolCalls { tool_name: "Bash".to_string(), call_count: 10 },
        ToolCalls { tool_name: "Read".to_string(), call_count: 4 },
    ];
    let usage = vec![
        ("dev".to_string(), "Bash".to_string(), 9),
        ("qa".to_string(), "Bash".to_string(), 1),
    ];
    let cost = |alias: &str| AgentCostSummary {
        agent_alias: alias.to_string(),
        cost_text: "$1.00".to_string(),
        cost_bits: 1f64.to_bits(),
        total_tokens_in: 0,
        total_tokens_out: 0,
        execution_count: 1,
    };
    let a = tool_stats_answer(
        &Some("dev".to_string()),
        Ok(errors),
        Ok(calls),
        Ok(usage),
        Ok(vec![cost("dev"), cost("qa")]),
    )
    .unwrap();
    assert_eq!((a.tool_stats[0].error_count, a.tool_stats[0].error_rate_bits), (2, 8));
    assert_eq!((a.tool_stats[1].error_count, a.tool_stats[1].error_rate_bits), (0, 0));
    assert_eq!(a.tool_usage_by_agent.len(), 1);
    assert_eq!(a.tool_usage_by_agent[0].agent_alias, "dev");
    assert_eq!(a.cost_by_agent.len(), 1);
    let e = |a, b, c, d| tool_stats_answer(&None, a, b, c, d).unwrap_err();
    assert_eq!(e(failed(), Ok(vec![]), Ok(vec![]), Ok(vec![])), "tool stats query failed: x");
    assert_eq!(e(Ok(vec![]), failed(), Ok(vec![]), Ok(vec![])), "tool stats query failed: x");
    assert_eq!(e(Ok(vec![]), Ok(vec![]), failed(), Ok(vec![])), "tool usage query failed: x");
    assert_eq!(e(Ok(vec![]), Ok(vec![]), Ok(vec![]), failed()), "cost by agent query failed: x");
}

fn poll(intent: Option<&str>, since: Option<&str>) -> PollParams {
    PollParams {
        thread_id: "t-1".to_string(),
        intent: intent.map(|s| s.to_string()),
        since_reference: since.map(|s| s.to_string()),
    }
}

#[test]
fn poll_skips_what_starts_work() {
    let messages =
        vec![message(1, "dispatch", "go"), message(2, "review", "ok"), message(3, "dispatch", "again")];
    let triggers = vec!["dispatch".to_string()];
    let p = poll(None, None);
    let r = poll_answer(&p, thread(), &messages, &triggers, Some("queued".to_string()));
    assert_eq!((r.matched_messages, r.latest_message_id), (1, Some(2)));
    assert_eq!(r.latest_message_ref.as_deref(), Some("db:2"));
    assert_eq!(r.execution_status.as_deref(), Some("queued"));
    // With a cursor everything counts.
    let r = poll_answer(&poll(None, Some("db:0")), thread(), &messages, &triggers, None);
    assert_eq!((r.matched_messages, r.latest_message_id), (3, Some(3)));
    // An intent decides alone.
    let r = poll_answer(&poll(Some("dispatch"), None), thread(), &messages, &triggers, None);
    assert_eq!((r.matched_messages, r.latest_message_id), (2, Some(3)));
    let r = poll_answer(&poll(Some("none"), None), thread(), &messages, &triggers, None);
    assert_eq!((r.matched_messages, r.latest_message_id), (0, None));
    assert!(r.latest_intent.is_none() && r.latest_body_preview.is_none());
}

#[test]
fn poll_preview_is_cut_after_two_hundred_bytes() {
    let long = "a".repeat(201);
    let exact = "b".repeat(200);
    for (body, shown) in [(long.clone(), format!("{}...", "a".repeat(200))), (exact.clone(), exact)] {
        let r = poll_answer(&poll(None, None), thread(), &vec![message(1, "x", &body)], &vec![], None);
        assert_eq!(r.latest_body_preview.unwrap(), shown);
    }
    // A character is never cut in two.
    let wide = "é".repeat(101);
    let r = poll_answer(&poll(None, None), thread(), &vec![message(1, "x", &wide)], &vec![], None);
    assert_eq!(r.latest_body_preview.unwrap(), format!("{}...", "é".repeat(100)));
}

#[test]
fn poll_cursors_and_refusals() {
    assert_eq!(poll_since(&None), Ok(0));
    assert_eq!(poll_since(&Some("db:12".to_string())), Ok(12));
    assert_eq!(poll_since(&Some("12".to_string())), Ok(12));
    assert!(poll_since(&Some("db:x".to_string())).is_err());
    assert_eq!(poll_refusal("t", PollFailure::NoThread), "thread not found: t");
    assert_eq!(poll_refusal("t", PollFailure::Lookup("x".to_string())), "poll failed: x");
    assert_eq!(poll_refusal("t", PollFailure::Messages("x".to_string())), "poll messages failed: x");
}

#[test]
fn batch_status_counts_its_threads() {
    let b = batch_status_answer("b", Ok(vec![thread(), thread()])).unwrap();
    assert_eq!((b.thread_count, b.threads.len()), (2, 2));
    assert_eq!(b.threads[0].status, "Active");
    assert_eq!(batch_status_answer("b", failed()).unwrap_err(), "batch query failed: x");
}

#[test]
fn every_thread_of_a_large_batch_is_reported() {
    assert_eq!(BATCH_STATUS_LIMIT, i64::MAX);
    let b = batch_status_answer("b", Ok((0..150).map(|_| thread()).collect())).unwrap();
    assert_eq!((b.thread_count, b.threads.len()), (150, 150));
}

#[test]
fn execution_events_are_limited() {
    assert_eq!(events_limit(None), 100);
    assert_eq!(events_limit(Some(7)), 7);
    assert_eq!(events_limit(Some(5000)), 1000);
    let row = ExecutionEventRow {
        id: 1,
        execution_id: "e".to_string(),
        event_type: "tool_call".to_string(),
        summary: "s".to_string(),
        detail: None,
        timestamp_ms: 3,
        event_index: 4,
        tool_name: Some("Bash".to_string()),
    };
    let a = events_answer(Ok(vec![row])).unwrap();
    assert_eq!((a[0].event_index, a[0].tool_name.as_deref()), (4, Some("Bash")));
    assert_eq!(events_answer(failed()).unwrap_err(), "execution events query failed: x");
}

#[test]
fn worktrees_are_filtered_by_thread() {
    let all = || {
        Ok(vec![
            WorktreeInfo { thread_id: "a".to_string(), path: "/a".to_string() },
            WorktreeInfo { thread_id: "b".to_string(), path: "/b".to_string() },
        ])
    };
    assert_eq!(worktrees_answer(&None, all()).unwrap().len(), 2);
    let one = worktrees_answer(&Some("b".to_string()), all()).unwrap();
    assert_eq!((one.len(), one[0].path.as_str()), (1, "/b"));
    assert_eq!(worktrees_answer(&None, failed()).unwrap_err(), "worktree list failed: x");
}

fn log(offset: Option<u64>, limit: Option<u64>, tail: Option<bool>, n: usize) -> ReadLogResponse {
    let text: String = (0..n).map(|i| format!("line {i}\n")).collect();
    let params = ReadLogParams { execution_id: "e".to_string(), offset, limit, tail };
    read_log_answer(&params, LogSource::File("/l".to_string(), Ok(text))).unwrap()
}

#[test]
fn log_pages_tile_the_log() {
    let mut seen = Vec::new();
    let mut offset = 0;
    loop {
        let page = log(Some(offset), Some(3), None, 10);
        assert_eq!(page.offset as u64, offset);
        assert_eq!(page.returned_lines, page.lines.len());
        offset += page.returned_lines as u64;
        seen.extend(page.lines);
        if !page.has_more {
            break;
        }
    }
    assert_eq!(seen, (0..10).map(|i| format!("line {i}")).collect::<Vec<_>>());
}

#[test]
fn log_limits_and_tail() {
    let page = log(None, None, None, 300);
    assert_eq!((page.total_lines, page.returned_lines, page.has_more), (300, 200, true));
    assert_eq!(page.source, "log_file");
    let page = log(None, Some(5000), None, 1200);
    assert_eq!((page.returned_lines, page.has_more), (1000, true));
    let page = log(Some(7), Some(4), Some(true), 10);
    assert_eq!((page.offset, page.returned_lines, page.has_more), (6, 4, false));
    assert_eq!(page.lines[3], "line 9");
    let page = log(Some(u64::MAX), Some(4), None, 10);
    assert_eq!((page.offset, page.returned_lines, page.has_more), (10, 0, false));
    let page = log(None, Some(9), Some(true), 2);
    assert_eq!((page.offset, page.returned_lines), (0, 2));
}

#[test]
fn log_falls_back_to_the_preview() {
    let params = ReadLogParams { execution_id: "e-1".to_string(), offset: None, limit: None, tail: None };
    let a = read_log_answer(&params, LogSource::Preview(Ok(Some(execution("e-1"))))).unwrap();
    assert_eq!((a.source.as_str(), a.lines.len()), ("output_preview", 2));
    let e = |s| read_log_answer(&params, s).unwrap_err();
    assert_eq!(e(LogSource::Preview(Ok(None))), "execution not found: e-1");
    assert_eq!(e(LogSource::Preview(failed())), "execution query failed: x");
    assert_eq!(
        e(LogSource::File("/l".to_string(), failed())),
        "failed to read log file /l: x"
    );
}

#[test]
fn tasks_are_listed() {
    let tasks = tasks_answer(Ok(vec![view("a", None), view("b", Some("e"))])).unwrap();
    assert_eq!((tasks.len(), tasks[0].thread_id.as_str()), (1, "b"));
    // A time beyond the calendar is shown as its number.
    assert_eq!(tasks[0].eligible_at.as_deref(), Some("9223372036854775807"));
    let tasks = scheduled_answer(Ok(vec![(execution("e"), Some("sum".to_string()))])).unwrap();
    assert_eq!(tasks[0].summary.as_deref(), Some("sum"));
    assert_eq!(tasks[0].eligible_at.as_deref(), Some("2026-01-01T00:00:00+00:00"));
    assert_eq!(tasks[0].agent.as_deref(), Some("dev"));
    assert_eq!(tasks_answer(failed()).unwrap_err(), "tasks query failed: x");
    assert_eq!(scheduled_answer(failed()).unwrap_err(), "tasks query failed: x");
    let p = |limit| TasksParams { alias: None, batch_id: None, limit, filter: None };
    assert_eq!(tasks_limit(&p(None)), 20);
    assert_eq!(tasks_limit(&p(Some(3))), 3);
    assert!(!tasks_source(&None));
    assert!(tasks_source(&Some("scheduled".to_string())));
    assert_eq!(tasks_refusal(&None), None);
    assert_eq!(tasks_refusal(&Some("scheduled".to_string())), None);
    assert_eq!(
        tasks_refusal(&Some("all".to_string())).unwrap(),
        "unknown filter 'all'. Supported filters: 'scheduled'"
    );
}
