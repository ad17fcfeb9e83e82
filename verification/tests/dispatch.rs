//! Dispatching to an agent, and committing its work.
use compas::clock::{iso_text, read_time, Instant};
use compas::mcp::commit::{
    check_status, check_worktree, commit_step, count_changed_files, GitOutput, GitReply, GitStep,
};
use compas::mcp::dispatch::{
    check_schedule, find_agent, next_step, queue_guard, unknown_agent, DispatchConfig,
    DispatchReply, DispatchResult, DispatchStep, Dispatching,
};
use compas::mcp::params::{CommitParams, DispatchParams};
use compas::mcp::session::{AgentConfig, HandoffConfig, HandoffTarget};
use compas::store::ThreadRow;

fn agent(alias: &str, on_response: Option<HandoffTarget>, depth: Option<u32>) -> AgentConfig {
    AgentConfig {
        alias: alias.to_string(),
        backend: "stub".to_string(),
        role: "worker".to_string(),
        model: None,
        timeout_secs: None,
        handoff: Some(HandoffConfig { on_response, max_chain_depth: depth }),
    }
}

fn config(max: Option<usize>) -> DispatchConfig {
    DispatchConfig {
        agents: vec![
            agent("dev", Some(HandoffTarget::Single("tester".to_string())), Some(5)),
            agent("tester", Some(HandoffTarget::Single("operator".to_string())), None),
            agent(
                "lead",
                Some(HandoffTarget::FanOut(vec!["dev".to_string(), "qa".to_string()])),
                None,
            ),
        ],
        max_queued_executions: max,
    }
}

fn params(to: &str, scheduled_for: Option<&str>) -> DispatchParams {
    DispatchParams {
        from: "operator".to_string(),
        to: to.to_string(),
        body: "do it".to_string(),
        batch: Some("B-1".to_string()),
        intent: "dispatch".to_string(),
        thread_id: Some("t-1".to_string()),
        summary: None,
        scheduled_for: scheduled_for.map(|s| s.to_string()),
        skip_handoff: None,
    }
}

fn thread(status: &str) -> ThreadRow {
    ThreadRow {
        thread_id: "t-1".to_string(),
        batch_id: None,
        summary: None,
        status: status.to_string(),
        created_at: 0,
        updated_at: 0,
    }
}

/// 2026-01-01T00:00:00Z.
const NOW: Instant = Instant { secs: 1_767_225_600, nanos: 0 };

/// Runs a dispatch and writes down what was asked.
fn run(
    config: &DispatchConfig,
    params: &DispatchParams,
    found: Option<ThreadRow>,
    inflight: i64,
) -> (Vec<&'static str>, Result<DispatchResult, String>) {
    let mut asked = Vec::new();
    let mut state = Dispatching::new(params);
    let mut reply = DispatchReply::Begin;
    loop {
        reply = match state.next(config, params, reply, NOW) {
            DispatchStep::CountInflight => {
                asked.push("count");
                DispatchReply::Counted(Ok(inflight))
            }
            DispatchStep::FindThread => {
                asked.push("find");
                DispatchReply::Thread(Ok(found.clone()))
            }
            DispatchStep::CancelExecutions => {
                asked.push("cancel");
                DispatchReply::Cancelled
            }
            DispatchStep::Reopen => {
                asked.push("reopen");
                DispatchReply::Reopened(Ok(()))
            }
            DispatchStep::InsertMessage(m) => {
                asked.push("message");
                assert_eq!(m.thread_id, state.thread_id);
                assert_eq!(m.to, params.to);
                assert_eq!(m.body, "do it");
                assert_eq!(m.batch.as_deref(), Some("B-1"));
                assert!(!m.skip_handoff);
                DispatchReply::Inserted(Ok(17))
            }
            DispatchStep::InsertExecution(e) => {
                asked.push("execution");
                assert_eq!(e.message_id, 17);
                assert_eq!(e.eligible_at, 1_767_229_200);
                assert_eq!(e.eligible_reason, "scheduled");
                DispatchReply::Scheduled(Ok(Some("e-1".to_string())))
            }
            DispatchStep::Done(r) => return (asked, Ok(r)),
            DispatchStep::Refused(e) => return (asked, Err(e)),
        };
    }
}

#[test]
fn dispatch_to_an_open_thread() {
    let (asked, result) = run(&config(None), &params("dev", None), Some(thread("Active")), 0);
    assert_eq!(asked, vec!["find", "message"]);
    let r = result.unwrap();
    assert_eq!(r.thread_id, "t-1");
    assert_eq!(r.message_id, 17);
    assert!(!r.reopened);
    assert!(r.previous_status.is_none());
    assert_eq!(
        r.next_step,
        "Use orch_wait with thread_id=\"t-1\", since_reference=\"db:17\", and await_chain=true to wait for the full chain to settle. \"dev\" auto-handoffs to \"tester\" (chain depth limit: 5)."
    );
}

#[test]
fn dispatch_reopens_an_ended_thread_after_cancelling() {
    for status in ["Completed", "Failed", "Abandoned"] {
        let (asked, result) =
            run(&config(Some(10)), &params("tester", None), Some(thread(status)), 9);
        assert_eq!(asked, vec!["count", "find", "cancel", "reopen", "message"]);
        let r = result.unwrap();
        assert!(r.reopened);
        assert_eq!(r.previous_status.as_deref(), Some(status));
        assert_eq!(
            r.next_step,
            "Use orch_wait with thread_id=\"t-1\", since_reference=\"db:17\" to wait for the response."
        );
    }
    let (asked, _) = run(&config(None), &params("dev", None), Some(thread("Bogus")), 0);
    assert_eq!(asked, vec!["find", "message"]);
}

#[test]
fn scheduled_dispatch_creates_the_execution() {
    let p = params("dev", Some("2026-01-01T01:00:00Z"));
    let (asked, result) = run(&config(None), &p, None, 0);
    assert_eq!(asked, vec!["find", "message", "execution"]);
    let r = result.unwrap();
    assert_eq!(r.execution_id.as_deref(), Some("e-1"));
    assert_eq!(r.scheduled_for.as_deref(), Some("2026-01-01T01:00:00Z"));
}

#[test]
fn refused_dispatch_asks_for_nothing() {
    let (asked, result) = run(&config(None), &params("nobody", None), None, 0);
    assert!(asked.is_empty());
    assert_eq!(
        result.unwrap_err(),
        "unknown agent alias: 'nobody'. available: dev, tester, lead"
    );

    let (asked, result) = run(&config(Some(3)), &params("dev", None), None, 3);
    assert_eq!(asked, vec!["count"]);
    assert_eq!(
        result.unwrap_err(),
        "Queue depth limit reached: 3/3 executions are in-flight (queued + active). Wait for running tasks to complete, or abandon stale threads with orch_abandon before dispatching new work. Check current load with orch_metrics."
    );

    let (asked, result) = run(&config(None), &params("dev", Some("2025-12-31T23:00:00Z")), None, 0);
    assert!(asked.is_empty());
    assert_eq!(
        result.unwrap_err(),
        "scheduled_for must be in the future. Got '2025-12-31T23:00:00+00:00' but current time is '2026-01-01T00:00:00+00:00'."
    );

    let (_, result) = run(&config(None), &params("dev", Some("tomorrow")), None, 0);
    let e = result.unwrap_err();
    assert!(e.starts_with("invalid scheduled_for timestamp 'tomorrow': "), "{e}");
    assert!(e.ends_with(". Expected ISO 8601 format (e.g. '2026-03-21T20:00:00Z')."), "{e}");
}

#[test]
fn failures_of_the_store_are_told() {
    let c = config(None);
    let p = params("dev", None);
    let mut s = Dispatching::new(&p);
    for (reply, text) in [
        (DispatchReply::Reopened(Err("x".to_string())), "failed to reopen thread: x"),
        (DispatchReply::Inserted(Err("x".to_string())), "failed to insert message: x"),
        (
            DispatchReply::Scheduled(Err("x".to_string())),
            "failed to create scheduled execution: x",
        ),
    ] {
        match s.next(&c, &p, reply, NOW) {
            DispatchStep::Refused(e) => assert_eq!(e, text),
            other => panic!("unexpected step {other:?}"),
        }
    }
    // A count that cannot be read does not stand in the way.
    assert_eq!(queue_guard(Err("x".to_string()), Some(0)), None);
    assert_eq!(queue_guard(Ok(5), None), None);
    assert!(queue_guard(Ok(5), Some(5)).is_some());
    assert!(queue_guard(Ok(4), Some(5)).is_none());
}

#[test]
fn new_thread_gets_a_ulid() {
    let mut p = params("dev", None);
    p.thread_id = None;
    let a = Dispatching::new(&p).thread_id;
    let b = Dispatching::new(&p).thread_id;
    assert_eq!(a.len(), 26);
    assert!(a.chars().all(|c| c.is_ascii_digit() || (c.is_ascii_uppercase() && !"ILOU".contains(c))));
    assert_ne!(a, b);
}

#[test]
fn fan_out_is_described() {
    let c = config(None);
    let text = next_step(find_agent(&c.agents, "lead"), "t", 3, "lead");
    assert!(text.contains("\"lead\" auto-handoffs to \"dev\", \"qa\" (chain depth limit: 3)."));
    assert!(find_agent(&c.agents, "nobody").is_none());
    assert_eq!(unknown_agent(&Vec::new(), "x"), "unknown agent alias: 'x'. available: ");
}

#[test]
fn times_are_read_and_written() {
    assert_eq!(read_time("2026-01-01T00:00:00Z").unwrap(), NOW);
    assert_eq!(read_time("2026-01-01 02:00:00+02:00").unwrap(), NOW);
    assert_eq!(
        read_time("2026-01-01T00:00:00.5Z").unwrap(),
        Instant { secs: NOW.secs, nanos: 500_000_000 }
    );
    assert!(read_time("2026-13-01T00:00:00Z").is_err());
    assert_eq!(iso_text(NOW), "2026-01-01T00:00:00+00:00");
    assert_eq!(iso_text(Instant { secs: i64::MAX, nanos: 0 }), i64::MAX.to_string());
    assert_eq!(
        check_schedule("x", Ok(Instant { secs: NOW.secs, nanos: 1 }), NOW).unwrap(),
        Instant { secs: NOW.secs, nanos: 1 }
    );
    assert!(check_schedule("x", Ok(NOW), NOW).is_err());
}

// ── Commit ───────────────────────────────────────────────────

fn git(success: bool, stdout: &str, stderr: &str) -> Result<GitOutput, String> {
    Ok(GitOutput { success, stdout: stdout.to_string(), stderr: stderr.to_string() })
}

#[test]
fn what_git_wrote_is_read_as_text() {
    let o = GitOutput::new(true, &vec![0x68, 0xc3, 0xa9], &vec![0x66, 0xff]);
    assert_eq!((o.stdout.as_str(), o.stderr.as_str()), ("hé", "f\u{fffd}"));
}

fn refused(reply: GitReply) -> String {
    let p = CommitParams { thread_id: "t-1".to_string(), message: "m".to_string() };
    match commit_step(&p, "/wt", reply) {
        GitStep::Refused(e) => e,
        other => panic!("unexpected step {other:?}"),
    }
}

#[test]
fn commit_runs_to_its_result() {
    let p = CommitParams { thread_id: "t-1".to_string(), message: "m".to_string() };
    assert!(matches!(commit_step(&p, "/wt", GitReply::Add(git(true, "", ""))), GitStep::Commit));
    assert!(matches!(
        commit_step(&p, "/wt", GitReply::Commit(git(true, "", ""))),
        GitStep::Inspect
    ));
    let stat = " a.rs | 5 +++--\n b.rs | 1 +\n 2 files changed, 6 insertions(+)\n";
    match commit_step(&p, "/wt", GitReply::Head(git(true, "abc123\n", ""), git(true, stat, ""))) {
        GitStep::Done(r) => {
            assert_eq!(r.commit_sha, "abc123");
            assert_eq!(r.files_changed, 2);
            assert_eq!(r.thread_id, "t-1");
            assert_eq!(r.worktree_path, "/wt");
        }
        other => panic!("unexpected step {other:?}"),
    }
    assert_eq!(count_changed_files(git(false, stat, "")), 0);
    assert_eq!(count_changed_files(Err("no git".to_string())), 0);
}

#[test]
fn commit_failures_are_told() {
    assert_eq!(refused(GitReply::Add(Err("e".to_string()))), "git add failed: e");
    assert_eq!(refused(GitReply::Add(git(false, "", "bad"))), "git add failed: bad");
    assert_eq!(refused(GitReply::Commit(Err("e".to_string()))), "git commit failed: e");
    assert_eq!(
        refused(GitReply::Commit(git(false, "nothing to commit, clean", ""))),
        "nothing to commit — working tree clean"
    );
    assert_eq!(refused(GitReply::Commit(git(false, " a", "b \n"))), "git commit failed: ab");
    let none = || git(false, "", "");
    assert_eq!(
        refused(GitReply::Head(Err("e".to_string()), none())),
        "git rev-parse failed: e"
    );
    assert_eq!(
        refused(GitReply::Head(git(false, "", " bad \n"), none())),
        "git rev-parse HEAD failed: bad"
    );
    assert_eq!(check_status("t", Ok(Some("Active".to_string()))), None);
    assert_eq!(
        check_status("t", Ok(Some("Failed".to_string()))).unwrap(),
        "thread 't' is Failed — only Active threads can be committed"
    );
    assert_eq!(check_status("t", Ok(None)).unwrap(), "thread 't' not found");
    assert_eq!(
        check_status("t", Err("e".to_string())).unwrap(),
        "failed to get thread status: e"
    );
    assert_eq!(
        check_worktree("t", Ok(None)).unwrap_err(),
        "thread 't' has no worktree path set"
    );
    assert_eq!(
        check_worktree("t", Ok(Some(("/w".to_string(), false)))).unwrap_err(),
        "worktree path does not exist: /w"
    );
    assert_eq!(check_worktree("t", Ok(Some(("/w".to_string(), true)))).unwrap(), "/w");
    assert_eq!(check_worktree("t", Err("e".to_string())).unwrap_err(), "e");
}
