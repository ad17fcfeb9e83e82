//! The query tools: status, transcripts, messages, metrics, logs and tasks.
use crate::clock::{iso_text, Instant};
use crate::clock;
use crate::mcp::params::{PollParams, ReadLogParams, TasksParams};
use crate::store::{
    message_ref, parse_message_ref, AgentCostSummary, ExecutionEventRow, ExecutionRow, MessageRow,
    ThreadRow, ThreadStatusView,
};
use crate::store;
use crate::text::{byte_count, cat, cat3, first_bytes, opt_copy, split_lines, str_eq, str_or};
use crate::text;
use vstd::prelude::*;

verus! {

// ── Status ───────────────────────────────────────────────────────────────────

/// Threads that the status tool lists at most.
pub const STATUS_LIMIT: i64 = 50;

/// A thread in the status list.
#[derive(Clone, Debug)]
pub struct StatusEntry {
    pub thread_id: String,
    pub batch_id: Option<String>,
    pub summary: Option<String>,
    pub thread_status: String,
    pub agent: Option<String>,
    pub execution_status: Option<String>,
    pub started_at: Option<i64>,
    pub duration_ms: Option<i64>,
    pub error: Option<String>,
    pub prompt_hash: Option<String>,
}

/// What the status tool answers.
#[derive(Clone, Debug)]
pub struct StatusResponse {
    pub threads: Vec<StatusEntry>,
    pub scheduled_count: i64,
}

/// The entry of a thread.
pub open spec fn status_entry(v: ThreadStatusView) -> StatusEntry {
    StatusEntry {
        thread_id: v.thread_id,
        batch_id: v.batch_id,
        summary: v.summary,
        thread_status: v.thread_status,
        agent: v.agent_alias,
        execution_status: v.execution_status,
        started_at: v.started_at,
        duration_ms: v.duration_ms,
        error: v.error_detail,
        prompt_hash: v.prompt_hash,
    }
}

fn entry_of(v: &ThreadStatusView) -> (r: StatusEntry)
    ensures
        r == status_entry(*v),
{
    StatusEntry {
        thread_id: v.thread_id.clone(),
        batch_id: opt_copy(&v.batch_id),
        summary: opt_copy(&v.summary),
        thread_status: v.thread_status.clone(),
        agent: opt_copy(&v.agent_alias),
        execution_status: opt_copy(&v.execution_status),
        started_at: v.started_at,
        duration_ms: v.duration_ms,
        error: opt_copy(&v.error_detail),
        prompt_hash: opt_copy(&v.prompt_hash),
    }
}

/// What the status tool answers. A count that could not be read is zero.
pub fn status_answer(
    rows: Result<Vec<ThreadStatusView>, String>,
    scheduled: Result<i64, String>,
) -> (r: Result<StatusResponse, String>)
    ensures
        match rows {
            Ok(v) => {
                &&& r matches Ok(a)
                &&& a.threads@ == v@.map_values(|t: ThreadStatusView| status_entry(t))
                &&& a.scheduled_count == match scheduled {
                    Ok(n) => n,
                    Err(_) => 0,
                }
            },
            Err(e) => r matches Err(t) && t@ == "status query failed: "@ + e@,
        },
{
    let v: Vec<ThreadStatusView> = match rows {
        Ok(v) => v,
        Err(e) => {
            return Err(cat("status query failed: ", e.as_str()));
        },
    };
    let mut threads: Vec<StatusEntry> = Vec::new();
    let mut i: usize = 0;
    while i < v.len()
        invariant
            i <= v@.len(),
            threads@ == v@.take(i as int).map_values(|t: ThreadStatusView| status_entry(t)),
        decreases v@.len() - i,
    {
        threads.push(entry_of(&v[i]));
        i += 1;
        assert(threads@ =~= v@.take(i as int).map_values(|t: ThreadStatusView| status_entry(t)));
    }
    assert(v@.take(i as int) =~= v@);
    Ok(
        StatusResponse {
            threads,
            scheduled_count: match scheduled {
                Ok(n) => n,
                Err(_) => 0,
            },
        },
    )
}

// ── Transcript ───────────────────────────────────────────────────────────────

/// A message of a transcript.
#[derive(Clone, Debug)]
pub struct TranscriptMessage {
    pub id: i64,
    pub reference: String,
    pub from: String,
    pub to: String,
    pub intent: String,
    pub body: String,
    pub created_at: i64,
}

/// An execution of a transcript.
#[derive(Clone, Debug)]
pub struct TranscriptExecution {
    pub id: String,
    pub agent: String,
    pub dispatch_message_id: Option<i64>,
    pub status: String,
    pub queued_at: i64,
    pub started_at: Option<i64>,
    pub finished_at: Option<i64>,
    pub duration_ms: Option<i64>,
    pub exit_code: Option<i32>,
    pub error: Option<String>,
    pub prompt_hash: Option<String>,
}

/// What the transcript tool answers.
#[derive(Clone, Debug)]
pub struct Transcript {
    pub thread_id: String,
    pub thread_status: Option<String>,
    pub summary: Option<String>,
    pub batch_id: Option<String>,
    pub messages: Vec<TranscriptMessage>,
    pub executions: Vec<TranscriptExecution>,
}

/// Whether `t` tells of message `m`.
pub open spec fn tells(t: TranscriptMessage, m: MessageRow) -> bool {
    &&& t.id == m.id
    &&& t.reference@ == store::reference_text(m.id)
    &&& t.from == m.from_alias
    &&& t.to == m.to_alias
    &&& t.intent == m.intent
    &&& t.body == m.body
    &&& t.created_at == m.created_at
}

/// The execution `e` as a transcript shows it.
pub open spec fn told(e: ExecutionRow) -> TranscriptExecution {
    TranscriptExecution {
        id: e.id,
        agent: e.agent_alias,
        dispatch_message_id: e.dispatch_message_id,
        status: e.status,
        queued_at: e.queued_at,
        started_at: e.started_at,
        finished_at: e.finished_at,
        duration_ms: e.duration_ms,
        exit_code: e.exit_code,
        error: e.error_detail,
        prompt_hash: e.prompt_hash,
    }
}

fn tell_all(messages: &Vec<MessageRow>) -> (r: Vec<TranscriptMessage>)
    ensures
        r@.len() == messages@.len(),
        forall|i: int| 0 <= i < messages@.len() ==> tells(#[trigger] r@[i], messages@[i]),
{
    let mut out: Vec<TranscriptMessage> = Vec::new();
    let mut i: usize = 0;
    while i < messages.len()
        invariant
            i <= messages@.len(),
            out@.len() == i,
            forall|k: int| 0 <= k < i ==> tells(#[trigger] out@[k], messages@[k]),
        decreases messages@.len() - i,
    {
        let m: &MessageRow = &messages[i];
        out.push(
            TranscriptMessage {
                id: m.id,
                reference: message_ref(m.id),
                from: m.from_alias.clone(),
                to: m.to_alias.clone(),
                intent: m.intent.clone(),
                body: m.body.clone(),
                created_at: m.created_at,
            },
        );
        i += 1;
    }
    out
}

fn told_all(executions: &Vec<ExecutionRow>) -> (r: Vec<TranscriptExecution>)
    ensures
        r@ == executions@.map_values(|e: ExecutionRow| told(e)),
{
    let mut out: Vec<TranscriptExecution> = Vec::new();
    let mut i: usize = 0;
    while i < executions.len()
        invariant
            i <= executions@.len(),
            out@ == executions@.take(i as int).map_values(|e: ExecutionRow| told(e)),
        decreases executions@.len() - i,
    {
        let e: &ExecutionRow = &executions[i];
        out.push(
            TranscriptExecution {
                id: e.id.clone(),
                agent: e.agent_alias.clone(),
                dispatch_message_id: e.dispatch_message_id,
                status: e.status.clone(),
                queued_at: e.queued_at,
                started_at: e.started_at,
                finished_at: e.finished_at,
                duration_ms: e.duration_ms,
                exit_code: e.exit_code,
                error: opt_copy(&e.error_detail),
                prompt_hash: opt_copy(&e.prompt_hash),
            },
        );
        i += 1;
        assert(out@ =~= executions@.take(i as int).map_values(|e: ExecutionRow| told(e)));
    }
    assert(executions@.take(i as int) =~= executions@);
    out
}

/// What the transcript tool answers. A thread that could not be read leaves its
/// own fields empty.
pub fn transcript_answer(
    thread_id: &str,
    messages: Result<Vec<MessageRow>, String>,
    executions: Result<Vec<ExecutionRow>, String>,
    thread: Option<ThreadRow>,
) -> (r: Result<Transcript, String>)
    ensures
        match messages {
            Err(e) => r matches Err(t) && t@ == "transcript query failed: "@ + e@,
            Ok(ms) => match executions {
                Err(e) => r matches Err(t) && t@ == "executions query failed: "@ + e@,
                Ok(es) => {
                    &&& r matches Ok(t)
                    &&& t.thread_id@ == thread_id@
                    &&& t.messages@.len() == ms@.len()
                    &&& forall|i: int|
                        0 <= i < ms@.len() ==> tells(#[trigger] t.messages@[i], ms@[i])
                    &&& t.executions@ == es@.map_values(|e: ExecutionRow| told(e))
                    &&& match thread {
                        Some(row) => t.thread_status == Some(row.status) && t.summary
                            == row.summary && t.batch_id == row.batch_id,
                        None => t.thread_status is None && t.summary is None && t.batch_id is None,
                    }
                },
            },
        },
{
    let ms: Vec<MessageRow> = match messages {
        Ok(v) => v,
        Err(e) => {
            return Err(cat("transcript query failed: ", e.as_str()));
        },
    };
    let es: Vec<ExecutionRow> = match executions {
        Ok(v) => v,
        Err(e) => {
            return Err(cat("executions query failed: ", e.as_str()));
        },
    };
    let (thread_status, summary, batch_id): (Option<String>, Option<String>, Option<String>) =
        match thread {
        Some(t) => (Some(t.status), t.summary, t.batch_id),
        None => (None, None, None),
    };
    Ok(
        Transcript {
            thread_id: thread_id.to_owned(),
            thread_status,
            summary,
            batch_id,
            messages: tell_all(&ms),
            executions: told_all(&es),
        },
    )
}

// ── Messages ─────────────────────────────────────────────────────────────────

/// What the read tool answers.
#[derive(Clone, Debug)]
pub struct MessageDetail {
    pub id: i64,
    pub reference: String,
    pub thread_id: String,
    pub from: String,
    pub to: String,
    pub intent: String,
    pub body: String,
    pub created_at: i64,
}

/// What the read tool answers once the message was looked up.
pub fn read_answer(reference: &str, found: Result<Option<MessageRow>, String>) -> (r: Result<
    MessageDetail,
    String,
>)
    ensures
        match found {
            Ok(Some(m)) => {
                &&& r matches Ok(d)
                &&& d.id == m.id
                &&& d.reference@ == store::reference_text(m.id)
                &&& d.thread_id == m.thread_id
                &&& d.from == m.from_alias
                &&& d.to == m.to_alias
                &&& d.intent == m.intent
                &&& d.body == m.body
                &&& d.created_at == m.created_at
            },
            Ok(None) => r matches Err(t) && t@ == "message not found: "@ + reference@,
            Err(e) => r matches Err(t) && t@ == "read failed: "@ + e@,
        },
{
    match found {
        Ok(Some(m)) => Ok(
            MessageDetail {
                id: m.id,
                reference: message_ref(m.id),
                thread_id: m.thread_id,
                from: m.from_alias,
                to: m.to_alias,
                intent: m.intent,
                body: m.body,
                created_at: m.created_at,
            },
        ),
        Ok(None) => Err(cat("message not found: ", reference)),
        Err(e) => Err(cat("read failed: ", e.as_str())),
    }
}

// ── Metrics ──────────────────────────────────────────────────────────────────

/// Cost and tokens of all executions. The cost is the bits of a double.
#[derive(Clone, Copy, Debug, PartialEq, Eq, Structural)]
pub struct CostOverview {
    pub total_cost_bits: u64,
    pub total_tokens_in: i64,
    pub total_tokens_out: i64,
    pub executions_with_cost: i64,
}

/// What the metrics tool answers.
#[derive(Clone, Debug)]
pub struct Metrics {
    pub thread_counts: Vec<(String, i64)>,
    pub total_messages: i64,
    pub queue_depth: i64,
    pub active_by_agent: Vec<(String, i64)>,
    pub cost: CostOverview,
}

/// The error of the first query that failed.
pub open spec fn first_failure(
    a: Result<Vec<(String, i64)>, String>,
    b: Result<i64, String>,
    c: Result<i64, String>,
    d: Result<Vec<(String, i64)>, String>,
    e: Result<CostOverview, String>,
) -> Option<Seq<char>> {
    match (a, b, c, d, e) {
        (Err(t), _, _, _, _) => Some(t@),
        (_, Err(t), _, _, _) => Some(t@),
        (_, _, Err(t), _, _) => Some(t@),
        (_, _, _, Err(t), _) => Some(t@),
        (_, _, _, _, Err(t)) => Some(t@),
        _ => None,
    }
}

/// What the metrics tool answers: all numbers, or the first failure.
pub fn metrics_answer(
    thread_counts: Result<Vec<(String, i64)>, String>,
    total_messages: Result<i64, String>,
    queue_depth: Result<i64, String>,
    active_by_agent: Result<Vec<(String, i64)>, String>,
    cost: Result<CostOverview, String>,
) -> (r: Result<Metrics, String>)
    ensures
        match first_failure(thread_counts, total_messages, queue_depth, active_by_agent, cost) {
            Some(t) => r matches Err(e) && e@ == "metrics query failed: "@ + t,
            None => r == Ok::<Metrics, String>(
                Metrics {
                    thread_counts: thread_counts->Ok_0,
                    total_messages: total_messages->Ok_0,
                    queue_depth: queue_depth->Ok_0,
                    active_by_agent: active_by_agent->Ok_0,
                    cost: cost->Ok_0,
                },
            ),
        },
{
    match (thread_counts, total_messages, queue_depth, active_by_agent, cost) {
        (Ok(thread_counts), Ok(total_messages), Ok(queue_depth), Ok(active_by_agent), Ok(cost)) => Ok(
            Metrics { thread_counts, total_messages, queue_depth, active_by_agent, cost },
        ),
        (Err(e), _, _, _, _) => Err(cat("metrics query failed: ", e.as_str())),
        (_, Err(e), _, _, _) => Err(cat("metrics query failed: ", e.as_str())),
        (_, _, Err(e), _, _) => Err(cat("metrics query failed: ", e.as_str())),
        (_, _, _, Err(e), _) => Err(cat("metrics query failed: ", e.as_str())),
        (_, _, _, _, Err(e)) => Err(cat("metrics query failed: ", e.as_str())),
    }
}

// ── Tool statistics ──────────────────────────────────────────────────────────

/// Calls of a tool.
#[derive(Clone, Debug)]
pub struct ToolCalls {
    pub tool_name: String,
    pub call_count: i64,
}

/// Errors of a tool. The rate is the bits of a double.
#[derive(Clone, Debug)]
pub struct ToolErrors {
    pub tool_name: String,
    pub error_count: i64,
    pub error_rate_bits: u64,
}

/// Calls and errors of a tool.
#[derive(Clone, Debug)]
pub struct ToolStat {
    pub tool_name: String,
    pub call_count: i64,
    pub error_count: i64,
    pub error_rate_bits: u64,
}

/// Calls of a tool by an agent.
#[derive(Clone, Debug)]
pub struct AgentToolUsage {
    pub agent_alias: String,
    pub tool_name: String,
    pub call_count: i64,
}

/// What the statistics tool answers.
#[derive(Clone, Debug)]
pub struct ToolStatsResponse {
    pub tool_stats: Vec<ToolStat>,
    pub tool_usage_by_agent: Vec<AgentToolUsage>,
    pub cost_by_agent: Vec<AgentCostSummary>,
}

/// Errors of a tool and their rate. Of several entries the last one counts; a
/// tool without one has none.
pub open spec fn errors_of(errors: Seq<ToolErrors>, name: Seq<char>) -> (i64, u64)
    decreases errors.len(),
{
    if errors.len() == 0 {
        (0, 0)
    } else if errors.last().tool_name@ == name {
        (errors.last().error_count, errors.last().error_rate_bits)
    } else {
        errors_of(errors.drop_last(), name)
    }
}

fn find_errors(errors: &Vec<ToolErrors>, name: &str) -> (r: (i64, u64))
    ensures
        r == errors_of(errors@, name@),
{
    let mut i: usize = errors.len();
    assert(errors@.take(i as int) =~= errors@);
    while i > 0
        invariant
            i <= errors@.len(),
            errors_of(errors@, name@) == errors_of(errors@.take(i as int), name@),
        decreases i,
    {
        assert(errors@.take(i as int).drop_last() =~= errors@.take(i - 1));
        if str_eq(errors[i - 1].tool_name.as_str(), name) {
            return (errors[i - 1].error_count, errors[i - 1].error_rate_bits);
        }
        i -= 1;
    }
    (0, 0)
}

/// Calls joined with errors, in the order of the calls.
pub fn join_tool_stats(calls: Vec<ToolCalls>, errors: &Vec<ToolErrors>) -> (r: Vec<ToolStat>)
    ensures
        r@.len() == calls@.len(),
        forall|i: int|
            0 <= i < calls@.len() ==> (#[trigger] r@[i]).tool_name == calls@[i].tool_name
                && r@[i].call_count == calls@[i].call_count && (
            r@[i].error_count, r@[i].error_rate_bits) == errors_of(
                errors@,
                calls@[i].tool_name@,
            ),
{
    let mut out: Vec<ToolStat> = Vec::new();
    let mut i: usize = 0;
    while i < calls.len()
        invariant
            i <= calls@.len(),
            out@.len() == i,
            forall|k: int|
                0 <= k < i ==> (#[trigger] out@[k]).tool_name == calls@[k].tool_name
                    && out@[k].call_count == calls@[k].call_count && (
                out@[k].error_count, out@[k].error_rate_bits) == errors_of(
                    errors@,
                    calls@[k].tool_name@,
                ),
        decreases calls@.len() - i,
    {
        let (error_count, error_rate_bits): (i64, u64) = find_errors(
            errors,
            calls[i].tool_name.as_str(),
        );
        out.push(
            ToolStat {
                tool_name: calls[i].tool_name.clone(),
                call_count: calls[i].call_count,
                error_count,
                error_rate_bits,
            },
        );
        i += 1;
    }
    out
}

/// Whether a filter lets an agent through.
pub open spec fn agent_passes(alias: Seq<char>, filter: Option<Seq<char>>) -> bool {
    match filter {
        Some(f) => alias == f,
        None => true,
    }
}

fn passes(alias: &str, filter: &Option<String>) -> (r: bool)
    ensures
        r == agent_passes(alias@, text::opt_text(*filter)),
{
    match filter {
        Some(f) => str_eq(alias, f.as_str()),
        None => true,
    }
}

/// Agent, tool and calls of the rows that the filter lets through.
pub open spec fn usage_view(rows: Seq<(String, String, i64)>, filter: Option<Seq<char>>) -> Seq<
    (Seq<char>, Seq<char>, i64),
>
    decreases rows.len(),
{
    if rows.len() == 0 {
        seq![]
    } else {
        let rest = usage_view(rows.drop_last(), filter);
        if agent_passes(rows.last().0@, filter) {
            rest.push((rows.last().0@, rows.last().1@, rows.last().2))
        } else {
            rest
        }
    }
}

/// The rows that the filter lets through.
pub fn filter_usage(rows: &Vec<(String, String, i64)>, filter: &Option<String>) -> (r: Vec<
    AgentToolUsage,
>)
    ensures
        r@.map_values(|u: AgentToolUsage| (u.agent_alias@, u.tool_name@, u.call_count))
            == usage_view(rows@, text::opt_text(*filter)),
{
    let mut out: Vec<AgentToolUsage> = Vec::new();
    let ghost f = |u: AgentToolUsage| (u.agent_alias@, u.tool_name@, u.call_count);
    let mut i: usize = 0;
    assert(out@.map_values(f) =~= usage_view(rows@.take(0), text::opt_text(*filter)));
    while i < rows.len()
        invariant
            i <= rows@.len(),
            f == |u: AgentToolUsage| (u.agent_alias@, u.tool_name@, u.call_count),
            out@.map_values(f) == usage_view(rows@.take(i as int), text::opt_text(*filter)),
        decreases rows@.len() - i,
    {
        let ghost before = out@.map_values(f);
        assert(rows@.take(i + 1).drop_last() =~= rows@.take(i as int));
        if passes(rows[i].0.as_str(), filter) {
            let u: AgentToolUsage = AgentToolUsage {
                agent_alias: rows[i].0.clone(),
                tool_name: rows[i].1.clone(),
                call_count: rows[i].2,
            };
            out.push(u);
            assert(out@.map_values(f) =~= before.push(f(u)));
        }
        i += 1;
    }
    assert(rows@.take(i as int) =~= rows@);
    out
}

/// The costs of the agents that the filter lets through.
pub open spec fn costs_of(rows: Seq<AgentCostSummary>, filter: Option<Seq<char>>) -> Seq<
    AgentCostSummary,
>
    decreases rows.len(),
{
    if rows.len() == 0 {
        seq![]
    } else {
        let rest = costs_of(rows.drop_last(), filter);
        if agent_passes(rows.last().agent_alias@, filter) {
            rest.push(rows.last())
        } else {
            rest
        }
    }
}

/// The costs of the agents that the filter lets through.
pub fn filter_costs(rows: &Vec<AgentCostSummary>, filter: &Option<String>) -> (r: Vec<
    AgentCostSummary,
>)
    ensures
        r@ == costs_of(rows@, text::opt_text(*filter)),
{
    let mut out: Vec<AgentCostSummary> = Vec::new();
    let mut i: usize = 0;
    while i < rows.len()
        invariant
            i <= rows@.len(),
            out@ == costs_of(rows@.take(i as int), text::opt_text(*filter)),
        decreases rows@.len() - i,
    {
        assert(rows@.take(i + 1).drop_last() =~= rows@.take(i as int));
        let c: &AgentCostSummary = &rows[i];
        if passes(c.agent_alias.as_str(), filter) {
            out.push(
                AgentCostSummary {
                    agent_alias: c.agent_alias.clone(),
                    cost_text: c.cost_text.clone(),
                    cost_bits: c.cost_bits,
                    total_tokens_in: c.total_tokens_in,
                    total_tokens_out: c.total_tokens_out,
                    execution_count: c.execution_count,
                },
            );
        }
        i += 1;
    }
    assert(rows@.take(i as int) =~= rows@);
    out
}

/// What the statistics tool answers: everything, or the first failure.
pub fn tool_stats_answer(
    filter: &Option<String>,
    errors: Result<Vec<ToolErrors>, String>,
    calls: Result<Vec<ToolCalls>, String>,
    usage: Result<Vec<(String, String, i64)>, String>,
    costs: Result<Vec<AgentCostSummary>, String>,
) -> (r: Result<ToolStatsResponse, String>)
    ensures
        match (errors, calls, usage, costs) {
            (Err(e), _, _, _) => r matches Err(t) && t@ == "tool stats query failed: "@ + e@,
            (Ok(_), Err(e), _, _) => r matches Err(t) && t@ == "tool stats query failed: "@ + e@,
            (Ok(_), Ok(_), Err(e), _) => r matches Err(t) && t@ == "tool usage query failed: "@
                + e@,
            (Ok(_), Ok(_), Ok(_), Err(e)) => r matches Err(t) && t@
                == "cost by agent query failed: "@ + e@,
            (Ok(es), Ok(cs), Ok(us), Ok(ks)) => {
                &&& r matches Ok(a)
                &&& a.tool_stats@.len() == cs@.len()
                &&& forall|i: int|
                    0 <= i < cs@.len() ==> (#[trigger] a.tool_stats@[i]).tool_name
                        == cs@[i].tool_name && a.tool_stats@[i].call_count == cs@[i].call_count && (
                    a.tool_stats@[i].error_count, a.tool_stats@[i].error_rate_bits) == errors_of(
                        es@,
                        cs@[i].tool_name@,
                    )
                &&& a.tool_usage_by_agent@.map_values(
                    |u: AgentToolUsage| (u.agent_alias@, u.tool_name@, u.call_count),
                ) == usage_view(us@, text::opt_text(*filter))
                &&& a.cost_by_agent@ == costs_of(ks@, text::opt_text(*filter))
            },
        },
{
    let es: Vec<ToolErrors> = match errors {
        Ok(v) => v,
        Err(e) => {
            return Err(cat("tool stats query failed: ", e.as_str()));
        },
    };
    let cs: Vec<ToolCalls> = match calls {
        Ok(v) => v,
        Err(e) => {
            return Err(cat("tool stats query failed: ", e.as_str()));
        },
    };
    let us: Vec<(String, String, i64)> = match usage {
        Ok(v) => v,
        Err(e) => {
            return Err(cat("tool usage query failed: ", e.as_str()));
        },
    };
    let ks: Vec<AgentCostSummary> = match costs {
        Ok(v) => v,
        Err(e) => {
            return Err(cat("cost by agent query failed: ", e.as_str()));
        },
    };
    Ok(
        ToolStatsResponse {
            tool_stats: join_tool_stats(cs, &es),
            tool_usage_by_agent: filter_usage(&us, filter),
            cost_by_agent: filter_costs(&ks, filter),
        },
    )
}

// ── Poll ─────────────────────────────────────────────────────────────────────

/// What the poll tool answers.
#[derive(Clone, Debug)]
pub struct PollResult {
    pub thread_id: String,
    pub thread_status: String,
    pub summary: Option<String>,
    pub matched_messages: usize,
    pub latest_message_id: Option<i64>,
    pub latest_message_ref: Option<String>,
    pub latest_intent: Option<String>,
    pub latest_body_preview: Option<String>,
    pub execution_status: Option<String>,
}

/// The message after which messages are new: the one that the cursor names, or
/// none.
pub fn poll_since(since_reference: &Option<String>) -> (r: Result<i64, String>)
    ensures
        match *since_reference {
            None => r == Ok::<i64, String>(0),
            Some(s) => match r {
                Ok(id) => store::reference_id(s@) == Some(id),
                Err(e) => store::reference_id(s@) is None && e@ == store::bad_reference_text(s@),
            },
        },
{
    match since_reference {
        None => Ok(0),
        Some(s) => parse_message_ref(s.as_str()),
    }
}

/// Whether a message counts: by its intent where one is asked for; without a
/// cursor, unless it only starts work; else always.
pub open spec fn counts(
    m: MessageRow,
    intent: Option<Seq<char>>,
    has_cursor: bool,
    triggers: Seq<Seq<char>>,
) -> bool {
    match intent {
        Some(i) => m.intent@ == i,
        None => has_cursor || !triggers.contains(m.intent@),
    }
}

/// Whether a message is of an intent.
pub open spec fn intent_is(intent: Seq<char>) -> spec_fn(MessageRow) -> bool {
    |m: MessageRow| m.intent@ == intent
}

/// The messages of an intent.
pub open spec fn of_intent(messages: Seq<MessageRow>, intent: Seq<char>) -> Seq<MessageRow> {
    messages.filter(intent_is(intent))
}

/// How many messages count.
pub open spec fn matched(
    messages: Seq<MessageRow>,
    intent: Option<Seq<char>>,
    has_cursor: bool,
    triggers: Seq<Seq<char>>,
) -> nat
    decreases messages.len(),
{
    if messages.len() == 0 {
        0
    } else {
        matched(messages.drop_last(), intent, has_cursor, triggers) + if counts(
            messages.last(),
            intent,
            has_cursor,
            triggers,
        ) {
            1nat
        } else {
            0nat
        }
    }
}

/// The last message that counts.
pub open spec fn last_match(
    messages: Seq<MessageRow>,
    intent: Option<Seq<char>>,
    has_cursor: bool,
    triggers: Seq<Seq<char>>,
) -> Option<MessageRow>
    decreases messages.len(),
{
    if messages.len() == 0 {
        None
    } else if counts(messages.last(), intent, has_cursor, triggers) {
        Some(messages.last())
    } else {
        last_match(messages.drop_last(), intent, has_cursor, triggers)
    }
}

/// The beginning of a body: 200 bytes at most, marked where it was cut.
pub open spec fn preview(body: Seq<char>) -> Seq<char> {
    if text::byte_len(body) > 200 {
        text::within_bytes(body, 200) + "..."@
    } else {
        body
    }
}

fn body_preview(body: &str) -> (r: String)
    ensures
        r@ == preview(body@),
{
    if byte_count(body) > 200 {
        cat(first_bytes(body, 200).as_str(), "...")
    } else {
        body.to_owned()
    }
}

fn holds_text(v: &Vec<String>, s: &str) -> (r: bool)
    ensures
        r == text::texts(v@).contains(s@),
{
    crate::dashboard::progress::holds(v, s)
}

/// What the poll tool answers for a thread that was found.
pub fn poll_answer(
    params: &PollParams,
    thread: ThreadRow,
    messages: &Vec<MessageRow>,
    triggers: &Vec<String>,
    execution_status: Option<String>,
) -> (r: PollResult)
    ensures
        ({
            let intent = text::opt_text(params.intent);
            let cursor = params.since_reference is Some;
            let latest = last_match(messages@, intent, cursor, text::texts(triggers@));
            &&& r.thread_id@ == params.thread_id@
            &&& r.thread_status == thread.status
            &&& r.summary == thread.summary
            &&& r.matched_messages == matched(messages@, intent, cursor, text::texts(triggers@))
            &&& r.execution_status == execution_status
            &&& match latest {
                Some(m) => {
                    &&& r.latest_message_id == Some(m.id)
                    &&& text::opt_text(r.latest_message_ref) == Some(store::reference_text(m.id))
                    &&& r.latest_intent == Some(m.intent)
                    &&& text::opt_text(r.latest_body_preview) == Some(preview(m.body@))
                },
                None => r.latest_message_id is None && r.latest_message_ref is None
                    && r.latest_intent is None && r.latest_body_preview is None,
            }
        }),
        params.intent matches Some(asked) ==> (r.latest_intent matches Some(found) ==> found@
            == asked@),
        params.intent matches Some(asked) ==> r.matched_messages == of_intent(
            messages@,
            asked@,
        ).len(),
        params.intent is None && params.since_reference is Some ==> r.matched_messages
            == messages@.len(),
{
    let cursor: bool = params.since_reference.is_some();
    let ghost intent = text::opt_text(params.intent);
    let ghost trig = text::texts(triggers@);
    let mut n: usize = 0;
    let mut latest: Option<usize> = None;
    let mut i: usize = 0;
    while i < messages.len()
        invariant
            i <= messages@.len(),
            n <= i,
            cursor == (params.since_reference is Some),
            intent == text::opt_text(params.intent),
            trig == text::texts(triggers@),
            n == matched(messages@.take(i as int), intent, cursor, trig),
            match latest {
                Some(k) => k < i && last_match(messages@.take(i as int), intent, cursor, trig)
                    == Some(messages@[k as int]),
                None => last_match(messages@.take(i as int), intent, cursor, trig) is None,
            },
        decreases messages@.len() - i,
    {
        assert(messages@.take(i + 1).drop_last() =~= messages@.take(i as int));
        assert(messages@.take(i + 1).last() == messages@[i as int]);
        let m: &MessageRow = &messages[i];
        let hit: bool = match &params.intent {
            Some(x) => str_eq(m.intent.as_str(), x.as_str()),
            None => cursor || !holds_text(triggers, m.intent.as_str()),
        };
        if hit {
            n += 1;
            latest = Some(i);
        }
        i += 1;
    }
    assert(messages@.take(i as int) =~= messages@);
    proof {
        law_poll_without_intent(messages@, trig);
        if params.intent is Some {
            law_poll_keeps_to_the_intent(messages@, params.intent->0@, cursor, trig);
        }
    }
    let mut r: PollResult = PollResult {
        thread_id: params.thread_id.clone(),
        thread_status: thread.status,
        summary: thread.summary,
        matched_messages: n,
        latest_message_id: None,
        latest_message_ref: None,
        latest_intent: None,
        latest_body_preview: None,
        execution_status,
    };
    if let Some(k) = latest {
        let m: &MessageRow = &messages[k];
        r.latest_message_id = Some(m.id);
        r.latest_message_ref = Some(message_ref(m.id));
        r.latest_intent = Some(m.intent.clone());
        r.latest_body_preview = Some(body_preview(m.body.as_str()));
    }
    r
}

/// Without an intent and without a cursor, a message that only starts work is
/// never what a poll finds.
pub proof fn law_poll_skips_own_dispatch(messages: Seq<MessageRow>, triggers: Seq<Seq<char>>)
    ensures
        last_match(messages, None, false, triggers) matches Some(m) ==> !triggers.contains(
            m.intent@,
        ),
    decreases messages.len(),
{
    if messages.len() > 0 {
        law_poll_skips_own_dispatch(messages.drop_last(), triggers);
    }
}

/// Why a poll got no answer.
#[derive(Clone, Debug)]
pub enum PollFailure {
    NoThread,
    Lookup(String),
    Messages(String),
}

/// What the poll tool says where it has no answer.
pub fn poll_refusal(thread_id: &str, failure: PollFailure) -> (r: String)
    ensures
        r@ == match failure {
            PollFailure::NoThread => "thread not found: "@ + thread_id@,
            PollFailure::Lookup(e) => "poll failed: "@ + e@,
            PollFailure::Messages(e) => "poll messages failed: "@ + e@,
        },
{
    match failure {
        PollFailure::NoThread => cat("thread not found: ", thread_id),
        PollFailure::Lookup(e) => cat("poll failed: ", e.as_str()),
        PollFailure::Messages(e) => cat("poll messages failed: ", e.as_str()),
    }
}

// ── Batches ──────────────────────────────────────────────────────────────────

/// Threads that the batch tool lists at most: it covers every thread of a batch,
/// so the limit is the largest number.
pub const BATCH_STATUS_LIMIT: i64 = 9223372036854775807;

/// A thread of a batch.
#[derive(Clone, Debug)]
pub struct BatchThread {
    pub thread_id: String,
    pub summary: Option<String>,
    pub status: String,
}

/// What the batch tool answers.
#[derive(Clone, Debug)]
pub struct BatchStatus {
    pub batch_id: String,
    pub thread_count: usize,
    pub threads: Vec<BatchThread>,
}

/// A thread as the batch tool shows it.
pub open spec fn batch_thread(t: ThreadRow) -> BatchThread {
    BatchThread { thread_id: t.thread_id, summary: t.summary, status: t.status }
}

/// Threads as the batch tool shows them.
pub open spec fn batch_threads(threads: Seq<ThreadRow>) -> Seq<BatchThread> {
    threads.map_values(|t: ThreadRow| batch_thread(t))
}

/// What a store lists of `all` with a limit: the first ones.
pub open spec fn listed(all: Seq<ThreadRow>, limit: int) -> Seq<ThreadRow> {
    if all.len() <= limit {
        all
    } else {
        all.take(limit)
    }
}

/// The batch tool shows every thread of a batch, once and in order: the limit
/// with which it lists them cuts none of as many as can be counted.
pub proof fn law_batch_status_covers_all(all: Seq<ThreadRow>)
    requires
        all.len() <= i64::MAX,
    ensures
        batch_threads(listed(all, BATCH_STATUS_LIMIT as int)).len() == all.len(),
        forall|i: int|
            0 <= i < all.len() ==> #[trigger] batch_threads(
                listed(all, BATCH_STATUS_LIMIT as int),
            )[i] == batch_thread(all[i]),
{
}

/// What the batch tool answers.
pub fn batch_status_answer(batch_id: &str, threads: Result<Vec<ThreadRow>, String>) -> (r: Result<
    BatchStatus,
    String,
>)
    ensures
        match threads {
            Err(e) => r matches Err(t) && t@ == "batch query failed: "@ + e@,
            Ok(v) => {
                &&& r matches Ok(b)
                &&& b.batch_id@ == batch_id@
                &&& b.thread_count == v@.len()
                &&& b.threads@ == batch_threads(v@)
            },
        },
{
    let v: Vec<ThreadRow> = match threads {
        Ok(v) => v,
        Err(e) => {
            return Err(cat("batch query failed: ", e.as_str()));
        },
    };
    let mut out: Vec<BatchThread> = Vec::new();
    let mut i: usize = 0;
    while i < v.len()
        invariant
            i <= v@.len(),
            out@ == batch_threads(v@.take(i as int)),
        decreases v@.len() - i,
    {
        out.push(
            BatchThread {
                thread_id: v[i].thread_id.clone(),
                summary: opt_copy(&v[i].summary),
                status: v[i].status.clone(),
            },
        );
        i += 1;
        assert(out@ =~= batch_threads(v@.take(i as int)));
    }
    assert(v@.take(i as int) =~= v@);
    Ok(BatchStatus { batch_id: batch_id.to_owned(), thread_count: v.len(), threads: out })
}

// ── Events and worktrees ─────────────────────────────────────────────────────

/// Events that are returned: 100 where nothing else is asked, 1000 at most.
pub fn events_limit(limit: Option<i64>) -> (r: i64)
    ensures
        r == match limit {
            Some(n) => if n > 1000 {
                1000
            } else {
                n
            },
            None => 100,
        },
{
    match limit {
        Some(n) => if n > 1000 {
            1000
        } else {
            n
        },
        None => 100,
    }
}

/// An event as the tool returns it.
#[derive(Clone, Debug)]
pub struct EventEntry {
    pub id: i64,
    pub event_type: String,
    pub summary: String,
    pub detail: Option<String>,
    pub timestamp_ms: i64,
    pub event_index: i32,
    pub tool_name: Option<String>,
}

/// An event as the tool returns it.
pub open spec fn event_entry(e: ExecutionEventRow) -> EventEntry {
    EventEntry {
        id: e.id,
        event_type: e.event_type,
        summary: e.summary,
        detail: e.detail,
        timestamp_ms: e.timestamp_ms,
        event_index: e.event_index,
        tool_name: e.tool_name,
    }
}

/// What the events tool answers.
pub fn events_answer(events: Result<Vec<ExecutionEventRow>, String>) -> (r: Result<
    Vec<EventEntry>,
    String,
>)
    ensures
        match events {
            Err(e) => r matches Err(t) && t@ == "execution events query failed: "@ + e@,
            Ok(v) => r matches Ok(a) && a@ == v@.map_values(
                |e: ExecutionEventRow| event_entry(e),
            ),
        },
{
    let v: Vec<ExecutionEventRow> = match events {
        Ok(v) => v,
        Err(e) => {
            return Err(cat("execution events query failed: ", e.as_str()));
        },
    };
    let mut out: Vec<EventEntry> = Vec::new();
    let mut i: usize = 0;
    while i < v.len()
        invariant
            i <= v@.len(),
            out@ == v@.take(i as int).map_values(|e: ExecutionEventRow| event_entry(e)),
        decreases v@.len() - i,
    {
        let e: &ExecutionEventRow = &v[i];
        out.push(
            EventEntry {
                id: e.id,
                event_type: e.event_type.clone(),
                summary: e.summary.clone(),
                detail: opt_copy(&e.detail),
                timestamp_ms: e.timestamp_ms,
                event_index: e.event_index,
                tool_name: opt_copy(&e.tool_name),
            },
        );
        i += 1;
        assert(out@ =~= v@.take(i as int).map_values(|e: ExecutionEventRow| event_entry(e)));
    }
    assert(v@.take(i as int) =~= v@);
    Ok(out)
}

/// A worktree of a thread.
#[derive(Clone, Debug)]
pub struct WorktreeInfo {
    pub thread_id: String,
    pub path: String,
}

/// The worktrees that a thread filter lets through.
pub open spec fn worktrees_of(v: Seq<WorktreeInfo>, thread_id: Option<Seq<char>>) -> Seq<
    WorktreeInfo,
>
    decreases v.len(),
{
    if v.len() == 0 {
        seq![]
    } else {
        let rest = worktrees_of(v.drop_last(), thread_id);
        if agent_passes(v.last().thread_id@, thread_id) {
            rest.push(v.last())
        } else {
            rest
        }
    }
}

/// What the worktrees tool answers.
pub fn worktrees_answer(thread_id: &Option<String>, found: Result<Vec<WorktreeInfo>, String>) -> (r:
    Result<Vec<WorktreeInfo>, String>)
    ensures
        match found {
            Err(e) => r matches Err(t) && t@ == "worktree list failed: "@ + e@,
            Ok(v) => r matches Ok(a) && a@ == worktrees_of(v@, text::opt_text(*thread_id)),
        },
{
    let v: Vec<WorktreeInfo> = match found {
        Ok(v) => v,
        Err(e) => {
            return Err(cat("worktree list failed: ", e.as_str()));
        },
    };
    let mut out: Vec<WorktreeInfo> = Vec::new();
    let mut i: usize = 0;
    while i < v.len()
        invariant
            i <= v@.len(),
            out@ == worktrees_of(v@.take(i as int), text::opt_text(*thread_id)),
        decreases v@.len() - i,
    {
        assert(v@.take(i + 1).drop_last() =~= v@.take(i as int));
        if passes(v[i].thread_id.as_str(), thread_id) {
            out.push(
                WorktreeInfo { thread_id: v[i].thread_id.clone(), path: v[i].path.clone() },
            );
        }
        i += 1;
    }
    assert(v@.take(i as int) =~= v@);
    Ok(out)
}

// ── Logs ─────────────────────────────────────────────────────────────────────

/// Where the lines of a log come from.
#[derive(Debug)]
pub enum LogSource {
    /// The text of the log file, or why it could not be read. The path comes
    /// first.
    File(String, Result<String, String>),
    /// There is no log file; the execution, as far as it could be read.
    Preview(Result<Option<ExecutionRow>, String>),
}

/// What the log tool answers.
#[derive(Clone, Debug)]
pub struct ReadLogResponse {
    pub execution_id: String,
    pub total_lines: usize,
    pub returned_lines: usize,
    pub offset: usize,
    pub has_more: bool,
    pub source: String,
    pub lines: Vec<String>,
}

/// The lines of a log and the name of their source, or why there are none.
pub open spec fn source_lines(source: LogSource, execution_id: Seq<char>) -> Result<
    (Seq<Seq<char>>, Seq<char>),
    Seq<char>,
> {
    match source {
        LogSource::File(_, Ok(text)) => Ok((text::lines_of(text@), "log_file"@)),
        LogSource::File(path, Err(e)) => Err(
            "failed to read log file "@ + path@ + ": "@ + e@,
        ),
        LogSource::Preview(Ok(Some(exec))) => Ok(
            (text::lines_of(text::text_or(exec.output_preview, ""@)), "output_preview"@),
        ),
        LogSource::Preview(Ok(None)) => Err("execution not found: "@ + execution_id),
        LogSource::Preview(Err(e)) => Err("execution query failed: "@ + e@),
    }
}

/// Lines that are returned at most: 200 where nothing else is asked, 1000 at
/// most.
pub open spec fn log_limit(limit: Option<u64>) -> nat {
    match limit {
        Some(n) => if n > 1000 {
            1000
        } else {
            n as nat
        },
        None => 200,
    }
}

/// First line and end of a page: from the offset on, or the last lines.
pub open spec fn page(total: nat, offset: nat, limit: nat, tail: bool) -> (int, int) {
    if tail {
        (
            if total >= limit {
                total - limit
            } else {
                0
            },
            total as int,
        )
    } else {
        let start = if offset > total {
            total as int
        } else {
            offset as int
        };
        (
            start,
            if start + limit > total {
                total as int
            } else {
                start + limit
            },
        )
    }
}

/// The page that a call asks for.
pub open spec fn page_asked(params: ReadLogParams, total: nat) -> (int, int) {
    page(
        total,
        match params.offset {
            Some(n) => n as nat,
            None => 0,
        },
        log_limit(params.limit),
        params.tail == Some(true),
    )
}

fn find_page(params: &ReadLogParams, total: usize) -> (r: (usize, usize))
    ensures
        (r.0 as int, r.1 as int) == page_asked(*params, total as nat),
        r.0 <= r.1 <= total,
{
    let limit: usize = match params.limit {
        Some(n) => if n > 1000 {
            1000
        } else {
            n as usize
        },
        None => 200,
    };
    let tail: bool = match params.tail {
        Some(b) => b,
        None => false,
    };
    if tail {
        (total.saturating_sub(limit), total)
    } else {
        let start: usize = match params.offset {
            Some(n) => if n > total as u64 {
                total
            } else {
                n as usize
            },
            None => 0,
        };
        let end: usize = if limit > total - start {
            total
        } else {
            start + limit
        };
        (start, end)
    }
}

/// What the log tool answers.
pub fn read_log_answer(params: &ReadLogParams, source: LogSource) -> (r: Result<
    ReadLogResponse,
    String,
>)
    ensures
        match source_lines(source, params.execution_id@) {
            Err(e) => r matches Err(t) && t@ == e,
            Ok((lines, name)) => {
                let (start, end) = page_asked(*params, lines.len());
                &&& r matches Ok(a)
                &&& a.execution_id@ == params.execution_id@
                &&& a.total_lines == lines.len()
                &&& a.offset == start
                &&& text::texts(a.lines@) == lines.subrange(start, end)
                &&& a.returned_lines == end - start
                &&& a.has_more == (end < lines.len())
                &&& a.source@ == name
            },
        },
{
    let (all, name): (Vec<String>, &str) = match source {
        LogSource::File(_, Ok(text)) => (split_lines(text.as_str()), "log_file"),
        LogSource::File(path, Err(e)) => {
            let mut s: String = cat3("failed to read log file ", path.as_str(), ": ");
            s.append(e.as_str());
            return Err(s);
        },
        LogSource::Preview(Ok(Some(exec))) => (
            split_lines(str_or(&exec.output_preview, "")),
            "output_preview",
        ),
        LogSource::Preview(Ok(None)) => {
            return Err(cat("execution not found: ", params.execution_id.as_str()));
        },
        LogSource::Preview(Err(e)) => {
            return Err(cat("execution query failed: ", e.as_str()));
        },
    };
    let ghost lines = text::texts(all@);
    let total: usize = all.len();
    assert(total == lines.len());
    let (start, end): (usize, usize) = find_page(params, total);
    let mut out: Vec<String> = Vec::new();
    let mut i: usize = start;
    while i < end
        invariant
            start <= i <= end <= total,
            total == all@.len(),
            lines == text::texts(all@),
            out@.len() == i - start,
            forall|k: int| 0 <= k < i - start ==> (#[trigger] out@[k])@ == lines[start + k],
        decreases end - i,
    {
        out.push(all[i].clone());
        i += 1;
    }
    assert(text::texts(out@) =~= lines.subrange(start as int, end as int));
    Ok(
        ReadLogResponse {
            execution_id: params.execution_id.clone(),
            total_lines: total,
            returned_lines: end - start,
            offset: start,
            has_more: end < total,
            source: name.to_owned(),
            lines: out,
        },
    )
}

/// The lines that a reader gets who follows `has_more` from `offset` on.
pub open spec fn read_through(lines: Seq<Seq<char>>, offset: nat, limit: nat) -> Seq<Seq<char>>
    decreases lines.len() - offset,
{
    let (start, end) = page(lines.len(), offset, limit, false);
    if end < lines.len() && end > start {
        lines.subrange(start, end) + read_through(lines, end as nat, limit)
    } else {
        lines.subrange(start, end)
    }
}

/// Pages tile the log: reading page after page, each from where the last one
/// ended, gives every line once and in order.
pub proof fn law_pages_tile_the_log(lines: Seq<Seq<char>>, offset: nat, limit: nat)
    requires
        limit > 0,
        offset <= lines.len(),
    ensures
        read_through(lines, offset, limit) == lines.skip(offset as int),
    decreases lines.len() - offset,
{
    let (start, end) = page(lines.len(), offset, limit, false);
    if end < lines.len() {
        law_pages_tile_the_log(lines, end as nat, limit);
        assert(lines.subrange(start, end) + lines.skip(end) =~= lines.skip(start));
    } else {
        assert(lines.subrange(start, end) =~= lines.skip(start));
    }
}

/// The tail is the end of the log: all of it if it is short, and nothing
/// follows it.
pub proof fn law_tail_ends_the_log(lines: Seq<Seq<char>>, offset: nat, limit: nat)
    ensures
        ({
            let (start, end) = page(lines.len(), offset, limit, true);
            &&& end == lines.len()
            &&& 0 <= start <= end
            &&& end - start == if lines.len() < limit {
                lines.len()
            } else {
                limit
            }
        }),
{
}

// ── Tasks ────────────────────────────────────────────────────────────────────

/// Tasks that are listed where nothing else is asked.
pub const DEFAULT_TASK_LIMIT: i64 = 20;

/// A task as the tool returns it.
#[derive(Clone, Debug)]
pub struct TaskEntry {
    pub thread_id: String,
    pub batch_id: Option<String>,
    pub summary: Option<String>,
    pub agent: Option<String>,
    pub execution_status: Option<String>,
    pub started_at: Option<i64>,
    pub finished_at: Option<i64>,
    pub duration_ms: Option<i64>,
    pub error: Option<String>,
    pub prompt_hash: Option<String>,
    pub eligible_at: Option<String>,
    pub eligible_reason: Option<String>,
}

/// What stands against a filter: only `scheduled` is known.
pub fn tasks_refusal(filter: &Option<String>) -> (r: Option<String>)
    ensures
        text::opt_text(r) == match *filter {
            Some(f) => if f@ != "scheduled"@ {
                Some("unknown filter '"@ + f@ + "'. Supported filters: 'scheduled'"@)
            } else {
                None
            },
            None => None,
        },
{
    match filter {
        Some(f) => if !str_eq(f.as_str(), "scheduled") {
            Some(cat3("unknown filter '", f.as_str(), "'. Supported filters: 'scheduled'"))
        } else {
            None
        },
        None => None,
    }
}

/// Whether the tasks are the scheduled executions rather than those of threads:
/// a filter that is not refused asks for them.
pub fn tasks_source(filter: &Option<String>) -> (r: bool)
    ensures
        r == (filter is Some),
{
    filter.is_some()
}

/// How many tasks are read.
pub fn tasks_limit(params: &TasksParams) -> (r: i64)
    ensures
        r == match params.limit {
            Some(n) => n as i64,
            None => DEFAULT_TASK_LIMIT,
        },
{
    match params.limit {
        Some(n) => n as i64,
        None => DEFAULT_TASK_LIMIT,
    }
}

/// When a task may start.
pub open spec fn eligible_text(at: Option<i64>) -> Option<Seq<char>> {
    match at {
        Some(secs) => Some(clock::iso(Instant { secs, nanos: 0 })),
        None => None,
    }
}

fn eligible(at: Option<i64>) -> (r: Option<String>)
    ensures
        text::opt_text(r) == eligible_text(at),
{
    match at {
        Some(secs) => Some(iso_text(Instant { secs, nanos: 0 })),
        None => None,
    }
}

/// Whether `t` is the task of a thread's latest execution.
pub open spec fn task_of_thread(t: TaskEntry, v: ThreadStatusView) -> bool {
    &&& t == (TaskEntry {
        thread_id: v.thread_id,
        batch_id: v.batch_id,
        summary: v.summary,
        agent: v.agent_alias,
        execution_status: v.execution_status,
        started_at: v.started_at,
        finished_at: v.finished_at,
        duration_ms: v.duration_ms,
        error: v.error_detail,
        prompt_hash: v.prompt_hash,
        eligible_at: t.eligible_at,
        eligible_reason: v.eligible_reason,
    })
    &&& text::opt_text(t.eligible_at) == eligible_text(v.eligible_at)
}

/// Whether `t` is the task of a scheduled execution whose thread is summed up so.
pub open spec fn task_of_execution(
    t: TaskEntry,
    e: ExecutionRow,
    summary: Option<String>,
) -> bool {
    &&& t == (TaskEntry {
        thread_id: e.thread_id,
        batch_id: e.batch_id,
        summary,
        agent: Some(e.agent_alias),
        execution_status: Some(e.status),
        started_at: e.started_at,
        finished_at: e.finished_at,
        duration_ms: e.duration_ms,
        error: e.error_detail,
        prompt_hash: e.prompt_hash,
        eligible_at: t.eligible_at,
        eligible_reason: e.eligible_reason,
    })
    &&& text::opt_text(t.eligible_at) == eligible_text(e.eligible_at)
}

/// The threads that have an execution.
pub open spec fn with_execution(v: Seq<ThreadStatusView>) -> Seq<ThreadStatusView>
    decreases v.len(),
{
    if v.len() == 0 {
        seq![]
    } else if v.last().execution_id is Some {
        with_execution(v.drop_last()).push(v.last())
    } else {
        with_execution(v.drop_last())
    }
}

/// What the tasks tool answers without a filter: a task for each thread that has
/// an execution.
pub fn tasks_answer(views: Result<Vec<ThreadStatusView>, String>) -> (r: Result<
    Vec<TaskEntry>,
    String,
>)
    ensures
        match views {
            Err(e) => r matches Err(t) && t@ == "tasks query failed: "@ + e@,
            Ok(v) => {
                &&& r matches Ok(a)
                &&& a@.len() == with_execution(v@).len()
                &&& forall|i: int|
                    0 <= i < a@.len() ==> task_of_thread(#[trigger] a@[i], with_execution(v@)[i])
            },
        },
{
    let v: Vec<ThreadStatusView> = match views {
        Ok(v) => v,
        Err(e) => {
            return Err(cat("tasks query failed: ", e.as_str()));
        },
    };
    let mut out: Vec<TaskEntry> = Vec::new();
    let mut i: usize = 0;
    while i < v.len()
        invariant
            i <= v@.len(),
            out@.len() == with_execution(v@.take(i as int)).len(),
            forall|k: int|
                0 <= k < out@.len() ==> task_of_thread(
                    #[trigger] out@[k],
                    with_execution(v@.take(i as int))[k],
                ),
        decreases v@.len() - i,
    {
        assert(v@.take(i + 1).drop_last() =~= v@.take(i as int));
        let t: &ThreadStatusView = &v[i];
        if t.execution_id.is_some() {
            out.push(
                TaskEntry {
                    thread_id: t.thread_id.clone(),
                    batch_id: opt_copy(&t.batch_id),
                    summary: opt_copy(&t.summary),
                    agent: opt_copy(&t.agent_alias),
                    execution_status: opt_copy(&t.execution_status),
                    started_at: t.started_at,
                    finished_at: t.finished_at,
                    duration_ms: t.duration_ms,
                    error: opt_copy(&t.error_detail),
                    prompt_hash: opt_copy(&t.prompt_hash),
                    eligible_at: eligible(t.eligible_at),
                    eligible_reason: opt_copy(&t.eligible_reason),
                },
            );
        }
        i += 1;
    }
    assert(v@.take(i as int) =~= v@);
    Ok(out)
}

/// What the tasks tool answers for scheduled executions.
pub fn scheduled_answer(found: Result<Vec<(ExecutionRow, Option<String>)>, String>) -> (r: Result<
    Vec<TaskEntry>,
    String,
>)
    ensures
        match found {
            Err(e) => r matches Err(t) && t@ == "tasks query failed: "@ + e@,
            Ok(v) => {
                &&& r matches Ok(a)
                &&& a@.len() == v@.len()
                &&& forall|i: int|
                    0 <= i < a@.len() ==> task_of_execution(#[trigger] a@[i], v@[i].0, v@[i].1)
            },
        },
{
    let v: Vec<(ExecutionRow, Option<String>)> = match found {
        Ok(v) => v,
        Err(e) => {
            return Err(cat("tasks query failed: ", e.as_str()));
        },
    };
    let mut out: Vec<TaskEntry> = Vec::new();
    let mut i: usize = 0;
    while i < v.len()
        invariant
            i <= v@.len(),
            out@.len() == i,
            forall|k: int|
                0 <= k < i ==> task_of_execution(#[trigger] out@[k], v@[k].0, v@[k].1),
        decreases v@.len() - i,
    {
        let e: &ExecutionRow = &v[i].0;
        out.push(
            TaskEntry {
                thread_id: e.thread_id.clone(),
                batch_id: opt_copy(&e.batch_id),
                summary: opt_copy(&v[i].1),
                agent: Some(e.agent_alias.clone()),
                execution_status: Some(e.status.clone()),
                started_at: e.started_at,
                finished_at: e.finished_at,
                duration_ms: e.duration_ms,
                error: opt_copy(&e.error_detail),
                prompt_hash: opt_copy(&e.prompt_hash),
                eligible_at: eligible(e.eligible_at),
                eligible_reason: opt_copy(&e.eligible_reason),
            },
        );
        i += 1;
    }
    Ok(out)
}

// ── What a poll counts ───────────────────────────────────────────────────────

proof fn lemma_poll_counts(
    messages: Seq<MessageRow>,
    intent: Option<Seq<char>>,
    has_cursor: bool,
    triggers: Seq<Seq<char>>,
    p: spec_fn(MessageRow) -> bool,
)
    requires
        forall|m: MessageRow| #[trigger] p(m) <==> counts(m, intent, has_cursor, triggers),
    ensures
        matched(messages, intent, has_cursor, triggers) == messages.filter(p).len(),
        messages.filter(p).len() == 0 ==> last_match(messages, intent, has_cursor, triggers) is None,
        messages.filter(p).len() > 0 ==> last_match(messages, intent, has_cursor, triggers) == Some(
            messages.filter(p).last(),
        ),
    decreases messages.len(),
{
    reveal(Seq::filter);
    if messages.len() > 0 {
        lemma_poll_counts(messages.drop_last(), intent, has_cursor, triggers, p);
        assert(p(messages.last()) <==> counts(messages.last(), intent, has_cursor, triggers));
    }
}

/// Where an intent is asked for, with or without a cursor, the messages of that
/// intent count and no others: their number is told, and the last of them.
pub proof fn law_poll_keeps_to_the_intent(
    messages: Seq<MessageRow>,
    intent: Seq<char>,
    has_cursor: bool,
    triggers: Seq<Seq<char>>,
)
    ensures
        ({
            let asked = of_intent(messages, intent);
            &&& matched(messages, Some(intent), has_cursor, triggers) == asked.len()
            &&& asked.len() > 0 ==> last_match(messages, Some(intent), has_cursor, triggers)
                == Some(asked.last())
            &&& asked.len() == 0 ==> last_match(messages, Some(intent), has_cursor, triggers) is None
        }),
        last_match(messages, Some(intent), has_cursor, triggers) matches Some(m) ==> m.intent@
            == intent && messages.contains(m),
{
    let p = intent_is(intent);
    assert forall|m: MessageRow| #[trigger] p(m) <==> counts(
        m,
        Some(intent),
        has_cursor,
        triggers,
    ) by {}
    lemma_poll_counts(messages, Some(intent), has_cursor, triggers, p);
    lemma_last_match(messages, Some(intent), has_cursor, triggers);
}

/// Where no intent is asked for, every message since a cursor counts; without a
/// cursor those do that are of none of the intents that start work.
pub proof fn law_poll_without_intent(messages: Seq<MessageRow>, triggers: Seq<Seq<char>>)
    ensures
        matched(messages, None, true, triggers) == messages.len(),
        messages.len() > 0 ==> last_match(messages, None, true, triggers) == Some(messages.last()),
        messages.len() == 0 ==> last_match(messages, None, true, triggers) is None,
        ({
            let answers = messages.filter(|m: MessageRow| !triggers.contains(m.intent@));
            &&& matched(messages, None, false, triggers) == answers.len()
            &&& answers.len() > 0 ==> last_match(messages, None, false, triggers) == Some(
                answers.last(),
            )
            &&& answers.len() == 0 ==> last_match(messages, None, false, triggers) is None
        }),
{
    let p = |m: MessageRow| !triggers.contains(m.intent@);
    assert forall|m: MessageRow| #[trigger] p(m) <==> counts(m, None, false, triggers) by {}
    lemma_poll_counts(messages, None, false, triggers, p);
    lemma_poll_since_cursor(messages, triggers);
}

proof fn lemma_last_match(
    messages: Seq<MessageRow>,
    intent: Option<Seq<char>>,
    has_cursor: bool,
    triggers: Seq<Seq<char>>,
)
    ensures
        last_match(messages, intent, has_cursor, triggers) matches Some(m) ==> counts(
            m,
            intent,
            has_cursor,
            triggers,
        ) && messages.contains(m),
    decreases messages.len(),
{
    if messages.len() > 0 {
        let rest = messages.drop_last();
        lemma_last_match(rest, intent, has_cursor, triggers);
        assert(messages.contains(messages[messages.len() - 1]));
        if last_match(rest, intent, has_cursor, triggers) is Some {
            let m = last_match(rest, intent, has_cursor, triggers)->0;
            let k = choose|k: int| 0 <= k < rest.len() && rest[k] == m;
            assert(messages[k] == m);
        }
    }
}

proof fn lemma_poll_since_cursor(messages: Seq<MessageRow>, triggers: Seq<Seq<char>>)
    ensures
        matched(messages, None, true, triggers) == messages.len(),
    decreases messages.len(),
{
    if messages.len() > 0 {
        lemma_poll_since_cursor(messages.drop_last(), triggers);
    }
}

// ── What the answers say of their rows ───────────────────────────────────────

/// An entry of the status list tells of its thread and its latest execution what
/// the row says.
pub proof fn law_status_entry_tells_its_row(v: ThreadStatusView)
    ensures
        ({
            let e = status_entry(v);
            &&& e.thread_id == v.thread_id && e.thread_status == v.thread_status
            &&& e.batch_id == v.batch_id && e.summary == v.summary
            &&& e.agent == v.agent_alias && e.execution_status == v.execution_status
            &&& e.started_at == v.started_at && e.duration_ms == v.duration_ms
            &&& e.error == v.error_detail && e.prompt_hash == v.prompt_hash
        }),
{
}

/// A message of a transcript goes from its sender to its receiver, and an
/// execution is that of its agent, with the times and the outcome of its row.
pub proof fn law_transcript_tells_its_rows(t: TranscriptMessage, m: MessageRow, e: ExecutionRow)
    requires
        tells(t, m),
    ensures
        t.id == m.id && t.reference@ == "db:"@ + text::dec_int(m.id as int),
        t.from == m.from_alias && t.to == m.to_alias,
        t.intent == m.intent && t.body == m.body && t.created_at == m.created_at,
        ({
            let x = told(e);
            &&& x.id == e.id && x.agent == e.agent_alias && x.status == e.status
            &&& x.dispatch_message_id == e.dispatch_message_id
            &&& x.queued_at == e.queued_at && x.started_at == e.started_at
            &&& x.finished_at == e.finished_at && x.duration_ms == e.duration_ms
            &&& x.exit_code == e.exit_code && x.error == e.error_detail
            &&& x.prompt_hash == e.prompt_hash
        }),
{
}

/// The metrics are told if and only if no query failed, and of several failures
/// the one of the query that comes first.
pub proof fn law_first_failure_is_told(
    a: Result<Vec<(String, i64)>, String>,
    b: Result<i64, String>,
    c: Result<i64, String>,
    d: Result<Vec<(String, i64)>, String>,
    e: Result<CostOverview, String>,
)
    ensures
        first_failure(a, b, c, d, e) is None <==> a is Ok && b is Ok && c is Ok && d is Ok
            && e is Ok,
        a matches Err(t) ==> first_failure(a, b, c, d, e) == Some(t@),
        a is Ok ==> (b matches Err(t) ==> first_failure(a, b, c, d, e) == Some(t@)),
        a is Ok && b is Ok ==> (c matches Err(t) ==> first_failure(a, b, c, d, e) == Some(t@)),
        a is Ok && b is Ok && c is Ok ==> (d matches Err(t) ==> first_failure(a, b, c, d, e)
            == Some(t@)),
        a is Ok && b is Ok && c is Ok && d is Ok ==> (e matches Err(t) ==> first_failure(
            a,
            b,
            c,
            d,
            e,
        ) == Some(t@)),
{
}

/// A tool's errors are those of the last entry under its name; a tool without an
/// entry has none.
pub proof fn law_errors_are_the_last_of_the_tool(errors: Seq<ToolErrors>, name: Seq<char>)
    ensures
        (forall|j: int| 0 <= j < errors.len() ==> (#[trigger] errors[j]).tool_name@ != name)
            ==> errors_of(errors, name) == (0i64, 0u64),
        forall|k: int|
            #![trigger errors[k]]
            0 <= k < errors.len() && errors[k].tool_name@ == name && (forall|j: int|
                k < j < errors.len() ==> (#[trigger] errors[j]).tool_name@ != name) ==> errors_of(
                errors,
                name,
            ) == (errors[k].error_count, errors[k].error_rate_bits),
    decreases errors.len(),
{
    if errors.len() > 0 {
        let rest = errors.drop_last();
        law_errors_are_the_last_of_the_tool(rest, name);
        assert(errors[errors.len() - 1] == errors.last());
        if forall|j: int| 0 <= j < errors.len() ==> (#[trigger] errors[j]).tool_name@ != name {
            assert forall|j: int| 0 <= j < rest.len() implies (#[trigger] rest[j]).tool_name@
                != name by {
                assert(rest[j] == errors[j]);
            }
        }
        assert forall|k: int|
            #![trigger errors[k]]
            0 <= k < errors.len() && errors[k].tool_name@ == name && (forall|j: int|
                k < j < errors.len() ==> (#[trigger] errors[j]).tool_name@ != name) implies errors_of(
            errors,
            name,
        ) == (errors[k].error_count, errors[k].error_rate_bits) by {
            if k < rest.len() {
                assert(rest[k] == errors[k]);
                assert forall|j: int| k < j < rest.len() implies (#[trigger] rest[j]).tool_name@
                    != name by {
                    assert(rest[j] == errors[j]);
                }
            }
        }
    }
}

/// With an agent asked for, the usage and the costs of that agent alone are told,
/// each of them; without one, those of all agents. Nothing is told twice or out of
/// order: one more row adds its own entry at the end, or nothing.
pub proof fn law_statistics_of_the_agent(
    usage: Seq<(String, String, i64)>,
    u: (String, String, i64),
    costs: Seq<AgentCostSummary>,
    c: AgentCostSummary,
    filter: Option<Seq<char>>,
)
    ensures
        usage_view(usage.push(u), filter) == if filter is None || u.0@ == filter->0 {
            usage_view(usage, filter).push((u.0@, u.1@, u.2))
        } else {
            usage_view(usage, filter)
        },
        usage_view(Seq::empty(), filter).len() == 0,
        costs_of(costs.push(c), filter) == if filter is None || c.agent_alias@ == filter->0 {
            costs_of(costs, filter).push(c)
        } else {
            costs_of(costs, filter)
        },
        costs_of(Seq::empty(), filter).len() == 0,
{
    assert(usage.push(u).drop_last() =~= usage);
    assert(costs.push(c).drop_last() =~= costs);
}

/// With a thread asked for, its worktrees alone are told; without one, all.
pub proof fn law_worktrees_of_the_thread(
    v: Seq<WorktreeInfo>,
    w: WorktreeInfo,
    thread_id: Option<Seq<char>>,
)
    ensures
        worktrees_of(v.push(w), thread_id) == if thread_id is None || w.thread_id@ == thread_id->0 {
            worktrees_of(v, thread_id).push(w)
        } else {
            worktrees_of(v, thread_id)
        },
        worktrees_of(Seq::empty(), thread_id).len() == 0,
{
    assert(v.push(w).drop_last() =~= v);
}

proof fn lemma_within_bytes(s: Seq<char>, n: nat) -> (k: int)
    ensures
        0 <= k <= s.len(),
        text::within_bytes(s, n) == s.take(k),
    decreases s.len(),
{
    if s.len() == 0 || text::char_width(s[0]) > n {
        assert(s.take(0) =~= seq![]);
        0
    } else {
        let k = lemma_within_bytes(s.skip(1), (n - text::char_width(s[0])) as nat);
        assert(seq![s[0]] + s.skip(1).take(k) =~= s.take(k + 1));
        k + 1
    }
}

/// A body of up to two hundred bytes is shown as it is; of a longer one its
/// beginning is shown, with three dots behind it.
pub proof fn law_preview_is_the_beginning(body: Seq<char>)
    ensures
        text::byte_len(body) <= 200 ==> preview(body) == body,
        text::byte_len(body) > 200 ==> exists|k: int|
            0 <= k <= body.len() && preview(body) == #[trigger] body.take(k) + "..."@,
{
    if text::byte_len(body) > 200 {
        let k = lemma_within_bytes(body, 200);
        assert(preview(body) == body.take(k) + "..."@);
    }
}

/// A thread of a batch and an event are told by what their rows say.
pub proof fn law_batch_and_events_tell_their_rows(t: ThreadRow, e: ExecutionEventRow)
    ensures
        batch_thread(t).thread_id == t.thread_id && batch_thread(t).summary == t.summary
            && batch_thread(t).status == t.status,
        ({
            let x = event_entry(e);
            &&& x.id == e.id && x.event_type == e.event_type && x.summary == e.summary
            &&& x.detail == e.detail && x.timestamp_ms == e.timestamp_ms
            &&& x.event_index == e.event_index && x.tool_name == e.tool_name
        }),
{
}

/// The lines of a log are those of its file where there is one, else those of the
/// preview that the execution keeps; an execution without a preview has none.
pub proof fn law_log_source(source: LogSource, execution_id: Seq<char>)
    ensures
        source matches LogSource::File(_, Ok(t)) ==> source_lines(source, execution_id) == Ok::<
            (Seq<Seq<char>>, Seq<char>),
            Seq<char>,
        >((text::lines_of(t@), "log_file"@)),
        source matches LogSource::File(path, Err(e)) ==> source_lines(source, execution_id) == Err::<
            (Seq<Seq<char>>, Seq<char>),
            Seq<char>,
        >("failed to read log file "@ + path@ + ": "@ + e@),
        source matches LogSource::Preview(Ok(Some(x))) ==> (x.output_preview matches Some(p)
            ==> source_lines(source, execution_id) == Ok::<(Seq<Seq<char>>, Seq<char>), Seq<char>>(
            (text::lines_of(p@), "output_preview"@),
        )),
        source matches LogSource::Preview(Ok(Some(x))) ==> (x.output_preview is None ==> (
        source_lines(source, execution_id) matches Ok(l) && l.0.len() == 0 && l.1
            == "output_preview"@)),
        source matches LogSource::Preview(Ok(None)) ==> source_lines(source, execution_id) == Err::<
            (Seq<Seq<char>>, Seq<char>),
            Seq<char>,
        >("execution not found: "@ + execution_id),
        source matches LogSource::Preview(Err(e)) ==> source_lines(source, execution_id) == Err::<
            (Seq<Seq<char>>, Seq<char>),
            Seq<char>,
        >("execution query failed: "@ + e@),
{
    reveal_strlit("");
}

/// A page has as many lines as were asked for, two hundred where nothing was and a
/// thousand at most, as far as the log reaches: from the offset on, or up to the
/// end of the log where its tail was asked for.
pub proof fn law_page_asked(params: ReadLogParams, total: nat)
    ensures
        ({
            let (start, end) = page_asked(params, total);
            let asked = match params.limit {
                Some(n) => if n > 1000 {
                    1000int
                } else {
                    n as int
                },
                None => 200,
            };
            let from = match params.offset {
                Some(n) => n as int,
                None => 0,
            };
            &&& 0 <= start <= end <= total
            &&& end - start <= asked
            &&& params.tail == Some(true) ==> end == total && (end - start == asked || start == 0)
            &&& params.tail != Some(true) && from <= total ==> start == from && (end - start
                == asked || end == total)
            &&& params.tail != Some(true) && from > total ==> start == total && end == total
        }),
{
}

/// The task of a thread tells of its latest execution, and that of a scheduled
/// execution of the execution itself: its agent, its status and when it may start.
pub proof fn law_tasks_tell_their_rows(
    a: TaskEntry,
    v: ThreadStatusView,
    b: TaskEntry,
    e: ExecutionRow,
    summary: Option<String>,
)
    requires
        task_of_thread(a, v),
        task_of_execution(b, e, summary),
    ensures
        a.thread_id == v.thread_id && a.batch_id == v.batch_id && a.summary == v.summary,
        a.agent == v.agent_alias && a.execution_status == v.execution_status,
        a.started_at == v.started_at && a.finished_at == v.finished_at && a.duration_ms
            == v.duration_ms,
        a.error == v.error_detail && a.prompt_hash == v.prompt_hash && a.eligible_reason
            == v.eligible_reason,
        a.eligible_at is Some <==> v.eligible_at is Some,
        v.eligible_at matches Some(t) ==> a.eligible_at->0@ == clock::iso(
            Instant { secs: t, nanos: 0 },
        ),
        b.thread_id == e.thread_id && b.batch_id == e.batch_id && b.summary == summary,
        b.agent == Some(e.agent_alias) && b.execution_status == Some(e.status),
        b.started_at == e.started_at && b.finished_at == e.finished_at && b.duration_ms
            == e.duration_ms,
        b.error == e.error_detail && b.prompt_hash == e.prompt_hash && b.eligible_reason
            == e.eligible_reason,
        b.eligible_at is Some <==> e.eligible_at is Some,
        e.eligible_at matches Some(t) ==> b.eligible_at->0@ == clock::iso(
            Instant { secs: t, nanos: 0 },
        ),
{
}

/// A thread has a task if and only if it has an execution, and the tasks keep the
/// order of the threads.
pub proof fn law_tasks_are_threads_with_executions(
    v: Seq<ThreadStatusView>,
    t: ThreadStatusView,
)
    ensures
        with_execution(v.push(t)) == if t.execution_id is Some {
            with_execution(v).push(t)
        } else {
            with_execution(v)
        },
        with_execution(Seq::empty()).len() == 0,
{
    assert(v.push(t).drop_last() =~= v);
}

} // verus!
