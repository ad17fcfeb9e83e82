//! The merge tools.
use crate::lifecycle::merge::{MergeError, QueueMergeOutcome};
use crate::lifecycle::merge;
use crate::store::{read_conflicts, MergeOperation};
use crate::store;
use crate::text::{cat, cat3, opt_copy, str_eq, u64_text};
use crate::text;
use vstd::prelude::*;

verus! {

/// Seconds between two progress notifications.
pub const WAIT_MERGE_PROGRESS_INTERVAL_SECS: u64 = 10;

/// Seconds that a merge is waited for where nothing else is asked.
pub const WAIT_MERGE_DEFAULT_TIMEOUT_SECS: u64 = 120;

/// Operations that the overview lists at most.
pub const MERGE_OVERVIEW_LIMIT: i64 = 20;

// ── Queueing ─────────────────────────────────────────────────────────────────

/// What the merge tool answers.
#[derive(Clone, Debug)]
pub struct MergeQueuedResult {
    pub op_id: String,
    pub thread_id: String,
    pub source_branch: String,
    pub target_branch: String,
    pub strategy: String,
    pub status: String,
    pub queue_depth: i64,
    pub next_step: String,
}

/// How to wait for a queued merge.
pub open spec fn merge_next_step(op_id: Seq<char>) -> Seq<char> {
    "orch_wait_merge(op_id=\""@ + op_id + "\") or CLI: compas wait merge --op-id "@ + op_id
        + " --timeout 120"@
}

/// What the tool says of a merge that was not queued. What a preflight or the
/// store said stands as it is.
pub open spec fn refusal_text(e: MergeError) -> Seq<char> {
    match e {
        MergeError::InvalidStrategy(_) => merge::merge_error_text(e),
        MergeError::PreflightFailed(m) => m@,
        MergeError::StoreFailed(m) => m@,
    }
}

/// What the merge tool answers once a merge was queued or refused.
pub fn merge_answer(outcome: Result<QueueMergeOutcome, MergeError>) -> (r: Result<
    MergeQueuedResult,
    String,
>)
    ensures
        match outcome {
            Ok(o) => {
                &&& r matches Ok(a)
                &&& a.op_id == o.op_id
                &&& a.thread_id == o.thread_id
                &&& a.source_branch == o.source_branch
                &&& a.target_branch == o.target_branch
                &&& a.strategy == o.strategy
                &&& a.status@ == "queued"@
                &&& a.queue_depth == o.queue_depth
                &&& a.next_step@ == merge_next_step(o.op_id@)
            },
            Err(e) => r matches Err(t) && t@ == refusal_text(e),
        },
{
    match outcome {
        Ok(o) => {
            let mut next_step: String = cat3(
                "orch_wait_merge(op_id=\"",
                o.op_id.as_str(),
                "\") or CLI: compas wait merge --op-id ",
            );
            next_step.append(o.op_id.as_str());
            next_step.append(" --timeout 120");
            Ok(
                MergeQueuedResult {
                    op_id: o.op_id,
                    thread_id: o.thread_id,
                    source_branch: o.source_branch,
                    target_branch: o.target_branch,
                    strategy: o.strategy,
                    status: "queued".to_owned(),
                    queue_depth: o.queue_depth,
                    next_step,
                },
            )
        },
        Err(MergeError::PreflightFailed(m)) => Err(m),
        Err(MergeError::StoreFailed(m)) => Err(m),
        Err(e) => Err(e.message()),
    }
}

// ── Status ───────────────────────────────────────────────────────────────────

/// A merge in full.
#[derive(Clone, Debug)]
pub struct MergeOpDetail {
    pub op_id: String,
    pub thread_id: String,
    pub source_branch: String,
    pub target_branch: String,
    pub strategy: String,
    pub requested_by: String,
    pub status: String,
    pub queued_at: i64,
    pub started_at: Option<i64>,
    pub finished_at: Option<i64>,
    pub duration_ms: Option<i64>,
    pub result_summary: Option<String>,
    pub error_detail: Option<String>,
    pub conflict_files: Option<Vec<String>>,
    pub commit_message: Option<String>,
    pub suggested_actions: Option<Vec<String>>,
}

/// A merge in short.
#[derive(Clone, Debug)]
pub struct MergeOpSummary {
    pub op_id: String,
    pub thread_id: String,
    pub target_branch: String,
    pub strategy: String,
    pub status: String,
    pub queued_at: i64,
}

/// What the status tool answers where no merge is named.
#[derive(Clone, Debug)]
pub struct MergeOverview {
    /// Operations by status.
    pub counts: Vec<(String, i64)>,
    pub recent: Vec<MergeOpSummary>,
}

/// What can be done about a failed merge; `conflicting` is whether its files in
/// conflict are known.
pub open spec fn actions_for(op: MergeOperation, conflicting: bool) -> Option<Seq<Seq<char>>> {
    if op.status@ == "failed"@ {
        Some(
            (if conflicting {
                seq!["Resolve conflicts in the source branch, then re-queue the merge"@]
            } else {
                seq![]
            }) + seq![
                "Re-queue with: orch_merge(thread_id=\""@ + op.thread_id@
                    + "\", target_branch=\""@ + op.target_branch@ + "\")"@,
                "Cancel with: orch_merge_cancel(op_id=\""@ + op.id@ + "\")"@,
            ],
        )
    } else {
        None
    }
}

/// What can be done about a failed merge.
pub fn suggested_actions(op: &MergeOperation, conflicting: bool) -> (r: Option<Vec<String>>)
    ensures
        text::opt_texts(r) == actions_for(*op, conflicting),
{
    if !str_eq(op.status.as_str(), "failed") {
        return None;
    }
    let mut v: Vec<String> = Vec::new();
    if conflicting {
        v.push("Resolve conflicts in the source branch, then re-queue the merge".to_owned());
    }
    let mut requeue: String = cat3(
        "Re-queue with: orch_merge(thread_id=\"",
        op.thread_id.as_str(),
        "\", target_branch=\"",
    );
    requeue.append(op.target_branch.as_str());
    requeue.append("\")");
    v.push(requeue);
    v.push(cat3("Cancel with: orch_merge_cancel(op_id=\"", op.id.as_str(), "\")"));
    assert(text::texts(v@) =~= actions_for(*op, conflicting)->0);
    Some(v)
}

/// Whether `d` is `op` in full, with the given files in conflict.
pub open spec fn details(
    d: MergeOpDetail,
    op: MergeOperation,
    files: Option<Seq<Seq<char>>>,
) -> bool {
    &&& d.op_id == op.id
    &&& d.thread_id == op.thread_id
    &&& d.source_branch == op.source_branch
    &&& d.target_branch == op.target_branch
    &&& d.strategy == op.merge_strategy
    &&& d.requested_by == op.requested_by
    &&& d.status == op.status
    &&& d.queued_at == op.queued_at
    &&& d.started_at == op.started_at
    &&& d.finished_at == op.finished_at
    &&& d.duration_ms == op.duration_ms
    &&& d.result_summary == op.result_summary
    &&& d.error_detail == op.error_detail
    &&& text::opt_texts(d.conflict_files) == files
    &&& d.commit_message == op.commit_message
    &&& text::opt_texts(d.suggested_actions) == actions_for(op, files is Some)
}

/// A merge in full, given its files in conflict.
pub fn detail_with(op: &MergeOperation, conflict_files: Option<Vec<String>>) -> (r: MergeOpDetail)
    ensures
        details(r, *op, text::opt_texts(conflict_files)),
{
    let suggested: Option<Vec<String>> = suggested_actions(op, conflict_files.is_some());
    MergeOpDetail {
        op_id: op.id.clone(),
        thread_id: op.thread_id.clone(),
        source_branch: op.source_branch.clone(),
        target_branch: op.target_branch.clone(),
        strategy: op.merge_strategy.clone(),
        requested_by: op.requested_by.clone(),
        status: op.status.clone(),
        queued_at: op.queued_at,
        started_at: op.started_at,
        finished_at: op.finished_at,
        duration_ms: op.duration_ms,
        result_summary: opt_copy(&op.result_summary),
        error_detail: opt_copy(&op.error_detail),
        conflict_files,
        commit_message: opt_copy(&op.commit_message),
        suggested_actions: suggested,
    }
}

/// A merge in full.
pub fn op_to_detail(op: &MergeOperation) -> (r: MergeOpDetail)
    ensures
        details(r, *op, store::conflicts_of(*op)),
{
    detail_with(op, read_conflicts(op))
}

/// Whether `s` is `op` in short.
pub open spec fn sums_up(s: MergeOpSummary, op: MergeOperation) -> bool {
    &&& s.op_id == op.id
    &&& s.thread_id == op.thread_id
    &&& s.target_branch == op.target_branch
    &&& s.strategy == op.merge_strategy
    &&& s.status == op.status
    &&& s.queued_at == op.queued_at
}

/// A merge in short.
pub fn op_to_summary(op: &MergeOperation) -> (r: MergeOpSummary)
    ensures
        sums_up(r, *op),
{
    MergeOpSummary {
        op_id: op.id.clone(),
        thread_id: op.thread_id.clone(),
        target_branch: op.target_branch.clone(),
        strategy: op.merge_strategy.clone(),
        status: op.status.clone(),
        queued_at: op.queued_at,
    }
}

/// What the status tool answers for a named merge.
pub fn merge_detail_answer(op_id: &str, found: Result<Option<MergeOperation>, String>) -> (r:
    Result<MergeOpDetail, String>)
    ensures
        match found {
            Ok(Some(op)) => r matches Ok(d) && details(d, op, store::conflicts_of(op)),
            Ok(None) => r matches Err(t) && t@ == "merge operation '"@ + op_id@ + "' not found"@,
            Err(e) => r matches Err(t) && t@ == "failed to query merge op: "@ + e@,
        },
{
    match found {
        Ok(Some(op)) => Ok(op_to_detail(&op)),
        Ok(None) => Err(cat3("merge operation '", op_id, "' not found")),
        Err(e) => Err(cat("failed to query merge op: ", e.as_str())),
    }
}

/// What the status tool answers where no merge is named.
pub fn merge_overview_answer(
    counts: Result<Vec<(String, i64)>, String>,
    recent: Result<Vec<MergeOperation>, String>,
) -> (r: Result<MergeOverview, String>)
    ensures
        match counts {
            Err(e) => r matches Err(t) && t@ == "failed to count merge operations: "@ + e@,
            Ok(c) => match recent {
                Err(e) => r matches Err(t) && t@ == "failed to list merge operations: "@ + e@,
                Ok(ops) => {
                    &&& r matches Ok(o)
                    &&& o.counts == c
                    &&& o.recent@.len() == ops@.len()
                    &&& forall|i: int|
                        0 <= i < ops@.len() ==> sums_up(#[trigger] o.recent@[i], ops@[i])
                },
            },
        },
{
    let counts: Vec<(String, i64)> = match counts {
        Ok(c) => c,
        Err(e) => {
            return Err(cat("failed to count merge operations: ", e.as_str()));
        },
    };
    let ops: Vec<MergeOperation> = match recent {
        Ok(v) => v,
        Err(e) => {
            return Err(cat("failed to list merge operations: ", e.as_str()));
        },
    };
    let mut out: Vec<MergeOpSummary> = Vec::new();
    let mut i: usize = 0;
    while i < ops.len()
        invariant
            i <= ops@.len(),
            out@.len() == i,
            forall|k: int| 0 <= k < i ==> sums_up(#[trigger] out@[k], ops@[k]),
        decreases ops@.len() - i,
    {
        out.push(op_to_summary(&ops[i]));
        i += 1;
    }
    Ok(MergeOverview { counts, recent: out })
}

// ── Cancelling ───────────────────────────────────────────────────────────────

/// What the cancel tool answers.
#[derive(Clone, Debug)]
pub struct MergeCancelResult {
    pub op_id: String,
    pub cancelled: bool,
    pub reason: Option<String>,
}

/// What stands against cancelling from the start: that there is no such merge.
/// A lookup that failed does not.
pub fn cancel_refusal(op_id: &str, found: &Result<Option<MergeOperation>, String>) -> (r: Option<
    String,
>)
    ensures
        text::opt_text(r) == match *found {
            Ok(None) => Some("merge operation '"@ + op_id@ + "' not found"@),
            _ => None,
        },
{
    match found {
        Ok(None) => Some(cat3("merge operation '", op_id, "' not found")),
        _ => None,
    }
}

/// What the cancel tool answers once the cancelling was tried. `current` is the
/// merge as it is now, and is read where it was no longer queued.
pub fn cancel_answer(
    op_id: &str,
    cancelled: Result<bool, String>,
    current: Option<MergeOperation>,
) -> (r: Result<MergeCancelResult, String>)
    ensures
        match cancelled {
            Ok(true) => r matches Ok(c) && c.op_id@ == op_id@ && c.cancelled && c.reason is None,
            Ok(false) => r matches Err(t) && t@ == "cannot cancel merge operation '"@ + op_id@
                + "' — current status is '"@ + (match current {
                Some(op) => op.status@,
                None => "unknown"@,
            }) + "' (only 'queued' operations can be cancelled)"@,
            Err(e) => r matches Err(t) && t@ == "failed to cancel merge op: "@ + e@,
        },
{
    match cancelled {
        Ok(done) => {
            if done {
                Ok(MergeCancelResult { op_id: op_id.to_owned(), cancelled: true, reason: None })
            } else {
                let status: String = match current {
                    Some(op) => op.status,
                    None => "unknown".to_owned(),
                };
                let mut s: String = cat3(
                    "cannot cancel merge operation '",
                    op_id,
                    "' — current status is '",
                );
                s.append(status.as_str());
                s.append("' (only 'queued' operations can be cancelled)");
                Err(s)
            }
        },
        Err(e) => Err(cat("failed to cancel merge op: ", e.as_str())),
    }
}

// ── Waiting ──────────────────────────────────────────────────────────────────

/// Seconds that a merge is waited for.
pub fn wait_merge_timeout(requested: Option<u64>) -> (r: u64)
    ensures
        r == match requested {
            Some(n) => n,
            None => WAIT_MERGE_DEFAULT_TIMEOUT_SECS,
        },
{
    match requested {
        Some(n) => n,
        None => WAIT_MERGE_DEFAULT_TIMEOUT_SECS,
    }
}

/// The progress token of a wait whose client gave none.
pub fn merge_progress_token(op_id: &str) -> (r: String)
    ensures
        r@ == "orch-wait-merge-"@ + op_id@,
{
    cat("orch-wait-merge-", op_id)
}

/// The text of a progress notification.
pub fn merge_progress_message(op_id: &str, elapsed: u64, timeout_secs: u64) -> (r: String)
    ensures
        r@ == "waiting for merge op "@ + op_id@ + "... "@ + text::dec(elapsed as nat) + "/"@ + text::dec(
            timeout_secs as nat,
        ) + "s"@,
{
    let mut s: String = cat3("waiting for merge op ", op_id, "... ");
    s.append(u64_text(elapsed).as_str());
    s.append("/");
    s.append(u64_text(timeout_secs).as_str());
    s.append("s");
    s
}

/// What a wait for a merge came to.
#[derive(Clone, Debug)]
pub enum WaitMergeOutcome {
    Found(MergeOperation),
    Timeout { op_id: String, timeout_secs: u64, last_status: Option<String> },
}

/// The answer when the merge came to its end.
#[derive(Clone, Debug)]
pub struct WaitMergeResult {
    pub found: bool,
    pub op_id: String,
    pub thread_id: String,
    pub status: String,
    pub source_branch: String,
    pub target_branch: String,
    pub duration_ms: Option<i64>,
    pub result_summary: Option<String>,
    pub error_detail: Option<String>,
    pub conflict_files: Option<Vec<String>>,
}

/// The answer when it did not in time.
#[derive(Clone, Debug)]
pub struct WaitMergeTimeout {
    pub found: bool,
    pub op_id: String,
    pub timeout_secs: u64,
    pub last_status: Option<String>,
}

/// The answer of the tool.
#[derive(Clone, Debug)]
pub enum WaitMergeAnswer {
    Found(WaitMergeResult),
    Timeout(WaitMergeTimeout),
}

/// What the tool answers once the wait has ended.
pub fn wait_merge_answer(outcome: Result<WaitMergeOutcome, String>) -> (r: Result<
    WaitMergeAnswer,
    String,
>)
    ensures
        match outcome {
            Ok(WaitMergeOutcome::Found(op)) => {
                &&& r matches Ok(WaitMergeAnswer::Found(f))
                &&& f.found
                &&& f.op_id == op.id
                &&& f.thread_id == op.thread_id
                &&& f.status == op.status
                &&& f.source_branch == op.source_branch
                &&& f.target_branch == op.target_branch
                &&& f.duration_ms == op.duration_ms
                &&& f.result_summary == op.result_summary
                &&& f.error_detail == op.error_detail
                &&& text::opt_texts(f.conflict_files) == store::conflicts_of(op)
            },
            Ok(WaitMergeOutcome::Timeout { op_id, timeout_secs, last_status }) => {
                &&& r matches Ok(WaitMergeAnswer::Timeout(t))
                &&& !t.found
                &&& t.op_id == op_id
                &&& t.timeout_secs == timeout_secs
                &&& t.last_status == last_status
            },
            Err(e) => r == Err::<WaitMergeAnswer, String>(e),
        },
{
    match outcome {
        Ok(WaitMergeOutcome::Found(op)) => {
            let conflict_files: Option<Vec<String>> = read_conflicts(&op);
            Ok(
                WaitMergeAnswer::Found(
                    WaitMergeResult {
                        found: true,
                        op_id: op.id,
                        thread_id: op.thread_id,
                        status: op.status,
                        source_branch: op.source_branch,
                        target_branch: op.target_branch,
                        duration_ms: op.duration_ms,
                        result_summary: op.result_summary,
                        error_detail: op.error_detail,
                        conflict_files,
                    },
                ),
            )
        },
        Ok(WaitMergeOutcome::Timeout { op_id, timeout_secs, last_status }) => Ok(
            WaitMergeAnswer::Timeout(
                WaitMergeTimeout { found: false, op_id, timeout_secs, last_status },
            ),
        ),
        Err(e) => Err(e),
    }
}

// ── Laws ─────────────────────────────────────────────────────────────────────

/// A refused merge is told in the words of the preflight or the store; an unknown
/// strategy is named.
pub proof fn law_merge_refusals(e: MergeError)
    ensures
        e matches MergeError::PreflightFailed(m) ==> refusal_text(e) == m@,
        e matches MergeError::StoreFailed(m) ==> refusal_text(e) == m@,
        e matches MergeError::InvalidStrategy(s) ==> refusal_text(e) == "invalid merge strategy '"@
            + s@ + "' — must be one of: merge, rebase, squash"@,
{
}

/// Something can be done about a failed merge and about no other: it can be queued
/// again for the same thread and target, and cancelled by its id; where its files
/// in conflict are known, resolving them comes first.
pub proof fn law_actions_for_failed_merges(op: MergeOperation, conflicting: bool)
    ensures
        actions_for(op, conflicting) is Some <==> op.status@ == "failed"@,
        op.status@ == "failed"@ ==> {
            let a = actions_for(op, conflicting)->0;
            let n: int = if conflicting {
                1
            } else {
                0
            };
            &&& a.len() == n + 2
            &&& conflicting ==> a[0]
                == "Resolve conflicts in the source branch, then re-queue the merge"@
            &&& a[n] == "Re-queue with: orch_merge(thread_id=\""@ + op.thread_id@
                + "\", target_branch=\""@ + op.target_branch@ + "\")"@
            &&& a[n + 1] == "Cancel with: orch_merge_cancel(op_id=\""@ + op.id@ + "\")"@
        },
{
}

/// A merge in full and in short tells what its operation says, field by field.
pub proof fn law_merges_tell_their_operation(
    d: MergeOpDetail,
    s: MergeOpSummary,
    op: MergeOperation,
    files: Option<Seq<Seq<char>>>,
)
    requires
        details(d, op, files),
        sums_up(s, op),
    ensures
        d.op_id == op.id && s.op_id == op.id,
        d.thread_id == op.thread_id && s.thread_id == op.thread_id,
        d.source_branch == op.source_branch,
        d.target_branch == op.target_branch && s.target_branch == op.target_branch,
        d.strategy == op.merge_strategy && s.strategy == op.merge_strategy,
        d.status == op.status && s.status == op.status,
        d.requested_by == op.requested_by && d.commit_message == op.commit_message,
        d.queued_at == op.queued_at && s.queued_at == op.queued_at,
        d.started_at == op.started_at && d.finished_at == op.finished_at,
        d.duration_ms == op.duration_ms && d.result_summary == op.result_summary,
        d.error_detail == op.error_detail && text::opt_texts(d.conflict_files) == files,
        d.suggested_actions is Some <==> op.status@ == "failed"@,
{
    law_actions_for_failed_merges(op, files is Some);
}

} // verus!
