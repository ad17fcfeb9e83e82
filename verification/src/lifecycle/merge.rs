//! Queueing merges.
use crate::ids::new_ulid;
use crate::ids;
use crate::store::{MergeOperation, ThreadRow};
use crate::text::{cat, cat3, str_eq};
use crate::text;
use vstd::prelude::*;

verus! {

/// Why a merge was not queued.
#[derive(Clone, Debug)]
pub enum MergeError {
    InvalidStrategy(String),
    PreflightFailed(String),
    StoreFailed(String),
}

/// The error as a sentence.
pub open spec fn merge_error_text(e: MergeError) -> Seq<char> {
    match e {
        MergeError::InvalidStrategy(s) => "invalid merge strategy '"@ + s@
            + "' — must be one of: merge, rebase, squash"@,
        MergeError::PreflightFailed(m) => "preflight failed: "@ + m@,
        MergeError::StoreFailed(m) => "store error: "@ + m@,
    }
}

impl MergeError {
    /// The error as a sentence.
    pub fn message(&self) -> (r: String)
        ensures
            r@ == merge_error_text(*self),
    {
        match self {
            MergeError::InvalidStrategy(s) => cat3(
                "invalid merge strategy '",
                s.as_str(),
                "' — must be one of: merge, rebase, squash",
            ),
            MergeError::PreflightFailed(m) => cat("preflight failed: ", m.as_str()),
            MergeError::StoreFailed(m) => cat("store error: ", m.as_str()),
        }
    }
}

/// A queued merge.
#[derive(Clone, Debug)]
pub struct QueueMergeOutcome {
    pub op_id: String,
    pub thread_id: String,
    pub source_branch: String,
    pub target_branch: String,
    pub strategy: String,
    pub queue_depth: i64,
}

/// Whether `s` names a merge strategy.
pub open spec fn known_strategy(s: Seq<char>) -> bool {
    s == "merge"@ || s == "rebase"@ || s == "squash"@
}

/// The text of `a`, or `default`.
pub open spec fn chosen(a: Option<&str>, default: Seq<char>) -> Seq<char> {
    match a {
        Some(s) => s@,
        None => default,
    }
}

/// A merge on its way into the queue.
#[derive(Clone, Debug)]
pub struct Queueing {
    /// The id under which the merge is queued.
    pub op_id: String,
    pub thread_id: String,
    pub requested_by: String,
    pub target_branch: String,
    pub strategy: String,
    /// The branch to merge, once the preflight has told it.
    pub source_branch: String,
}

/// The same, as plain values.
pub struct QueueingView {
    pub op_id: Seq<char>,
    pub thread_id: Seq<char>,
    pub requested_by: Seq<char>,
    pub target_branch: Seq<char>,
    pub strategy: Seq<char>,
    pub source_branch: Seq<char>,
}

impl View for Queueing {
    type V = QueueingView;

    open spec fn view(&self) -> QueueingView {
        QueueingView {
            op_id: self.op_id@,
            thread_id: self.thread_id@,
            requested_by: self.requested_by@,
            target_branch: self.target_branch@,
            strategy: self.strategy@,
            source_branch: self.source_branch@,
        }
    }
}

impl Queueing {
    /// A merge to be queued under an id of its own: into `main` unless another
    /// branch is asked for, by the configured strategy unless another is asked
    /// for.
    pub fn new(
        thread_id: &str,
        requested_by: &str,
        target_branch: Option<&str>,
        strategy: Option<&str>,
        default_strategy: &str,
    ) -> (r: Queueing)
        ensures
            ids::is_ulid(r@.op_id),
            r@ == (QueueingView {
                op_id: r@.op_id,
                thread_id: thread_id@,
                requested_by: requested_by@,
                target_branch: chosen(target_branch, "main"@),
                strategy: chosen(strategy, default_strategy@),
                source_branch: Seq::empty(),
            }),
    {
        let target: &str = match target_branch {
            Some(t) => t,
            None => "main",
        };
        let how: &str = match strategy {
            Some(s) => s,
            None => default_strategy,
        };
        Queueing {
            op_id: new_ulid(),
            thread_id: thread_id.to_owned(),
            requested_by: requested_by.to_owned(),
            target_branch: target.to_owned(),
            strategy: how.to_owned(),
            source_branch: String::new(),
        }
    }
}

/// What was answered last.
#[derive(Debug)]
pub enum MergeReply {
    /// Nothing was asked yet.
    Begin,
    /// Path and repository of the thread's worktree.
    Worktree(Result<Option<(String, String)>, String>),
    /// The branch to merge, or what stands against the merge.
    Preflight(Result<String, String>),
    /// The lookup of the thread.
    Thread(Result<Option<ThreadRow>, String>),
    /// Whether the operation was inserted.
    Inserted(Result<(), String>),
    /// How many merges wait for the branch.
    Depth(Result<i64, String>),
}

/// What to do next.
#[derive(Debug)]
pub enum MergeStep {
    FindWorktree,
    /// Check that the thread's branch can be merged in the repository.
    Preflight { target_branch: String, repo_root: String },
    FindThread,
    Insert(MergeOperation),
    CountQueued(String),
    Done(Result<QueueMergeOutcome, MergeError>),
}

/// What a merge operation says.
pub struct MergeOpView {
    pub id: Seq<char>,
    pub thread_id: Seq<char>,
    pub source_branch: Seq<char>,
    pub target_branch: Seq<char>,
    pub merge_strategy: Seq<char>,
    pub requested_by: Seq<char>,
    pub status: Seq<char>,
    pub push_requested: bool,
    pub queued_at: i64,
    pub claimed_at: Option<i64>,
    pub started_at: Option<i64>,
    pub finished_at: Option<i64>,
    pub duration_ms: Option<i64>,
    pub result_summary: Option<Seq<char>>,
    pub error_detail: Option<Seq<char>>,
    pub conflict_files: Option<Seq<char>>,
    pub commit_message: Option<Seq<char>>,
}

/// What a merge operation says.
pub open spec fn op_view(op: MergeOperation) -> MergeOpView {
    MergeOpView {
        id: op.id@,
        thread_id: op.thread_id@,
        source_branch: op.source_branch@,
        target_branch: op.target_branch@,
        merge_strategy: op.merge_strategy@,
        requested_by: op.requested_by@,
        status: op.status@,
        push_requested: op.push_requested,
        queued_at: op.queued_at,
        claimed_at: op.claimed_at,
        started_at: op.started_at,
        finished_at: op.finished_at,
        duration_ms: op.duration_ms,
        result_summary: text::opt_text(op.result_summary),
        error_detail: text::opt_text(op.error_detail),
        conflict_files: text::opt_text(op.conflict_files),
        commit_message: text::opt_text(op.commit_message),
    }
}

/// What a step says.
pub enum MergeStepView {
    FindWorktree,
    Preflight { target_branch: Seq<char>, repo_root: Seq<char> },
    FindThread,
    Insert(MergeOpView),
    CountQueued(Seq<char>),
    Queued {
        op_id: Seq<char>,
        thread_id: Seq<char>,
        source_branch: Seq<char>,
        target_branch: Seq<char>,
        strategy: Seq<char>,
        queue_depth: i64,
    },
    InvalidStrategy(Seq<char>),
    PreflightFailed(Seq<char>),
    StoreFailed(Seq<char>),
}

impl MergeStepView {
    /// Whether the merge ends without having been queued.
    pub open spec fn refused(self) -> bool {
        self is InvalidStrategy || self is PreflightFailed || self is StoreFailed
    }
}

impl View for MergeStep {
    type V = MergeStepView;

    open spec fn view(&self) -> MergeStepView {
        match *self {
            MergeStep::FindWorktree => MergeStepView::FindWorktree,
            MergeStep::Preflight { target_branch, repo_root } => MergeStepView::Preflight {
                target_branch: target_branch@,
                repo_root: repo_root@,
            },
            MergeStep::FindThread => MergeStepView::FindThread,
            MergeStep::Insert(op) => MergeStepView::Insert(op_view(op)),
            MergeStep::CountQueued(branch) => MergeStepView::CountQueued(branch@),
            MergeStep::Done(Ok(o)) => MergeStepView::Queued {
                op_id: o.op_id@,
                thread_id: o.thread_id@,
                source_branch: o.source_branch@,
                target_branch: o.target_branch@,
                strategy: o.strategy@,
                queue_depth: o.queue_depth,
            },
            MergeStep::Done(Err(MergeError::InvalidStrategy(s))) => MergeStepView::InvalidStrategy(
                s@,
            ),
            MergeStep::Done(Err(MergeError::PreflightFailed(m))) => MergeStepView::PreflightFailed(
                m@,
            ),
            MergeStep::Done(Err(MergeError::StoreFailed(m))) => MergeStepView::StoreFailed(m@),
        }
    }
}

/// The operation that is queued for a merge. The thread's summary is its commit
/// message.
pub open spec fn queued_op(
    state: QueueingView,
    thread: Result<Option<ThreadRow>, String>,
    now: i64,
) -> MergeOpView {
    MergeOpView {
        id: state.op_id,
        thread_id: state.thread_id,
        source_branch: state.source_branch,
        target_branch: state.target_branch,
        merge_strategy: state.strategy,
        requested_by: state.requested_by,
        status: "queued"@,
        push_requested: false,
        queued_at: now,
        claimed_at: None,
        started_at: None,
        finished_at: None,
        duration_ms: None,
        result_summary: None,
        error_detail: None,
        conflict_files: None,
        commit_message: match thread {
            Ok(Some(row)) => text::opt_text(row.summary),
            _ => None,
        },
    }
}

/// What an answer leaves in the state: the branch that the preflight told.
pub open spec fn merge_state(state: QueueingView, reply: MergeReply) -> QueueingView {
    match reply {
        MergeReply::Preflight(Ok(branch)) => QueueingView { source_branch: branch@, ..state },
        _ => state,
    }
}

/// What follows each answer, in the state that the answer left. The repository
/// is that of the thread's worktree, or the default directory if it has none or
/// cannot be read; a depth that cannot be read counts as one.
pub open spec fn merge_next(
    state: QueueingView,
    reply: MergeReply,
    default_workdir: Seq<char>,
    now: i64,
) -> MergeStepView {
    match reply {
        MergeReply::Begin => if known_strategy(state.strategy) {
            MergeStepView::FindWorktree
        } else {
            MergeStepView::InvalidStrategy(state.strategy)
        },
        MergeReply::Worktree(found) => MergeStepView::Preflight {
            target_branch: state.target_branch,
            repo_root: match found {
                Ok(Some(worktree)) => worktree.1@,
                _ => default_workdir,
            },
        },
        MergeReply::Preflight(Ok(_)) => MergeStepView::FindThread,
        MergeReply::Preflight(Err(e)) => MergeStepView::PreflightFailed(e@),
        MergeReply::Thread(found) => MergeStepView::Insert(queued_op(state, found, now)),
        MergeReply::Inserted(Ok(_)) => MergeStepView::CountQueued(state.target_branch),
        MergeReply::Inserted(Err(e)) => MergeStepView::StoreFailed(
            "failed to queue merge: "@ + e@,
        ),
        MergeReply::Depth(depth) => MergeStepView::Queued {
            op_id: state.op_id,
            thread_id: state.thread_id,
            source_branch: state.source_branch,
            target_branch: state.target_branch,
            strategy: state.strategy,
            queue_depth: match depth {
                Ok(d) => d,
                Err(_) => 1,
            },
        },
    }
}

/// The rules by which merges are queued.
#[derive(Clone, Copy, Debug)]
pub struct MergeService {}

impl MergeService {
    /// The merge rules; they hold no state of their own.
    pub fn new() -> (r: MergeService)
        ensures
            r == (MergeService {  }),
    {
        MergeService {  }
    }

    /// The next step in queueing a merge. Queueing starts with
    /// `MergeReply::Begin`; only the three known strategies are accepted.
    pub fn queue_merge(
        &self,
        state: &mut Queueing,
        reply: MergeReply,
        default_workdir: &str,
        now: i64,
    ) -> (r: MergeStep)
        ensures
            final(state)@ == merge_state(old(state)@, reply),
            r@ == merge_next(final(state)@, reply, default_workdir@, now),
            final(state).target_branch@ == old(state).target_branch@,
            final(state).strategy@ == old(state).strategy@,
            final(state).op_id@ == old(state).op_id@,
            final(state).thread_id@ == old(state).thread_id@,
            reply matches MergeReply::Preflight(Ok(branch)) ==> final(state).source_branch@
                == branch@,
            r matches MergeStep::Preflight { target_branch, .. } ==> target_branch@ == old(
                state,
            ).target_branch@,
            r matches MergeStep::Insert(op) ==> {
                &&& op.source_branch@ == old(state).source_branch@
                &&& op.target_branch@ == old(state).target_branch@
                &&& op.merge_strategy@ == old(state).strategy@
                &&& op.thread_id@ == old(state).thread_id@ && op.id@ == old(state).op_id@
                &&& op.status@ == "queued"@ && op.queued_at == now
            },
            r matches MergeStep::CountQueued(branch) ==> branch@ == old(state).target_branch@,
            r matches MergeStep::Done(Ok(o)) ==> {
                &&& o.source_branch@ == old(state).source_branch@
                &&& o.target_branch@ == old(state).target_branch@
                &&& o.thread_id@ == old(state).thread_id@ && o.op_id@ == old(state).op_id@
            },
    {
        match reply {
            MergeReply::Begin => {
                let how: &str = state.strategy.as_str();
                if str_eq(how, "merge") || str_eq(how, "rebase") || str_eq(how, "squash") {
                    MergeStep::FindWorktree
                } else {
                    MergeStep::Done(Err(MergeError::InvalidStrategy(how.to_owned())))
                }
            },
            MergeReply::Worktree(found) => MergeStep::Preflight {
                target_branch: state.target_branch.clone(),
                repo_root: match found {
                    Ok(Some((_, root))) => root,
                    _ => default_workdir.to_owned(),
                },
            },
            MergeReply::Preflight(Ok(branch)) => {
                state.source_branch = branch;
                MergeStep::FindThread
            },
            MergeReply::Preflight(Err(e)) => MergeStep::Done(Err(MergeError::PreflightFailed(e))),
            MergeReply::Thread(found) => MergeStep::Insert(
                MergeOperation {
                    id: state.op_id.clone(),
                    thread_id: state.thread_id.clone(),
                    source_branch: state.source_branch.clone(),
                    target_branch: state.target_branch.clone(),
                    merge_strategy: state.strategy.clone(),
                    requested_by: state.requested_by.clone(),
                    status: "queued".to_owned(),
                    push_requested: false,
                    queued_at: now,
                    claimed_at: None,
                    started_at: None,
                    finished_at: None,
                    duration_ms: None,
                    result_summary: None,
                    error_detail: None,
                    conflict_files: None,
                    commit_message: match found {
                        Ok(Some(row)) => row.summary,
                        _ => None,
                    },
                },
            ),
            MergeReply::Inserted(Ok(_)) => MergeStep::CountQueued(state.target_branch.clone()),
            MergeReply::Inserted(Err(e)) => MergeStep::Done(
                Err(MergeError::StoreFailed(cat("failed to queue merge: ", e.as_str()))),
            ),
            MergeReply::Depth(depth) => MergeStep::Done(
                Ok(
                    QueueMergeOutcome {
                        op_id: state.op_id.clone(),
                        thread_id: state.thread_id.clone(),
                        source_branch: state.source_branch.clone(),
                        target_branch: state.target_branch.clone(),
                        strategy: state.strategy.clone(),
                        queue_depth: match depth {
                            Ok(d) => d,
                            Err(_) => 1,
                        },
                    },
                ),
            ),
        }
    }
}

// ── Laws ─────────────────────────────────────────────────────────────────────

/// Everything that may be answered while a merge is being queued.
pub struct MergeAnswers {
    pub worktree: Result<Option<(String, String)>, String>,
    pub preflight: Result<String, String>,
    pub thread: Result<Option<ThreadRow>, String>,
    pub inserted: Result<(), String>,
    pub depth: Result<i64, String>,
}

impl MergeAnswers {
    /// The answer to a step.
    pub open spec fn to(self, step: MergeStepView) -> MergeReply {
        match step {
            MergeStepView::FindWorktree => MergeReply::Worktree(self.worktree),
            MergeStepView::Preflight { .. } => MergeReply::Preflight(self.preflight),
            MergeStepView::FindThread => MergeReply::Thread(self.thread),
            MergeStepView::Insert(_) => MergeReply::Inserted(self.inserted),
            _ => MergeReply::Depth(self.depth),
        }
    }
}

/// How many steps may follow a step.
pub open spec fn merge_rank(step: MergeStepView) -> nat {
    match step {
        MergeStepView::FindWorktree => 5,
        MergeStepView::Preflight { .. } => 4,
        MergeStepView::FindThread => 3,
        MergeStepView::Insert(_) => 2,
        MergeStepView::CountQueued(_) => 1,
        _ => 0,
    }
}

/// The steps from `step` on, over a store and a preflight that answer `answers`.
pub open spec fn merge_trail(
    state: QueueingView,
    answers: MergeAnswers,
    default_workdir: Seq<char>,
    now: i64,
    step: MergeStepView,
) -> Seq<MergeStepView>
    decreases merge_rank(step),
{
    if merge_rank(step) == 0 {
        seq![step]
    } else {
        let reply = answers.to(step);
        let next = merge_state(state, reply);
        seq![step] + merge_trail(
            next,
            answers,
            default_workdir,
            now,
            merge_next(next, reply, default_workdir, now),
        )
    }
}

/// All steps of queueing a merge.
pub open spec fn merge_steps(
    state: QueueingView,
    answers: MergeAnswers,
    default_workdir: Seq<char>,
    now: i64,
) -> Seq<MergeStepView> {
    merge_trail(
        state,
        answers,
        default_workdir,
        now,
        merge_next(state, MergeReply::Begin, default_workdir, now),
    )
}

/// A merge of an unknown strategy is refused before anything is asked, and one
/// that the preflight refuses inserts nothing.
pub proof fn law_refused_merge_inserts_nothing(
    state: QueueingView,
    answers: MergeAnswers,
    default_workdir: Seq<char>,
    now: i64,
)
    requires
        !known_strategy(state.strategy) || answers.preflight is Err,
    ensures
        ({
            let steps = merge_steps(state, answers, default_workdir, now);
            &&& steps.last().refused()
            &&& forall|i: int| 0 <= i < steps.len() ==> !((#[trigger] steps[i]) is Insert)
            &&& !known_strategy(state.strategy) ==> steps == seq![
                MergeStepView::InvalidStrategy(state.strategy),
            ]
            &&& known_strategy(state.strategy) ==> (answers.preflight matches Err(e)
                && steps.last() == MergeStepView::PreflightFailed(e@))
        }),
{
    reveal_with_fuel(merge_trail, 4);
}

/// A merge that nothing stands against is inserted once, after the preflight,
/// with the branch that the preflight told and the summary of its thread. It is
/// queued if and only if that insertion succeeded.
pub proof fn law_merge_is_queued_once(
    state: QueueingView,
    answers: MergeAnswers,
    default_workdir: Seq<char>,
    now: i64,
)
    requires
        known_strategy(state.strategy),
        answers.preflight is Ok,
    ensures
        ({
            let steps = merge_steps(state, answers, default_workdir, now);
            let branch = answers.preflight->Ok_0@;
            let op = queued_op(
                QueueingView { source_branch: branch, ..state },
                answers.thread,
                now,
            );
            &&& steps.len() > 4
            &&& steps[0] == MergeStepView::FindWorktree
            &&& steps[1] is Preflight
            &&& steps[2] == MergeStepView::FindThread
            &&& steps[3] == MergeStepView::Insert(op)
            &&& forall|i: int| 4 <= i < steps.len() ==> !((#[trigger] steps[i]) is Insert)
            &&& steps.last() is Queued <==> answers.inserted is Ok
            &&& answers.inserted is Err ==> steps.last() is StoreFailed
            &&& steps.last() is Queued ==> steps.last()->source_branch == branch
                && steps.last()->op_id == state.op_id
        }),
{
    reveal_with_fuel(merge_trail, 7);
    let steps = merge_steps(state, answers, default_workdir, now);
    if answers.inserted is Ok {
        assert(steps.len() == 6);
    } else {
        assert(steps.len() == 5);
    }
}

/// Whatever is answered, every step of queueing a merge is about the branch, the
/// strategy and the thread that were asked for: the preflight is run for the
/// target branch, the operation merges the branch that the preflight told into
/// the target branch, the depth is counted for the target branch, and the outcome
/// names the same. The operation waits in the queue: it is queued now, neither
/// claimed, started nor finished, and carries the summary of its thread as its
/// commit message.
pub proof fn law_merge_is_what_was_asked(
    state: QueueingView,
    target_branch: Option<&str>,
    answers: MergeAnswers,
    default_workdir: Seq<char>,
    now: i64,
    i: int,
)
    requires
        0 <= i < merge_steps(state, answers, default_workdir, now).len(),
        state.target_branch == match target_branch {
            Some(t) => t@,
            None => "main"@,
        },
    ensures
        ({
            let steps = merge_steps(state, answers, default_workdir, now);
            let target = match target_branch {
                Some(t) => t@,
                None => "main"@,
            };
            &&& steps[i] matches MergeStepView::Preflight { target_branch: t, repo_root } ==> {
                &&& t == target
                &&& answers.worktree matches Ok(Some(w)) ==> repo_root == w.1@
                &&& !(answers.worktree matches Ok(Some(_))) ==> repo_root == default_workdir
            }
            &&& steps[i] matches MergeStepView::Insert(op) ==> {
                &&& op.target_branch == target
                &&& answers.preflight matches Ok(branch)
                &&& op.source_branch == branch@
                &&& op.id == state.op_id
                &&& op.thread_id == state.thread_id
                &&& op.merge_strategy == state.strategy
                &&& op.requested_by == state.requested_by
                &&& op.status == "queued"@
                &&& op.queued_at == now
                &&& op.claimed_at is None && op.started_at is None && op.finished_at is None
                &&& op.duration_ms is None && op.result_summary is None
                &&& op.error_detail is None && op.conflict_files is None
                &&& !op.push_requested
                &&& answers.thread matches Ok(Some(row)) ==> op.commit_message == text::opt_text(
                    row.summary,
                )
                &&& !(answers.thread matches Ok(Some(_))) ==> op.commit_message is None
            }
            &&& steps[i] matches MergeStepView::CountQueued(t) ==> t == target
            &&& steps[i] matches MergeStepView::Queued {
                op_id,
                thread_id,
                source_branch,
                target_branch: t,
                strategy,
                queue_depth,
            } ==> {
                &&& t == target
                &&& answers.preflight matches Ok(branch)
                &&& source_branch == branch@
                &&& op_id == state.op_id
                &&& thread_id == state.thread_id
                &&& strategy == state.strategy
                &&& answers.depth matches Ok(d) ==> queue_depth == d
                &&& answers.depth is Err ==> queue_depth == 1
            }
            &&& steps[i] is FindWorktree || steps[i] is Insert ==> (state.strategy == "merge"@
                || state.strategy == "rebase"@ || state.strategy == "squash"@)
        }),
{
    reveal_with_fuel(merge_trail, 7);
}

/// A strategy is accepted if and only if it is `merge`, `rebase` or `squash`; any
/// other is told back before anything is asked.
pub proof fn law_strategies(
    state: QueueingView,
    answers: MergeAnswers,
    default_workdir: Seq<char>,
    now: i64,
)
    ensures
        ({
            let steps = merge_steps(state, answers, default_workdir, now);
            let known = state.strategy == "merge"@ || state.strategy == "rebase"@ || state.strategy
                == "squash"@;
            &&& known <==> steps.len() > 1
            &&& known <==> steps[0] == MergeStepView::FindWorktree
            &&& !known <==> steps[0] == MergeStepView::InvalidStrategy(state.strategy)
        }),
{
    reveal_with_fuel(merge_trail, 3);
}

/// What an error of the merge queue says.
pub proof fn law_merge_errors_say_why(s: String)
    ensures
        merge_error_text(MergeError::InvalidStrategy(s)) == "invalid merge strategy '"@ + s@
            + "' — must be one of: merge, rebase, squash"@,
        merge_error_text(MergeError::PreflightFailed(s)) == "preflight failed: "@ + s@,
        merge_error_text(MergeError::StoreFailed(s)) == "store error: "@ + s@,
{
}

} // verus!
