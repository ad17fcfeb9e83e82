//! Thread state transitions.
//!
//! The rules stand here once, for every surface that closes, abandons or
//! reopens threads. They read what the store answered and say what to ask of
//! it next.
pub mod merge;

use crate::store::{unknown_status, ThreadRow, ThreadStatus};
use crate::store;
use crate::text::{cat, cat3};
use crate::text;
use vstd::prelude::*;

verus! {

/// Most threads of a batch that are abandoned at once.
pub const BATCH_LIMIT: i64 = 500;

/// Why a transition did not happen.
#[derive(Clone, Debug)]
pub enum LifecycleError {
    ThreadNotFound { thread_id: String },
    LookupFailed { message: String },
    InvalidTransition { message: String },
    StorageFailure { context: &'static str, message: String },
}

/// What an error says.
pub enum LifecycleErrorView {
    ThreadNotFound(Seq<char>),
    LookupFailed(Seq<char>),
    InvalidTransition(Seq<char>),
    StorageFailure(Seq<char>, Seq<char>),
}

impl LifecycleErrorView {
    /// The error as a sentence.
    pub open spec fn text(self) -> Seq<char> {
        match self {
            LifecycleErrorView::ThreadNotFound(id) => "thread not found: "@ + id,
            LifecycleErrorView::LookupFailed(m) => "lookup failed: "@ + m,
            LifecycleErrorView::InvalidTransition(m) => m,
            LifecycleErrorView::StorageFailure(c, m) => c + ": "@ + m,
        }
    }
}

impl View for LifecycleError {
    type V = LifecycleErrorView;

    open spec fn view(&self) -> LifecycleErrorView {
        match *self {
            LifecycleError::ThreadNotFound { thread_id } => {
                LifecycleErrorView::ThreadNotFound(thread_id@)
            },
            LifecycleError::LookupFailed { message } => LifecycleErrorView::LookupFailed(message@),
            LifecycleError::InvalidTransition { message } => {
                LifecycleErrorView::InvalidTransition(message@)
            },
            LifecycleError::StorageFailure { context, message } => {
                LifecycleErrorView::StorageFailure(context@, message@)
            },
        }
    }
}

impl LifecycleError {
    /// The error as a sentence.
    pub fn message(&self) -> (r: String)
        ensures
            r@ == self@.text(),
    {
        match self {
            LifecycleError::ThreadNotFound { thread_id } => {
                cat("thread not found: ", thread_id.as_str())
            },
            LifecycleError::LookupFailed { message } => cat("lookup failed: ", message.as_str()),
            LifecycleError::InvalidTransition { message } => message.clone(),
            LifecycleError::StorageFailure { context, message } => {
                cat3(context, ": ", message.as_str())
            },
        }
    }
}

/// How a thread is closed.
#[derive(Clone, Copy, Debug, PartialEq, Eq, Structural)]
pub enum CloseStatus {
    Completed,
    Failed,
}

/// A closed thread.
#[derive(Clone, Debug)]
pub struct CloseOutcome {
    pub thread_id: String,
    pub status: String,
}

/// An abandoned thread.
#[derive(Clone, Debug)]
pub struct AbandonOutcome {
    pub thread_id: String,
    pub status: String,
    pub executions_cancelled: u64,
    pub processes_killed: u64,
    pub worktree_branch: Option<String>,
}

/// What abandoning a batch came to.
#[derive(Clone, Debug)]
pub struct AbandonBatchOutcome {
    pub batch_id: String,
    pub threads_abandoned: u64,
    pub threads_already_terminal: u64,
    pub total_executions_cancelled: u64,
    pub total_processes_killed: u64,
    pub errors: Vec<String>,
}

/// A reopened thread.
#[derive(Clone, Debug)]
pub struct ReopenOutcome {
    pub thread_id: String,
    pub previous_status: String,
    pub new_status: String,
}

// ── Lookup ───────────────────────────────────────────────────────────────────

/// What a lookup of `thread_id` leaves when it found no thread.
pub open spec fn lookup_error(
    thread_id: Seq<char>,
    found: Result<Option<ThreadRow>, String>,
) -> Option<LifecycleErrorView> {
    match found {
        Ok(Some(_)) => None,
        Ok(None) => Some(LifecycleErrorView::ThreadNotFound(thread_id)),
        Err(e) => Some(LifecycleErrorView::LookupFailed(e@)),
    }
}

/// The thread that the lookup of `thread_id` found.
pub fn ensure_thread(thread_id: &str, found: Result<Option<ThreadRow>, String>) -> (r: Result<
    ThreadRow,
    LifecycleError,
>)
    ensures
        match r {
            Ok(row) => found == Ok::<_, String>(Some(row)),
            Err(e) => lookup_error(thread_id@, found) == Some(e@),
        },
{
    match found {
        Ok(Some(row)) => Ok(row),
        Ok(None) => Err(LifecycleError::ThreadNotFound { thread_id: thread_id.to_owned() }),
        Err(message) => Err(LifecycleError::LookupFailed { message }),
    }
}

// ── Close ────────────────────────────────────────────────────────────────────

/// A request to close a thread.
#[derive(Clone, Debug)]
pub struct CloseRequest {
    pub thread_id: String,
    pub from: String,
    pub status: CloseStatus,
    pub note: Option<String>,
}

/// What the store answered last.
#[derive(Debug)]
pub enum CloseReply {
    /// The lookup of the thread.
    Thread(Result<Option<ThreadRow>, String>),
    /// Whether the thread has a worktree.
    Worktree(Result<bool, String>),
    /// Whether a merge of the thread has completed.
    Merge(Result<bool, String>),
    /// The change of the thread's status.
    Updated(Result<(), String>),
    /// The insertion of the closing message, which may fail.
    Messaged(Result<(), String>),
}

/// What comes next in closing a thread.
#[derive(Debug)]
pub enum CloseStep {
    FindThread,
    FindWorktree,
    FindCompletedMerge,
    SetStatus(ThreadStatus),
    InsertMessage { from: String, to: String, intent: String, body: String },
    Done(Result<CloseOutcome, LifecycleError>),
}

/// What a step asks for.
pub enum CloseStepView {
    FindThread,
    FindWorktree,
    FindCompletedMerge,
    SetStatus(ThreadStatus),
    InsertMessage { from: Seq<char>, to: Seq<char>, intent: Seq<char>, body: Seq<char> },
    Closed { thread_id: Seq<char>, status: Seq<char> },
    Refused(LifecycleErrorView),
}

impl View for CloseStep {
    type V = CloseStepView;

    open spec fn view(&self) -> CloseStepView {
        match *self {
            CloseStep::FindThread => CloseStepView::FindThread,
            CloseStep::FindWorktree => CloseStepView::FindWorktree,
            CloseStep::FindCompletedMerge => CloseStepView::FindCompletedMerge,
            CloseStep::SetStatus(s) => CloseStepView::SetStatus(s),
            CloseStep::InsertMessage { from, to, intent, body } => CloseStepView::InsertMessage {
                from: from@,
                to: to@,
                intent: intent@,
                body: body@,
            },
            CloseStep::Done(Ok(o)) => CloseStepView::Closed {
                thread_id: o.thread_id@,
                status: o.status@,
            },
            CloseStep::Done(Err(e)) => CloseStepView::Refused(e@),
        }
    }
}

/// The status that a close leaves behind.
#[verifier::allow_in_spec]
pub fn closed_status(status: CloseStatus) -> ThreadStatus
    returns
        (match status {
            CloseStatus::Completed => ThreadStatus::Completed,
            CloseStatus::Failed => ThreadStatus::Failed,
        }),
{
    match status {
        CloseStatus::Completed => ThreadStatus::Completed,
        CloseStatus::Failed => ThreadStatus::Failed,
    }
}

/// The intent of the closing message.
pub open spec fn close_intent(status: CloseStatus) -> Seq<char> {
    match status {
        CloseStatus::Completed => "completion"@,
        CloseStatus::Failed => "failure"@,
    }
}

/// The body of the closing message: the note, or a default.
pub open spec fn close_body(request: CloseRequest) -> Seq<char> {
    match request.note {
        Some(note) => note@,
        None => match request.status {
            CloseStatus::Completed => "thread closed as completed"@,
            CloseStatus::Failed => "thread closed as failed"@,
        },
    }
}

/// Why a worktree thread without a completed merge cannot be completed.
pub open spec fn unmerged_text(thread_id: Seq<char>) -> Seq<char> {
    "thread '"@ + thread_id
        + "' is a worktree thread with no completed merge — call orch_merge first, then close after the merge completes"@
}

/// What follows each answer of the store. A completed close of a worktree
/// thread has to have a completed merge; a failed close has not.
pub open spec fn close_next(request: CloseRequest, reply: CloseReply) -> CloseStepView {
    let set = CloseStepView::SetStatus(closed_status(request.status));
    match reply {
        CloseReply::Thread(found) => match lookup_error(request.thread_id@, found) {
            Some(e) => CloseStepView::Refused(e),
            None => match request.status {
                CloseStatus::Completed => CloseStepView::FindWorktree,
                CloseStatus::Failed => set,
            },
        },
        CloseReply::Worktree(Ok(true)) => CloseStepView::FindCompletedMerge,
        CloseReply::Worktree(Ok(false)) => set,
        CloseReply::Worktree(Err(e)) => CloseStepView::Refused(
            LifecycleErrorView::StorageFailure("failed to check worktree info"@, e@),
        ),
        CloseReply::Merge(Ok(true)) => set,
        CloseReply::Merge(Ok(false)) => CloseStepView::Refused(
            LifecycleErrorView::InvalidTransition(unmerged_text(request.thread_id@)),
        ),
        CloseReply::Merge(Err(e)) => CloseStepView::Refused(
            LifecycleErrorView::StorageFailure("failed to check merge status"@, e@),
        ),
        CloseReply::Updated(Ok(_)) => CloseStepView::InsertMessage {
            from: request.from@,
            to: "operator"@,
            intent: close_intent(request.status),
            body: close_body(request),
        },
        CloseReply::Updated(Err(e)) => CloseStepView::Refused(
            LifecycleErrorView::StorageFailure("failed to close thread"@, e@),
        ),
        CloseReply::Messaged(_) => CloseStepView::Closed {
            thread_id: request.thread_id@,
            status: closed_status(request.status).text(),
        },
    }
}

// ── Abandon ──────────────────────────────────────────────────────────────────

/// A thread on its way to being abandoned.
#[derive(Clone, Debug)]
pub struct Abandoning {
    pub thread_id: String,
    /// Running executions and their processes, read before anything is
    /// cancelled.
    pub processes: Vec<(String, i64)>,
    pub cancelled: u64,
    pub killed: u64,
    pub has_worktree: bool,
}

/// What was answered last.
#[derive(Debug)]
pub enum AbandonReply {
    /// The lookup of the thread.
    Thread(Result<Option<ThreadRow>, String>),
    /// The running executions and their processes.
    Processes(Result<Vec<(String, i64)>, String>),
    /// How many executions were cancelled.
    Cancelled(Result<u64, String>),
    /// For each process, whether it was killed.
    Killed(Vec<bool>),
    /// Whether the thread has a worktree.
    Worktree(Result<bool, String>),
    /// The change of the thread's status.
    Updated(Result<(), String>),
}

/// What comes next in abandoning a thread.
#[derive(Debug)]
pub enum AbandonStep {
    FindThread,
    FindProcesses,
    CancelExecutions,
    /// Kill these processes, each on its own.
    KillProcesses(Vec<i64>),
    FindWorktree,
    SetStatus(ThreadStatus),
    Done(Result<AbandonOutcome, LifecycleError>),
}

/// How many of `flags` are set.
pub open spec fn set_count(flags: Seq<bool>) -> nat
    decreases flags.len(),
{
    if flags.len() == 0 {
        0
    } else {
        set_count(flags.drop_last()) + if flags.last() {
            1nat
        } else {
            0nat
        }
    }
}

/// How many of `flags` are set.
pub fn count_set(flags: &Vec<bool>) -> (r: u64)
    ensures
        r == set_count(flags@),
{
    let mut n: u64 = 0;
    let mut i: usize = 0;
    while i < flags.len()
        invariant
            i <= flags@.len(),
            n <= i,
            n == set_count(flags@.take(i as int)),
        decreases flags@.len() - i,
    {
        assert(flags@.take(i + 1).drop_last() =~= flags@.take(i as int));
        if flags[i] {
            n += 1;
        }
        i += 1;
    }
    assert(flags@.take(i as int) =~= flags@);
    n
}

/// The processes of running executions, in the order in which they were read.
pub open spec fn pids_of(processes: Seq<(String, i64)>) -> Seq<i64> {
    processes.map_values(|p: (String, i64)| p.1)
}

/// The processes of running executions.
fn process_ids(processes: &Vec<(String, i64)>) -> (r: Vec<i64>)
    ensures
        r@ == pids_of(processes@),
{
    let mut out: Vec<i64> = Vec::new();
    let mut i: usize = 0;
    while i < processes.len()
        invariant
            i <= processes@.len(),
            out@ == pids_of(processes@).take(i as int),
        decreases processes@.len() - i,
    {
        out.push(processes[i].1);
        assert(out@ =~= pids_of(processes@).take(i + 1));
        i += 1;
    }
    assert(pids_of(processes@).take(i as int) =~= pids_of(processes@));
    out
}

/// The branch of a thread's worktree.
pub open spec fn branch_of(thread_id: Seq<char>) -> Seq<char> {
    "compas/"@ + thread_id
}

/// What a step of abandoning asks for.
pub enum AbandonStepView {
    FindThread,
    FindProcesses,
    CancelExecutions,
    KillProcesses(Seq<i64>),
    FindWorktree,
    SetStatus(ThreadStatus),
    Abandoned {
        thread_id: Seq<char>,
        status: Seq<char>,
        executions_cancelled: u64,
        processes_killed: u64,
        worktree_branch: Option<Seq<char>>,
    },
    Refused(LifecycleErrorView),
}

/// The view of an outcome.
pub open spec fn abandoned(o: AbandonOutcome) -> AbandonStepView {
    AbandonStepView::Abandoned {
        thread_id: o.thread_id@,
        status: o.status@,
        executions_cancelled: o.executions_cancelled,
        processes_killed: o.processes_killed,
        worktree_branch: text::opt_text(o.worktree_branch),
    }
}

impl View for AbandonStep {
    type V = AbandonStepView;

    open spec fn view(&self) -> AbandonStepView {
        match *self {
            AbandonStep::FindThread => AbandonStepView::FindThread,
            AbandonStep::FindProcesses => AbandonStepView::FindProcesses,
            AbandonStep::CancelExecutions => AbandonStepView::CancelExecutions,
            AbandonStep::KillProcesses(pids) => AbandonStepView::KillProcesses(pids@),
            AbandonStep::FindWorktree => AbandonStepView::FindWorktree,
            AbandonStep::SetStatus(s) => AbandonStepView::SetStatus(s),
            AbandonStep::Done(Ok(o)) => abandoned(o),
            AbandonStep::Done(Err(e)) => AbandonStepView::Refused(e@),
        }
    }
}

/// What an answer leaves in the state. Failures to read the processes, to
/// cancel and to read the worktree count as nothing found.
pub open spec fn abandon_state(state: Abandoning, reply: AbandonReply) -> Abandoning {
    match reply {
        AbandonReply::Processes(Ok(processes)) => Abandoning { processes, ..state },
        AbandonReply::Cancelled(Ok(cancelled)) => Abandoning { cancelled, ..state },
        AbandonReply::Cancelled(Err(_)) => Abandoning { cancelled: 0, ..state },
        AbandonReply::Killed(flags) => Abandoning { killed: set_count(flags@) as u64, ..state },
        AbandonReply::Worktree(found) => Abandoning {
            has_worktree: found == Ok::<bool, String>(true),
            ..state
        },
        _ => state,
    }
}

/// What follows each answer, in the state that the answer left.
pub open spec fn abandon_next(state: Abandoning, reply: AbandonReply) -> AbandonStepView {
    match reply {
        AbandonReply::Thread(found) => match lookup_error(state.thread_id@, found) {
            Some(e) => AbandonStepView::Refused(e),
            None => AbandonStepView::FindProcesses,
        },
        AbandonReply::Processes(_) => AbandonStepView::CancelExecutions,
        AbandonReply::Cancelled(_) => AbandonStepView::KillProcesses(pids_of(state.processes@)),
        AbandonReply::Killed(_) => AbandonStepView::FindWorktree,
        AbandonReply::Worktree(_) => AbandonStepView::SetStatus(ThreadStatus::Abandoned),
        AbandonReply::Updated(Ok(_)) => AbandonStepView::Abandoned {
            thread_id: state.thread_id@,
            status: "Abandoned"@,
            executions_cancelled: state.cancelled,
            processes_killed: state.killed,
            worktree_branch: if state.has_worktree {
                Some(branch_of(state.thread_id@))
            } else {
                None
            },
        },
        AbandonReply::Updated(Err(e)) => AbandonStepView::Refused(
            LifecycleErrorView::StorageFailure("failed to abandon thread"@, e@),
        ),
    }
}

impl Abandoning {
    /// A thread to be abandoned; nothing is known of it yet.
    pub fn new(thread_id: &str) -> (r: Abandoning)
        ensures
            r.thread_id@ == thread_id@,
            r.processes@ == Seq::<(String, i64)>::empty(),
            r.cancelled == 0,
            r.killed == 0,
            !r.has_worktree,
    {
        Abandoning {
            thread_id: thread_id.to_owned(),
            processes: Vec::new(),
            cancelled: 0,
            killed: 0,
            has_worktree: false,
        }
    }
}

// ── Batches ──────────────────────────────────────────────────────────────────

/// What the totals of a batch are so far.
pub struct BatchTally {
    pub batch_id: Seq<char>,
    pub abandoned: u64,
    pub terminal: u64,
    pub cancelled: u64,
    pub killed: u64,
    pub errors: Seq<Seq<char>>,
}

impl View for AbandonBatchOutcome {
    type V = BatchTally;

    open spec fn view(&self) -> BatchTally {
        BatchTally {
            batch_id: self.batch_id@,
            abandoned: self.threads_abandoned,
            terminal: self.threads_already_terminal,
            cancelled: self.total_executions_cancelled,
            killed: self.total_processes_killed,
            errors: text::texts(self.errors@),
        }
    }
}

/// A sum that stays at the largest number instead of wrapping round.
pub open spec fn plus(a: u64, b: u64) -> u64 {
    if a + b > u64::MAX {
        u64::MAX
    } else {
        (a + b) as u64
    }
}

fn saturating(a: u64, b: u64) -> (r: u64)
    ensures
        r == plus(a, b),
{
    if a > u64::MAX - b {
        u64::MAX
    } else {
        a + b
    }
}

/// What is noted of a thread whose status cannot be read.
pub open spec fn unreadable_text(thread: ThreadRow) -> Seq<char> {
    thread.thread_id@ + ": unrecognized status '"@ + thread.status@ + "': "@ + store::unknown_status_text(
        thread.status@,
    )
}

/// Whether a thread of a batch has to be abandoned: its status can be read and
/// is not terminal.
pub open spec fn to_abandon(thread: ThreadRow) -> bool {
    ThreadStatus::parsed(thread.status@) == Some(ThreadStatus::Active)
}

/// The totals after a thread that is not abandoned: it has ended, or its status
/// cannot be read.
pub open spec fn batch_skip(t: BatchTally, thread: ThreadRow) -> BatchTally {
    match ThreadStatus::parsed(thread.status@) {
        None => BatchTally { errors: t.errors.push(unreadable_text(thread)), ..t },
        Some(_) => BatchTally { terminal: plus(t.terminal, 1), ..t },
    }
}

/// The totals after one more thread. `result` is what abandoning it came to,
/// and is read only where the thread has to be abandoned.
pub open spec fn batch_step(
    t: BatchTally,
    thread: ThreadRow,
    result: Result<AbandonOutcome, LifecycleError>,
) -> BatchTally {
    if !to_abandon(thread) {
        batch_skip(t, thread)
    } else {
        match result {
            Ok(o) => BatchTally {
                abandoned: plus(t.abandoned, 1),
                cancelled: plus(t.cancelled, o.executions_cancelled),
                killed: plus(t.killed, o.processes_killed),
                ..t
            },
            Err(e) => BatchTally {
                errors: t.errors.push(thread.thread_id@ + ": "@ + e@.text()),
                ..t
            },
        }
    }
}

/// The totals of a batch whose threads are `threads`; `results[i]` is what
/// abandoning the `i`th came to.
pub open spec fn batch_run(
    batch_id: Seq<char>,
    threads: Seq<ThreadRow>,
    results: Seq<Result<AbandonOutcome, LifecycleError>>,
) -> BatchTally
    decreases threads.len(),
{
    if threads.len() == 0 {
        BatchTally {
            batch_id,
            abandoned: 0,
            terminal: 0,
            cancelled: 0,
            killed: 0,
            errors: Seq::empty(),
        }
    } else {
        batch_step(
            batch_run(batch_id, threads.drop_last(), results),
            threads.last(),
            results[threads.len() - 1],
        )
    }
}

/// Every thread of a batch is counted once: as abandoned, as terminal already,
/// or with an error.
pub proof fn law_batch_counts_every_thread(
    batch_id: Seq<char>,
    threads: Seq<ThreadRow>,
    results: Seq<Result<AbandonOutcome, LifecycleError>>,
)
    requires
        threads.len() <= u64::MAX,
    ensures
        ({
            let t = batch_run(batch_id, threads, results);
            &&& t.batch_id == batch_id
            &&& t.abandoned + t.terminal + t.errors.len() == threads.len()
        }),
    decreases threads.len(),
{
    if threads.len() > 0 {
        law_batch_counts_every_thread(batch_id, threads.drop_last(), results);
    }
}

/// The threads of a batch, abandoned one after the other.
#[derive(Clone, Debug)]
pub struct BatchAbandoning {
    pub threads: Vec<ThreadRow>,
    /// The thread to abandon now; behind the last one when all are done.
    pub at: usize,
    pub outcome: AbandonBatchOutcome,
}

/// The same, as plain values.
pub struct BatchAbandoningView {
    pub threads: Seq<ThreadRow>,
    pub at: nat,
    pub tally: BatchTally,
}

impl View for BatchAbandoning {
    type V = BatchAbandoningView;

    open spec fn view(&self) -> BatchAbandoningView {
        BatchAbandoningView {
            threads: self.threads@,
            at: self.at as nat,
            tally: self.outcome@,
        }
    }
}

/// The batch with every thread passed over that stands before the next one to
/// abandon.
pub open spec fn passed(b: BatchAbandoningView) -> BatchAbandoningView
    decreases b.threads.len() - b.at,
{
    if b.at < b.threads.len() && !to_abandon(b.threads[b.at as int]) {
        passed(
            BatchAbandoningView {
                threads: b.threads,
                at: b.at + 1,
                tally: batch_skip(b.tally, b.threads[b.at as int]),
            },
        )
    } else {
        b
    }
}

/// A batch of which no thread has been abandoned.
pub open spec fn batch_begun(batch_id: Seq<char>, threads: Seq<ThreadRow>) -> BatchAbandoningView {
    passed(
        BatchAbandoningView {
            threads,
            at: 0,
            tally: batch_run(batch_id, Seq::empty(), Seq::empty()),
        },
    )
}

/// A batch after what abandoning its current thread came to. It goes on to the
/// next thread whether that succeeded or not.
pub open spec fn batch_recorded(
    b: BatchAbandoningView,
    result: Result<AbandonOutcome, LifecycleError>,
) -> BatchAbandoningView {
    if b.at < b.threads.len() {
        passed(
            BatchAbandoningView {
                threads: b.threads,
                at: b.at + 1,
                tally: batch_step(b.tally, b.threads[b.at as int], result),
            },
        )
    } else {
        b
    }
}

/// The positions of the threads that are abandoned, in order; `answers[i]` is
/// what abandoning the `i`th thread comes to.
pub open spec fn batch_trail(
    b: BatchAbandoningView,
    answers: Seq<Result<AbandonOutcome, LifecycleError>>,
) -> Seq<int>
    decreases b.threads.len() - b.at,
{
    if b.at < b.threads.len() {
        proof {
            lemma_passed(
                BatchAbandoningView {
                    threads: b.threads,
                    at: b.at + 1,
                    tally: batch_step(
                        b.tally,
                        b.threads[b.at as int],
                        answers[b.at as int],
                    ),
                },
                answers,
            );
        }
        seq![b.at as int] + batch_trail(batch_recorded(b, answers[b.at as int]), answers)
    } else {
        seq![]
    }
}

/// The totals with which a batch ends.
pub open spec fn batch_end(
    b: BatchAbandoningView,
    answers: Seq<Result<AbandonOutcome, LifecycleError>>,
) -> BatchTally
    decreases b.threads.len() - b.at,
{
    if b.at < b.threads.len() {
        proof {
            lemma_passed(
                BatchAbandoningView {
                    threads: b.threads,
                    at: b.at + 1,
                    tally: batch_step(
                        b.tally,
                        b.threads[b.at as int],
                        answers[b.at as int],
                    ),
                },
                answers,
            );
        }
        batch_end(batch_recorded(b, answers[b.at as int]), answers)
    } else {
        b.tally
    }
}

/// Passing over threads goes on to the next one to abandon, and counts those
/// before it.
pub proof fn lemma_passed(
    b: BatchAbandoningView,
    answers: Seq<Result<AbandonOutcome, LifecycleError>>,
)
    ensures
        passed(b).threads == b.threads,
        passed(b).at >= b.at,
        b.at <= b.threads.len() ==> passed(b).at <= b.threads.len(),
        passed(b).at < b.threads.len() ==> to_abandon(b.threads[passed(b).at as int]),
        forall|i: int|
            b.at <= i < passed(b).at ==> i < b.threads.len() && !to_abandon(
                #[trigger] b.threads[i],
            ),
        b.at <= b.threads.len() && b.tally == batch_run(
            b.tally.batch_id,
            b.threads.take(b.at as int),
            answers,
        ) ==> passed(b).tally == batch_run(
            b.tally.batch_id,
            b.threads.take(passed(b).at as int),
            answers,
        ),
        passed(b).tally.batch_id == b.tally.batch_id,
    decreases b.threads.len() - b.at,
{
    if b.at < b.threads.len() && !to_abandon(b.threads[b.at as int]) {
        let thread = b.threads[b.at as int];
        let next = BatchAbandoningView {
            threads: b.threads,
            at: b.at + 1,
            tally: batch_skip(b.tally, thread),
        };
        assert(b.threads.take(b.at as int + 1).drop_last() =~= b.threads.take(b.at as int));
        assert(b.threads.take(b.at as int + 1).last() == thread);
        lemma_passed(next, answers);
    }
}

proof fn lemma_batch_trail(
    b: BatchAbandoningView,
    answers: Seq<Result<AbandonOutcome, LifecycleError>>,
    from: nat,
)
    requires
        from <= b.at <= b.threads.len(),
        b.at < b.threads.len() ==> to_abandon(b.threads[b.at as int]),
        forall|i: int| from <= i < b.at ==> !to_abandon(#[trigger] b.threads[i]),
        b.tally == batch_run(b.tally.batch_id, b.threads.take(b.at as int), answers),
    ensures
        batch_end(b, answers) == batch_run(b.tally.batch_id, b.threads, answers),
        forall|i: int|
            #![trigger batch_trail(b, answers).contains(i)]
            batch_trail(b, answers).contains(i) <==> from <= i < b.threads.len() && to_abandon(
                b.threads[i],
            ),
        forall|j: int, k: int|
            0 <= j < k < batch_trail(b, answers).len() ==> (#[trigger] batch_trail(b, answers)[j])
                < (#[trigger] batch_trail(b, answers)[k]),
    decreases b.threads.len() - b.at,
{
    let threads = b.threads;
    let trail = batch_trail(b, answers);
    if b.at < threads.len() {
        let thread = threads[b.at as int];
        let step = BatchAbandoningView {
            threads,
            at: b.at + 1,
            tally: batch_step(b.tally, thread, answers[b.at as int]),
        };
        let next = batch_recorded(b, answers[b.at as int]);
        let rest = batch_trail(next, answers);
        assert(threads.take(b.at as int + 1).drop_last() =~= threads.take(b.at as int));
        assert(threads.take(b.at as int + 1).last() == thread);
        lemma_passed(step, answers);
        lemma_batch_trail(next, answers, b.at + 1);
        assert(trail =~= seq![b.at as int] + rest);
        assert forall|i: int|
            #![trigger trail.contains(i)]
            trail.contains(i) <==> from <= i < threads.len() && to_abandon(threads[i]) by {
            if trail.contains(i) {
                let k = choose|k: int| 0 <= k < trail.len() && trail[k] == i;
                if k > 0 {
                    assert(rest[k - 1] == i);
                    assert(rest.contains(i));
                }
            }
            if from <= i < threads.len() && to_abandon(threads[i]) {
                if i == b.at {
                    assert(trail[0] == i);
                } else {
                    assert(rest.contains(i));
                    let k = choose|k: int| 0 <= k < rest.len() && rest[k] == i;
                    assert(trail[k + 1] == i);
                }
            }
        }
        assert forall|j: int, k: int| 0 <= j < k < trail.len() implies (#[trigger] trail[j]) < (
        #[trigger] trail[k]) by {
            assert(trail[k] == rest[k - 1]);
            assert(rest.contains(rest[k - 1]));
            if j > 0 {
                assert(trail[j] == rest[j - 1]);
            }
        }
    } else {
        assert(threads.take(b.at as int) =~= threads);
        assert(trail =~= Seq::<int>::empty());
    }
}

/// Abandoning a batch asks for exactly its active threads, each once and in the
/// order of the list, also after one of them failed, and ends with the totals
/// over all threads.
pub proof fn law_batch_asks_for_active_threads(
    batch_id: Seq<char>,
    threads: Seq<ThreadRow>,
    answers: Seq<Result<AbandonOutcome, LifecycleError>>,
)
    ensures
        forall|i: int|
            #![trigger batch_trail(batch_begun(batch_id, threads), answers).contains(i)]
            batch_trail(batch_begun(batch_id, threads), answers).contains(i) <==> 0 <= i
                < threads.len() && to_abandon(threads[i]),
        forall|j: int, k: int|
            0 <= j < k < batch_trail(batch_begun(batch_id, threads), answers).len() ==> (
            #[trigger] batch_trail(batch_begun(batch_id, threads), answers)[j]) < (
            #[trigger] batch_trail(batch_begun(batch_id, threads), answers)[k]),
        batch_end(batch_begun(batch_id, threads), answers) == batch_run(
            batch_id,
            threads,
            answers,
        ),
{
    let start = BatchAbandoningView {
        threads,
        at: 0,
        tally: batch_run(batch_id, Seq::empty(), Seq::empty()),
    };
    assert(threads.take(0) =~= Seq::<ThreadRow>::empty());
    lemma_passed(start, answers);
    lemma_batch_trail(batch_begun(batch_id, threads), answers, 0);
}

// ── Reopen ───────────────────────────────────────────────────────────────────

/// Why a thread that is still open cannot be reopened.
pub open spec fn still_open_text(thread_id: Seq<char>, status: Seq<char>) -> Seq<char> {
    "thread "@ + thread_id + " is already "@ + status
        + " — only terminal threads can be reopened"@
}

/// What stands against reopening the thread that a lookup found: nothing, if
/// its status is terminal.
pub open spec fn reopen_error(
    thread_id: Seq<char>,
    found: Result<Option<ThreadRow>, String>,
) -> Option<LifecycleErrorView> {
    match found {
        Ok(Some(row)) => match ThreadStatus::parsed(row.status@) {
            None => Some(
                LifecycleErrorView::InvalidTransition(store::unknown_status_text(row.status@)),
            ),
            Some(s) => if s.terminal() {
                None
            } else {
                Some(
                    LifecycleErrorView::InvalidTransition(still_open_text(thread_id, row.status@)),
                )
            },
        },
        _ => lookup_error(thread_id, found),
    }
}

/// A thread on its way to being reopened.
#[derive(Clone, Debug)]
pub struct Reopening {
    pub thread_id: String,
    /// The status that the thread is reopened from, once it is known.
    pub previous: String,
}

/// What was answered last.
#[derive(Debug)]
pub enum ReopenReply {
    /// The lookup of the thread.
    Thread(Result<Option<ThreadRow>, String>),
    /// Whether the status was changed.
    Updated(Result<(), String>),
}

/// What to do next.
#[derive(Debug)]
pub enum ReopenStep {
    FindThread,
    SetStatus(ThreadStatus),
    Done(Result<ReopenOutcome, LifecycleError>),
}

/// What a step says.
pub enum ReopenStepView {
    FindThread,
    SetStatus(ThreadStatus),
    Reopened { thread_id: Seq<char>, previous_status: Seq<char>, new_status: Seq<char> },
    Refused(LifecycleErrorView),
}

impl View for ReopenStep {
    type V = ReopenStepView;

    open spec fn view(&self) -> ReopenStepView {
        match *self {
            ReopenStep::FindThread => ReopenStepView::FindThread,
            ReopenStep::SetStatus(s) => ReopenStepView::SetStatus(s),
            ReopenStep::Done(Ok(o)) => ReopenStepView::Reopened {
                thread_id: o.thread_id@,
                previous_status: o.previous_status@,
                new_status: o.new_status@,
            },
            ReopenStep::Done(Err(e)) => ReopenStepView::Refused(e@),
        }
    }
}

/// What an answer leaves in the state: the status of a thread that can be
/// reopened.
pub open spec fn reopen_state(state: Reopening, reply: ReopenReply) -> Reopening {
    match reply {
        ReopenReply::Thread(Ok(Some(row))) => if reopen_error(
            state.thread_id@,
            Ok(Some(row)),
        ) is None {
            Reopening { previous: row.status, ..state }
        } else {
            state
        },
        _ => state,
    }
}

/// What follows each answer, in the state that the answer left.
pub open spec fn reopen_next(state: Reopening, reply: ReopenReply) -> ReopenStepView {
    match reply {
        ReopenReply::Thread(found) => match reopen_error(state.thread_id@, found) {
            Some(e) => ReopenStepView::Refused(e),
            None => ReopenStepView::SetStatus(ThreadStatus::Active),
        },
        ReopenReply::Updated(Ok(_)) => ReopenStepView::Reopened {
            thread_id: state.thread_id@,
            previous_status: state.previous@,
            new_status: ThreadStatus::Active.text(),
        },
        ReopenReply::Updated(Err(e)) => ReopenStepView::Refused(
            LifecycleErrorView::StorageFailure("failed to reopen thread"@, e@),
        ),
    }
}

impl Reopening {
    /// A thread to be reopened; nothing is known of it yet.
    pub fn new(thread_id: &str) -> (r: Reopening)
        ensures
            r.thread_id@ == thread_id@,
            r.previous@ == Seq::<char>::empty(),
    {
        Reopening { thread_id: thread_id.to_owned(), previous: String::new() }
    }
}

// ── The service ──────────────────────────────────────────────────────────────

/// The lifecycle rules, for every surface that drives them over a store.
#[derive(Clone, Copy, Debug)]
pub struct LifecycleService {}

impl LifecycleService {
    /// The lifecycle rules; they hold no state of their own.
    pub fn new() -> (r: LifecycleService)
        ensures
            r == (LifecycleService {  }),
    {
        LifecycleService {  }
    }

    /// The next step in closing a thread. Closing starts with
    /// `CloseStep::FindThread`.
    pub fn close(&self, request: &CloseRequest, reply: CloseReply) -> (r: CloseStep)
        ensures
            r@ == close_next(*request, reply),
            r matches CloseStep::SetStatus(s) ==> s == (match request.status {
                CloseStatus::Completed => ThreadStatus::Completed,
                CloseStatus::Failed => ThreadStatus::Failed,
            }),
            r matches CloseStep::InsertMessage { from, to, intent, body } ==> {
                &&& from@ == request.from@ && to@ == "operator"@
                &&& request.status == CloseStatus::Completed ==> intent@ == "completion"@
                &&& request.status == CloseStatus::Failed ==> intent@ == "failure"@
                &&& request.note matches Some(note) ==> body@ == note@
            },
            r matches CloseStep::Done(Ok(o)) ==> {
                &&& o.thread_id@ == request.thread_id@
                &&& request.status == CloseStatus::Completed ==> o.status@ == "Completed"@
                &&& request.status == CloseStatus::Failed ==> o.status@ == "Failed"@
            },
    {
        match reply {
            CloseReply::Thread(found) => match ensure_thread(request.thread_id.as_str(), found) {
                Err(e) => CloseStep::Done(Err(e)),
                Ok(_) => match request.status {
                    CloseStatus::Completed => CloseStep::FindWorktree,
                    CloseStatus::Failed => CloseStep::SetStatus(closed_status(request.status)),
                },
            },
            CloseReply::Worktree(Ok(found)) => if found {
                CloseStep::FindCompletedMerge
            } else {
                CloseStep::SetStatus(closed_status(request.status))
            },
            CloseReply::Worktree(Err(message)) => CloseStep::Done(
                Err(
                    LifecycleError::StorageFailure {
                        context: "failed to check worktree info",
                        message,
                    },
                ),
            ),
            CloseReply::Merge(Ok(merged)) => if merged {
                CloseStep::SetStatus(closed_status(request.status))
            } else {
                CloseStep::Done(
                    Err(
                        LifecycleError::InvalidTransition {
                            message: cat3(
                                "thread '",
                                request.thread_id.as_str(),
                                "' is a worktree thread with no completed merge — call orch_merge first, then close after the merge completes",
                            ),
                        },
                    ),
                )
            },
            CloseReply::Merge(Err(message)) => CloseStep::Done(
                Err(
                    LifecycleError::StorageFailure {
                        context: "failed to check merge status",
                        message,
                    },
                ),
            ),
            CloseReply::Updated(Ok(_)) => {
                let intent: &str = match request.status {
                    CloseStatus::Completed => "completion",
                    CloseStatus::Failed => "failure",
                };
                let body: String = match &request.note {
                    Some(note) => note.clone(),
                    None => match request.status {
                        CloseStatus::Completed => "thread closed as completed".to_owned(),
                        CloseStatus::Failed => "thread closed as failed".to_owned(),
                    },
                };
                CloseStep::InsertMessage {
                    from: request.from.clone(),
                    to: "operator".to_owned(),
                    intent: intent.to_owned(),
                    body,
                }
            },
            CloseReply::Updated(Err(message)) => CloseStep::Done(
                Err(
                    LifecycleError::StorageFailure { context: "failed to close thread", message },
                ),
            ),
            CloseReply::Messaged(_) => CloseStep::Done(
                Ok(
                    CloseOutcome {
                        thread_id: request.thread_id.clone(),
                        status: closed_status(request.status).as_str().to_owned(),
                    },
                ),
            ),
        }
    }

    /// The next step in abandoning a thread. Abandoning starts with
    /// `AbandonStep::FindThread`.
    pub fn abandon(&self, state: &mut Abandoning, reply: AbandonReply) -> (r: AbandonStep)
        ensures
            *final(state) == abandon_state(*old(state), reply),
            r@ == abandon_next(*final(state), reply),
            r matches AbandonStep::SetStatus(s) ==> s == ThreadStatus::Abandoned,
            r matches AbandonStep::Done(Ok(o)) ==> {
                &&& o.thread_id@ == old(state).thread_id@ && o.status@ == "Abandoned"@
                &&& o.executions_cancelled == old(state).cancelled
                &&& o.processes_killed == old(state).killed
            },
    {
        match reply {
            AbandonReply::Thread(found) => match ensure_thread(state.thread_id.as_str(), found) {
                Err(e) => AbandonStep::Done(Err(e)),
                Ok(_) => AbandonStep::FindProcesses,
            },
            AbandonReply::Processes(found) => {
                match found {
                    Ok(processes) => {
                        state.processes = processes;
                    },
                    Err(_) => {},
                }
                AbandonStep::CancelExecutions
            },
            AbandonReply::Cancelled(done) => {
                state.cancelled = match done {
                    Ok(n) => n,
                    Err(_) => 0,
                };
                AbandonStep::KillProcesses(process_ids(&state.processes))
            },
            AbandonReply::Killed(flags) => {
                state.killed = count_set(&flags);
                AbandonStep::FindWorktree
            },
            AbandonReply::Worktree(found) => {
                state.has_worktree = match found {
                    Ok(b) => b,
                    Err(_) => false,
                };
                AbandonStep::SetStatus(ThreadStatus::Abandoned)
            },
            AbandonReply::Updated(Ok(_)) => AbandonStep::Done(
                Ok(
                    AbandonOutcome {
                        thread_id: state.thread_id.clone(),
                        status: "Abandoned".to_owned(),
                        executions_cancelled: state.cancelled,
                        processes_killed: state.killed,
                        worktree_branch: if state.has_worktree {
                            Some(cat("compas/", state.thread_id.as_str()))
                        } else {
                            None
                        },
                    },
                ),
            ),
            AbandonReply::Updated(Err(message)) => AbandonStep::Done(
                Err(
                    LifecycleError::StorageFailure { context: "failed to abandon thread", message },
                ),
            ),
        }
    }

    /// Starts to abandon the threads of a batch that were listed.
    pub fn abandon_batch(&self, batch_id: &str, listed: Result<Vec<ThreadRow>, String>) -> (r:
        Result<BatchAbandoning, LifecycleError>)
        ensures
            match listed {
                Ok(threads) => r matches Ok(b) && b@ == batch_begun(batch_id@, threads@),
                Err(m) => r matches Err(e) && e@ == LifecycleErrorView::LookupFailed(
                    "failed to list threads for batch '"@ + batch_id@ + "': "@ + m@,
                ),
            },
    {
        match listed {
            Err(m) => {
                let mut text: String = cat3("failed to list threads for batch '", batch_id, "': ");
                text.append(m.as_str());
                Err(LifecycleError::LookupFailed { message: text })
            },
            Ok(threads) => {
                let outcome: AbandonBatchOutcome = AbandonBatchOutcome {
                    batch_id: batch_id.to_owned(),
                    threads_abandoned: 0,
                    threads_already_terminal: 0,
                    total_executions_cancelled: 0,
                    total_processes_killed: 0,
                    errors: Vec::new(),
                };
                assert(outcome@.errors =~= Seq::<Seq<char>>::empty());
                let mut b: BatchAbandoning = BatchAbandoning { threads, at: 0, outcome };
                b.pass();
                Ok(b)
            },
        }
    }

    /// The next step in reopening a thread. Reopening starts with
    /// `ReopenStep::FindThread`.
    pub fn reopen(&self, state: &mut Reopening, reply: ReopenReply) -> (r: ReopenStep)
        ensures
            *final(state) == reopen_state(*old(state), reply),
            r@ == reopen_next(*final(state), reply),
            r matches ReopenStep::SetStatus(s) ==> s == ThreadStatus::Active,
            r matches ReopenStep::Done(Ok(o)) ==> {
                &&& o.thread_id@ == old(state).thread_id@
                &&& o.previous_status@ == old(state).previous@ && o.new_status@ == "Active"@
            },
    {
        match reply {
            ReopenReply::Thread(found) => {
                let row: ThreadRow = match ensure_thread(state.thread_id.as_str(), found) {
                    Ok(row) => row,
                    Err(e) => {
                        return ReopenStep::Done(Err(e));
                    },
                };
                match ThreadStatus::parse(row.status.as_str()) {
                    None => ReopenStep::Done(
                        Err(
                            LifecycleError::InvalidTransition {
                                message: unknown_status(row.status.as_str()),
                            },
                        ),
                    ),
                    Some(s) => if s.is_terminal() {
                        state.previous = row.status;
                        ReopenStep::SetStatus(ThreadStatus::Active)
                    } else {
                        let mut text: String = cat3(
                            "thread ",
                            state.thread_id.as_str(),
                            " is already ",
                        );
                        text.append(row.status.as_str());
                        text.append(" — only terminal threads can be reopened");
                        ReopenStep::Done(Err(LifecycleError::InvalidTransition { message: text }))
                    },
                }
            },
            ReopenReply::Updated(Ok(_)) => ReopenStep::Done(
                Ok(
                    ReopenOutcome {
                        thread_id: state.thread_id.clone(),
                        previous_status: state.previous.clone(),
                        new_status: "Active".to_owned(),
                    },
                ),
            ),
            ReopenReply::Updated(Err(message)) => ReopenStep::Done(
                Err(
                    LifecycleError::StorageFailure { context: "failed to reopen thread", message },
                ),
            ),
        }
    }
}

impl AbandonBatchOutcome {
    /// Counts a thread that is not abandoned.
    fn skip(&mut self, thread: &ThreadRow)
        ensures
            final(self)@ == batch_skip(old(self)@, *thread),
    {
        let ghost before = self@;
        match ThreadStatus::parse(thread.status.as_str()) {
            None => {
                let mut text: String = cat3(
                    thread.thread_id.as_str(),
                    ": unrecognized status '",
                    thread.status.as_str(),
                );
                text.append("': ");
                text.append(unknown_status(thread.status.as_str()).as_str());
                self.errors.push(text);
                assert(self@.errors =~= before.errors.push(unreadable_text(*thread)));
            },
            Some(_) => {
                self.threads_already_terminal = saturating(self.threads_already_terminal, 1);
            },
        }
    }

    /// Counts a thread that was to be abandoned, with what that came to.
    fn count(&mut self, thread: &ThreadRow, result: Result<AbandonOutcome, LifecycleError>)
        requires
            to_abandon(*thread),
        ensures
            final(self)@ == batch_step(old(self)@, *thread, result),
    {
        let ghost before = self@;
        match result {
            Ok(o) => {
                self.threads_abandoned = saturating(self.threads_abandoned, 1);
                self.total_executions_cancelled = saturating(
                    self.total_executions_cancelled,
                    o.executions_cancelled,
                );
                self.total_processes_killed = saturating(
                    self.total_processes_killed,
                    o.processes_killed,
                );
            },
            Err(e) => {
                let message: String = e.message();
                self.errors.push(cat3(thread.thread_id.as_str(), ": ", message.as_str()));
                assert(self@.errors =~= before.errors.push(
                    thread.thread_id@ + ": "@ + e@.text(),
                ));
            },
        }
    }
}

impl BatchAbandoning {
    /// Whether a thread of the batch has to be abandoned.
    fn takes(thread: &ThreadRow) -> (r: bool)
        ensures
            r == to_abandon(*thread),
    {
        match ThreadStatus::parse(thread.status.as_str()) {
            Some(s) => !s.is_terminal(),
            None => false,
        }
    }

    /// Goes on to the next thread to abandon, counting those before it.
    fn pass(&mut self)
        ensures
            final(self)@ == passed(old(self)@),
    {
        let ghost goal = passed(self@);
        while self.at < self.threads.len() && !BatchAbandoning::takes(&self.threads[self.at])
            invariant
                passed(self@) == goal,
            decreases self.threads@.len() - self.at,
        {
            self.outcome.skip(&self.threads[self.at]);
            self.at = self.at + 1;
        }
    }

    /// The thread to abandon now.
    pub fn pending(&self) -> (r: Option<&str>)
        ensures
            match r {
                Some(id) => self@.at < self@.threads.len() && id@
                    == self@.threads[self@.at as int].thread_id@,
                None => self@.at >= self@.threads.len(),
            },
    {
        if self.at < self.threads.len() {
            Some(self.threads[self.at].thread_id.as_str())
        } else {
            None
        }
    }

    /// Takes over what abandoning the current thread came to, and goes on.
    pub fn record(&mut self, result: Result<AbandonOutcome, LifecycleError>)
        ensures
            final(self)@ == batch_recorded(old(self)@, result),
    {
        if self.at < self.threads.len() {
            if BatchAbandoning::takes(&self.threads[self.at]) {
                self.outcome.count(&self.threads[self.at], result);
            } else {
                self.outcome.skip(&self.threads[self.at]);
            }
            self.at = self.at + 1;
            self.pass();
        }
    }
}

// ── Laws ─────────────────────────────────────────────────────────────────────

/// Everything that a store may answer while a thread is being closed.
pub struct CloseAnswers {
    pub thread: Result<Option<ThreadRow>, String>,
    pub worktree: Result<bool, String>,
    pub merge: Result<bool, String>,
    pub updated: Result<(), String>,
    pub messaged: Result<(), String>,
}

impl CloseAnswers {
    /// The answer to a step.
    pub open spec fn to(self, step: CloseStepView) -> CloseReply {
        match step {
            CloseStepView::FindThread => CloseReply::Thread(self.thread),
            CloseStepView::FindWorktree => CloseReply::Worktree(self.worktree),
            CloseStepView::FindCompletedMerge => CloseReply::Merge(self.merge),
            CloseStepView::SetStatus(_) => CloseReply::Updated(self.updated),
            _ => CloseReply::Messaged(self.messaged),
        }
    }
}

/// How many steps may follow a step.
pub open spec fn close_rank(step: CloseStepView) -> nat {
    match step {
        CloseStepView::FindThread => 5,
        CloseStepView::FindWorktree => 4,
        CloseStepView::FindCompletedMerge => 3,
        CloseStepView::SetStatus(_) => 2,
        CloseStepView::InsertMessage { .. } => 1,
        _ => 0,
    }
}

/// The steps from `step` on, over a store that answers `answers`.
pub open spec fn close_trail(
    request: CloseRequest,
    answers: CloseAnswers,
    step: CloseStepView,
) -> Seq<CloseStepView>
    decreases close_rank(step),
{
    if close_rank(step) == 0 {
        seq![step]
    } else {
        seq![step] + close_trail(request, answers, close_next(request, answers.to(step)))
    }
}

/// All steps of a close.
pub open spec fn close_steps(request: CloseRequest, answers: CloseAnswers) -> Seq<CloseStepView> {
    close_trail(request, answers, CloseStepView::FindThread)
}

/// The merge-before-close gate. Closing changes the status of a thread if and
/// only if the thread was found and, for a completed close, has no worktree or
/// has a completed merge. It ends with the thread closed if and only if that
/// change then succeeded; a message that could not be inserted does not undo it.
pub proof fn law_close_gate(request: CloseRequest, answers: CloseAnswers)
    ensures
        ({
            let steps = close_steps(request, answers);
            let open = answers.thread matches Ok(Some(_)) && (request.status == CloseStatus::Failed
                || answers.worktree == Ok::<bool, String>(false) || (answers.worktree == Ok::<
                bool,
                String,
            >(true) && answers.merge == Ok::<bool, String>(true)));
            &&& steps.contains(CloseStepView::SetStatus(closed_status(request.status))) <==> open
            &&& steps.last() is Closed <==> open && answers.updated is Ok
            &&& steps.last() is Closed || steps.last() is Refused
        }),
{
    reveal_with_fuel(close_trail, 7);
    let set = CloseStepView::SetStatus(closed_status(request.status));
    let steps = close_steps(request, answers);
    let s1 = close_next(request, answers.to(CloseStepView::FindThread));
    let open = answers.thread matches Ok(Some(_)) && (request.status == CloseStatus::Failed
        || answers.worktree == Ok::<bool, String>(false) || (answers.worktree == Ok::<bool, String>(
        true,
    ) && answers.merge == Ok::<bool, String>(true)));
    if open {
        if request.status == CloseStatus::Failed {
            assert(steps[1] == set);
        } else if answers.worktree == Ok::<bool, String>(false) {
            assert(steps[2] == set);
        } else {
            assert(steps[3] == set);
        }
    } else {
        assert forall|i: int| 0 <= i < steps.len() implies steps[i] != set by {
            assert(steps.len() <= 4);
        }
    }
}

/// A completed close of a worktree thread without a completed merge is refused,
/// and the refusal names the merge that is missing.
pub proof fn law_unmerged_worktree_refused(request: CloseRequest, answers: CloseAnswers)
    requires
        request.status == CloseStatus::Completed,
        answers.thread matches Ok(Some(_)),
        answers.worktree == Ok::<bool, String>(true),
        answers.merge == Ok::<bool, String>(false),
    ensures
        close_steps(request, answers).last() == CloseStepView::Refused(
            LifecycleErrorView::InvalidTransition(unmerged_text(request.thread_id@)),
        ),
{
    reveal_with_fuel(close_trail, 7);
}

/// Everything that may be answered while a thread is being abandoned.
pub struct AbandonAnswers {
    pub thread: Result<Option<ThreadRow>, String>,
    pub processes: Result<Vec<(String, i64)>, String>,
    pub cancelled: Result<u64, String>,
    pub killed: Vec<bool>,
    pub worktree: Result<bool, String>,
    pub updated: Result<(), String>,
}

impl AbandonAnswers {
    /// The answer to a step.
    pub open spec fn to(self, step: AbandonStepView) -> AbandonReply {
        match step {
            AbandonStepView::FindThread => AbandonReply::Thread(self.thread),
            AbandonStepView::FindProcesses => AbandonReply::Processes(self.processes),
            AbandonStepView::CancelExecutions => AbandonReply::Cancelled(self.cancelled),
            AbandonStepView::KillProcesses(_) => AbandonReply::Killed(self.killed),
            AbandonStepView::FindWorktree => AbandonReply::Worktree(self.worktree),
            _ => AbandonReply::Updated(self.updated),
        }
    }
}

/// How many steps may follow a step.
pub open spec fn abandon_rank(step: AbandonStepView) -> nat {
    match step {
        AbandonStepView::FindThread => 6,
        AbandonStepView::FindProcesses => 5,
        AbandonStepView::CancelExecutions => 4,
        AbandonStepView::KillProcesses(_) => 3,
        AbandonStepView::FindWorktree => 2,
        AbandonStepView::SetStatus(_) => 1,
        _ => 0,
    }
}

/// The steps from `step` on, over a store that answers `answers`.
pub open spec fn abandon_trail(
    state: Abandoning,
    answers: AbandonAnswers,
    step: AbandonStepView,
) -> Seq<AbandonStepView>
    decreases abandon_rank(step),
{
    if abandon_rank(step) == 0 {
        seq![step]
    } else {
        let reply = answers.to(step);
        let next = abandon_state(state, reply);
        seq![step] + abandon_trail(next, answers, abandon_next(next, reply))
    }
}

/// A thread that was found is abandoned in a fixed order: its processes are
/// read before its executions are cancelled, and exactly those are killed after
/// that; its status changes last. What is reported is what was cancelled and killed, and the
/// branch if there is a worktree. A thread that was not found is left alone.
pub proof fn law_abandon_order(state: Abandoning, answers: AbandonAnswers)
    ensures
        ({
            let steps = abandon_trail(state, answers, AbandonStepView::FindThread);
            let processes = match answers.processes {
                Ok(p) => p@,
                Err(_) => state.processes@,
            };
            let found = answers.thread matches Ok(Some(_));
            &&& found ==> steps.len() == 7 && steps.take(6) == seq![
                AbandonStepView::FindThread,
                AbandonStepView::FindProcesses,
                AbandonStepView::CancelExecutions,
                AbandonStepView::KillProcesses(pids_of(processes)),
                AbandonStepView::FindWorktree,
                AbandonStepView::SetStatus(ThreadStatus::Abandoned),
            ]
            &&& !found ==> steps.len() == 2 && steps[1] is Refused
            &&& found && answers.updated is Ok ==> steps.last() == AbandonStepView::Abandoned {
                thread_id: state.thread_id@,
                status: ThreadStatus::Abandoned.text(),
                executions_cancelled: match answers.cancelled {
                    Ok(n) => n,
                    Err(_) => 0,
                },
                processes_killed: set_count(answers.killed@) as u64,
                worktree_branch: if answers.worktree == Ok::<bool, String>(true) {
                    Some(branch_of(state.thread_id@))
                } else {
                    None
                },
            }
            &&& found && answers.updated is Err ==> steps.last() is Refused
        }),
{
    reveal_with_fuel(abandon_trail, 8);
    let steps = abandon_trail(state, answers, AbandonStepView::FindThread);
    let processes = match answers.processes {
        Ok(p) => p@,
        Err(_) => state.processes@,
    };
    if answers.thread matches Ok(Some(_)) {
        assert(steps.take(6) =~= seq![
            AbandonStepView::FindThread,
            AbandonStepView::FindProcesses,
            AbandonStepView::CancelExecutions,
            AbandonStepView::KillProcesses(pids_of(processes)),
            AbandonStepView::FindWorktree,
            AbandonStepView::SetStatus(ThreadStatus::Abandoned),
        ]);
    }
}

/// A thread can be reopened if and only if it exists and its status is
/// terminal.
pub proof fn law_reopen_iff_terminal(
    thread_id: Seq<char>,
    found: Result<Option<ThreadRow>, String>,
)
    ensures
        reopen_error(thread_id, found) is None <==> (found matches Ok(Some(row)) && (
        ThreadStatus::parsed(row.status@) matches Some(s) && s.terminal())),
{
}

/// Everything that a store may answer while a thread is being reopened.
pub struct ReopenAnswers {
    pub thread: Result<Option<ThreadRow>, String>,
    pub updated: Result<(), String>,
}

impl ReopenAnswers {
    /// The answer to a step.
    pub open spec fn to(self, step: ReopenStepView) -> ReopenReply {
        match step {
            ReopenStepView::FindThread => ReopenReply::Thread(self.thread),
            _ => ReopenReply::Updated(self.updated),
        }
    }
}

/// How many steps may follow a step.
pub open spec fn reopen_rank(step: ReopenStepView) -> nat {
    match step {
        ReopenStepView::FindThread => 2,
        ReopenStepView::SetStatus(_) => 1,
        _ => 0,
    }
}

/// The steps from `step` on, over a store that answers `answers`.
pub open spec fn reopen_trail(
    state: Reopening,
    answers: ReopenAnswers,
    step: ReopenStepView,
) -> Seq<ReopenStepView>
    decreases reopen_rank(step),
{
    if reopen_rank(step) == 0 {
        seq![step]
    } else {
        let reply = answers.to(step);
        let next = reopen_state(state, reply);
        seq![step] + reopen_trail(next, answers, reopen_next(next, reply))
    }
}

/// Reopening looks the thread up first. Where that thread can be reopened, the
/// status `Active` is written, and once it was, the status from before is told;
/// otherwise nothing is written.
pub proof fn law_reopen_writes_active(state: Reopening, answers: ReopenAnswers)
    ensures
        ({
            let steps = reopen_trail(state, answers, ReopenStepView::FindThread);
            match reopen_error(state.thread_id@, answers.thread) {
                Some(e) => steps == seq![ReopenStepView::FindThread, ReopenStepView::Refused(e)],
                None => answers.thread matches Ok(Some(row)) && steps == seq![
                    ReopenStepView::FindThread,
                    ReopenStepView::SetStatus(ThreadStatus::Active),
                    match answers.updated {
                        Ok(_) => ReopenStepView::Reopened {
                            thread_id: state.thread_id@,
                            previous_status: row.status@,
                            new_status: ThreadStatus::Active.text(),
                        },
                        Err(m) => ReopenStepView::Refused(
                            LifecycleErrorView::StorageFailure("failed to reopen thread"@, m@),
                        ),
                    },
                ],
            }
        }),
{
    reveal_with_fuel(reopen_trail, 4);
    let steps = reopen_trail(state, answers, ReopenStepView::FindThread);
    let s1 = reopen_next(
        reopen_state(state, ReopenReply::Thread(answers.thread)),
        ReopenReply::Thread(answers.thread),
    );
    match reopen_error(state.thread_id@, answers.thread) {
        Some(e) => {
            assert(s1 == ReopenStepView::Refused(e));
            assert(steps =~= seq![ReopenStepView::FindThread, s1]);
        },
        None => {
            assert(s1 == ReopenStepView::SetStatus(ThreadStatus::Active));
            assert(steps.len() == 3);
            assert(steps =~= seq![steps[0], steps[1], steps[2]]);
        },
    }
}

/// A closed or abandoned thread can be reopened, and a reopened one cannot.
pub proof fn law_transitions_alternate(thread_id: Seq<char>, row: ThreadRow, close: CloseStatus)
    ensures
        row.status@ == closed_status(close).text() ==> reopen_error(thread_id, Ok(Some(row))) is None,
        row.status@ == ThreadStatus::Abandoned.text() ==> reopen_error(thread_id, Ok(Some(row))) is None,
        row.status@ == ThreadStatus::Active.text() ==> reopen_error(thread_id, Ok(Some(row))) is Some,
{
    crate::store::law_status_round_trip(closed_status(close));
    crate::store::law_status_round_trip(ThreadStatus::Abandoned);
    crate::store::law_status_round_trip(ThreadStatus::Active);
}

/// Whatever is answered, a close writes the status that was asked for and then
/// leaves a message from the closer to the operator: a completion or a failure,
/// with the note or a default. A refusal tells what was in the way.
pub proof fn law_close_does_what_was_asked(request: CloseRequest, answers: CloseAnswers, i: int)
    requires
        0 <= i < close_steps(request, answers).len(),
    ensures
        ({
            let steps = close_steps(request, answers);
            let completed = request.status == CloseStatus::Completed;
            let found = answers.thread matches Ok(Some(_));
            &&& steps[0] is FindThread
            &&& steps[i] matches CloseStepView::SetStatus(s) ==> s == if completed {
                ThreadStatus::Completed
            } else {
                ThreadStatus::Failed
            }
            &&& steps[i] matches CloseStepView::InsertMessage { from, to, intent, body } ==> {
                &&& i > 0 && steps[i - 1] is SetStatus && answers.updated is Ok
                &&& from == request.from@
                &&& to == "operator"@
                &&& intent == if completed {
                    "completion"@
                } else {
                    "failure"@
                }
                &&& request.note matches Some(note) ==> body == note@
                &&& request.note is None && completed ==> body == "thread closed as completed"@
                &&& request.note is None && !completed ==> body == "thread closed as failed"@
            }
            &&& steps[i] matches CloseStepView::Closed { thread_id, status } ==> {
                &&& thread_id == request.thread_id@
                &&& completed ==> status == "Completed"@
                &&& !completed ==> status == "Failed"@
                &&& i > 0 && steps[i - 1] is InsertMessage
            }
            &&& steps[i] is FindWorktree || steps[i] is FindCompletedMerge ==> completed
            &&& steps[i] is FindCompletedMerge ==> answers.worktree == Ok::<bool, String>(true)
            &&& answers.thread matches Ok(None) ==> steps.last() == CloseStepView::Refused(
                LifecycleErrorView::ThreadNotFound(request.thread_id@),
            )
            &&& answers.thread matches Err(e) ==> steps.last() == CloseStepView::Refused(
                LifecycleErrorView::LookupFailed(e@),
            )
            &&& found && completed ==> (answers.worktree matches Err(e) ==> steps.last()
                == CloseStepView::Refused(
                LifecycleErrorView::StorageFailure("failed to check worktree info"@, e@),
            ))
            &&& found && completed && answers.worktree == Ok::<bool, String>(true) ==> (
            answers.merge matches Err(e) ==> steps.last() == CloseStepView::Refused(
                LifecycleErrorView::StorageFailure("failed to check merge status"@, e@),
            ))
            &&& found && !completed ==> (answers.updated matches Err(e) ==> steps.last()
                == CloseStepView::Refused(
                LifecycleErrorView::StorageFailure("failed to close thread"@, e@),
            ))
        }),
{
    reveal_with_fuel(close_trail, 7);
}

proof fn lemma_set_count(flags: Seq<bool>)
    ensures
        set_count(flags) == flags.filter(|b: bool| b).len(),
    decreases flags.len(),
{
    reveal(Seq::filter);
    if flags.len() > 0 {
        lemma_set_count(flags.drop_last());
    }
}

/// What abandoning a thread tells: the number of processes whose killing
/// succeeded, the number of executions that the store cancelled, and the branch
/// `compas/` and the thread if and only if the thread has a worktree. A thread
/// that is missing or cannot be looked up is told as such.
pub proof fn law_abandon_tells_what_happened(state: Abandoning, answers: AbandonAnswers)
    requires
        answers.killed@.len() <= u64::MAX,
    ensures
        ({
            let steps = abandon_trail(state, answers, AbandonStepView::FindThread);
            &&& steps.last() matches AbandonStepView::Abandoned {
                thread_id,
                status,
                executions_cancelled,
                processes_killed,
                worktree_branch,
            } ==> {
                &&& thread_id == state.thread_id@
                &&& status == "Abandoned"@
                &&& answers.cancelled matches Ok(n) ==> executions_cancelled == n
                &&& answers.cancelled is Err ==> executions_cancelled == 0
                &&& processes_killed == answers.killed@.filter(|b: bool| b).len()
                &&& answers.worktree == Ok::<bool, String>(true) ==> worktree_branch == Some(
                    "compas/"@ + state.thread_id@,
                )
                &&& answers.worktree != Ok::<bool, String>(true) ==> worktree_branch is None
            }
            &&& answers.thread matches Ok(None) ==> steps.last() == AbandonStepView::Refused(
                LifecycleErrorView::ThreadNotFound(state.thread_id@),
            )
            &&& answers.thread matches Err(e) ==> steps.last() == AbandonStepView::Refused(
                LifecycleErrorView::LookupFailed(e@),
            )
            &&& answers.thread matches Ok(Some(_)) ==> (answers.updated matches Err(e)
                ==> steps.last() == AbandonStepView::Refused(
                LifecycleErrorView::StorageFailure("failed to abandon thread"@, e@),
            ))
            &&& answers.thread matches Ok(Some(_)) ==> (answers.processes matches Ok(p)
                ==> steps[3] matches AbandonStepView::KillProcesses(pids) && pids.len()
                == p@.len() && forall|k: int| 0 <= k < pids.len() ==> #[trigger] pids[k] == p@[k].1)
        }),
{
    reveal_with_fuel(abandon_trail, 8);
    lemma_set_count(answers.killed@);
    let n = answers.killed@.filter(|b: bool| b).len();
    answers.killed@.filter_lemma(|b: bool| b);
    assert(n <= u64::MAX);
}

proof fn lemma_batch_id(
    batch_id: Seq<char>,
    threads: Seq<ThreadRow>,
    results: Seq<Result<AbandonOutcome, LifecycleError>>,
)
    ensures
        batch_run(batch_id, threads, results).batch_id == batch_id,
    decreases threads.len(),
{
    if threads.len() > 0 {
        lemma_batch_id(batch_id, threads.drop_last(), results);
    }
}

/// How the totals of a batch grow by one more thread: an active one adds what
/// abandoning it came to, or its error; an ended one is counted as such; one of
/// any other status adds an error that names it. Nothing else changes.
pub proof fn law_batch_adds_each_thread(
    batch_id: Seq<char>,
    threads: Seq<ThreadRow>,
    thread: ThreadRow,
    results: Seq<Result<AbandonOutcome, LifecycleError>>,
)
    ensures
        ({
            let before = batch_run(batch_id, threads, results);
            let after = batch_run(batch_id, threads.push(thread), results);
            let result = results[threads.len() as int];
            let status = thread.status@;
            let ended = status == "Completed"@ || status == "Failed"@ || status == "Abandoned"@;
            let abandoned = status == "Active"@ && result is Ok;
            let error = if status == "Active"@ {
                thread.thread_id@ + ": "@ + result->Err_0@.text()
            } else {
                thread.thread_id@ + ": unrecognized status '"@ + status
                    + "': unknown thread status: "@ + status
            };
            &&& after.batch_id == batch_id
            &&& abandoned ==> {
                &&& before.abandoned < u64::MAX ==> after.abandoned == before.abandoned + 1
                &&& before.cancelled + result->Ok_0.executions_cancelled <= u64::MAX
                    ==> after.cancelled == before.cancelled + result->Ok_0.executions_cancelled
                &&& before.killed + result->Ok_0.processes_killed <= u64::MAX ==> after.killed
                    == before.killed + result->Ok_0.processes_killed
            }
            &&& !abandoned ==> after.abandoned == before.abandoned && after.cancelled
                == before.cancelled && after.killed == before.killed
            &&& ended && before.terminal < u64::MAX ==> after.terminal == before.terminal + 1
            &&& !ended ==> after.terminal == before.terminal
            &&& abandoned || ended ==> after.errors == before.errors
            &&& !abandoned && !ended ==> after.errors == before.errors.push(error)
        }),
        ({
            let none = batch_run(batch_id, Seq::empty(), results);
            none.abandoned == 0 && none.terminal == 0 && none.cancelled == 0 && none.killed == 0
                && none.errors.len() == 0
        }),
{
    store::law_statuses(thread.status@);
    lemma_batch_id(batch_id, threads, results);
    let s = thread.status@;
    assert(threads.push(thread).drop_last() =~= threads);
    assert(threads.push(thread).last() == thread);
    reveal_strlit("': ");
    reveal_strlit("unknown thread status: ");
    reveal_strlit("': unknown thread status: ");
    assert(unreadable_text(thread) =~= thread.thread_id@ + ": unrecognized status '"@ + s
        + "': unknown thread status: "@ + s);
}

/// Abandoning a batch asks for the threads of status `Active` and for no others.
pub proof fn law_batch_asks_by_status(
    batch_id: Seq<char>,
    threads: Seq<ThreadRow>,
    answers: Seq<Result<AbandonOutcome, LifecycleError>>,
    i: int,
)
    ensures
        batch_trail(batch_begun(batch_id, threads), answers).contains(i) <==> 0 <= i
            < threads.len() && threads[i].status@ == "Active"@,
{
    law_batch_asks_for_active_threads(batch_id, threads, answers);
    if 0 <= i < threads.len() {
        store::law_statuses(threads[i].status@);
    }
}

/// Reopening writes `Active` to a thread of status `Completed`, `Failed` or
/// `Abandoned`, and to no other; it tells the status from before. What stands in
/// the way is told.
pub proof fn law_reopen_by_status(state: Reopening, answers: ReopenAnswers)
    ensures
        ({
            let steps = reopen_trail(state, answers, ReopenStepView::FindThread);
            let status = answers.thread->Ok_0->0.status@;
            let found = answers.thread is Ok && answers.thread->Ok_0 is Some;
            let ended = found && (status == "Completed"@ || status == "Failed"@ || status
                == "Abandoned"@);
            &&& ended ==> steps.len() == 3 && steps[1] == ReopenStepView::SetStatus(
                ThreadStatus::Active,
            )
            &&& ended && answers.updated is Ok ==> steps.last() == ReopenStepView::Reopened {
                thread_id: state.thread_id@,
                previous_status: status,
                new_status: "Active"@,
            }
            &&& ended ==> (answers.updated matches Err(e) ==> steps.last()
                == ReopenStepView::Refused(
                LifecycleErrorView::StorageFailure("failed to reopen thread"@, e@),
            ))
            &&& !ended ==> steps.len() == 2 && steps[1] is Refused
            &&& found && status == "Active"@ ==> steps[1] == ReopenStepView::Refused(
                LifecycleErrorView::InvalidTransition(
                    "thread "@ + state.thread_id@
                        + " is already Active — only terminal threads can be reopened"@,
                ),
            )
            &&& answers.thread matches Ok(None) ==> steps[1] == ReopenStepView::Refused(
                LifecycleErrorView::ThreadNotFound(state.thread_id@),
            )
            &&& answers.thread matches Err(e) ==> steps[1] == ReopenStepView::Refused(
                LifecycleErrorView::LookupFailed(e@),
            )
        }),
{
    law_reopen_writes_active(state, answers);
    if answers.thread is Ok && answers.thread->Ok_0 is Some {
        let row = answers.thread->Ok_0->0;
        store::law_statuses(row.status@);
        if row.status@ == "Active"@ {
            reveal_strlit("thread ");
            reveal_strlit(" is already ");
            reveal_strlit("Active");
            reveal_strlit(" — only terminal threads can be reopened");
            reveal_strlit(" is already Active — only terminal threads can be reopened");
            assert(still_open_text(state.thread_id@, row.status@) =~= "thread "@ + state.thread_id@
                + " is already Active — only terminal threads can be reopened"@);
        }
    }
}

// ── What a refusal says ──────────────────────────────────────────────────────

/// What an error says: which thread was not found, why a lookup failed, why a
/// change is not allowed, or what the store was asked for when it failed.
pub proof fn law_errors_say_what_happened(id: Seq<char>, m: Seq<char>, c: Seq<char>)
    ensures
        LifecycleErrorView::ThreadNotFound(id).text() == "thread not found: "@ + id,
        LifecycleErrorView::LookupFailed(m).text() == "lookup failed: "@ + m,
        LifecycleErrorView::InvalidTransition(m).text() == m,
        LifecycleErrorView::StorageFailure(c, m).text() == c + ": "@ + m,
        unmerged_text(id) == "thread '"@ + id
            + "' is a worktree thread with no completed merge — call orch_merge first, then close after the merge completes"@,
        still_open_text(id, m) == "thread "@ + id + " is already "@ + m
            + " — only terminal threads can be reopened"@,
{
}

/// A thread of a batch whose status cannot be read is told as an error.
pub proof fn law_unreadable_threads_are_told(thread: ThreadRow)
    ensures
        unreadable_text(thread) == thread.thread_id@ + ": unrecognized status '"@ + thread.status@
            + "': "@ + ("unknown thread status: "@ + thread.status@),
{
}

} // verus!
