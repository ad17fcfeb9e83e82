//! What an operator can do with the selected item, and what came of it.
use crate::dashboard::views::activity::OpsSelectable;
use crate::lifecycle::{
    AbandonOutcome, CloseOutcome, CloseRequest, CloseStatus, LifecycleError, ReopenOutcome,
};
use crate::lifecycle;
use crate::store::{MergeOperation, ThreadRow, ThreadStatus, ThreadStatusView};
use crate::text::{cat, cat3, chars_of, eq_ignore_case, join, str_eq, string_of, u64_text};
use crate::text;
use vstd::prelude::*;

verus! {

/// Seconds after which an action is given up.
pub const ACTION_TIMEOUT_SECS: u64 = 5;

// ── Types ────────────────────────────────────────────────────────────────────

/// Where the action menu stands.
#[derive(Clone, Debug)]
pub enum ActionState {
    /// No menu is shown.
    Idle,
    /// The menu is open for a target.
    Menu { target: ActionTarget, actions: Vec<ActionEntry> },
    /// An action waits for a yes or no.
    Confirming { action: PendingAction, description: String },
    /// What an action came to, for a moment. Times are in milliseconds.
    Feedback { message: String, is_error: bool, shown_at: u64 },
}

/// An entry of the action menu.
#[derive(Clone, Copy, Debug)]
pub struct ActionEntry {
    pub key: char,
    pub label: &'static str,
}

/// The item that an action is for.
#[derive(Clone, Debug)]
pub enum ActionTarget {
    Thread { thread_id: String, status: String, summary: Option<String>, has_worktree: bool },
    Batch { batch_id: String },
    MergeOp { op_id: String, status: String },
}

/// An action that is ready to be carried out.
#[derive(Clone, Debug)]
pub enum PendingAction {
    AbandonThread { thread_id: String },
    AbandonBatch { batch_id: String },
    CloseThread { thread_id: String, status: CloseStatus },
    ReopenThread { thread_id: String },
    CancelMerge { op_id: String },
    QueueMerge { thread_id: String },
}

/// What an action does.
pub enum PendingView {
    AbandonThread(Seq<char>),
    AbandonBatch(Seq<char>),
    CloseThread(Seq<char>, CloseStatus),
    ReopenThread(Seq<char>),
    CancelMerge(Seq<char>),
    QueueMerge(Seq<char>),
}

impl View for PendingAction {
    type V = PendingView;

    open spec fn view(&self) -> PendingView {
        match *self {
            PendingAction::AbandonThread { thread_id } => PendingView::AbandonThread(thread_id@),
            PendingAction::AbandonBatch { batch_id } => PendingView::AbandonBatch(batch_id@),
            PendingAction::CloseThread { thread_id, status } => PendingView::CloseThread(
                thread_id@,
                status,
            ),
            PendingAction::ReopenThread { thread_id } => PendingView::ReopenThread(thread_id@),
            PendingAction::CancelMerge { op_id } => PendingView::CancelMerge(op_id@),
            PendingAction::QueueMerge { thread_id } => PendingView::QueueMerge(thread_id@),
        }
    }
}

/// What an action came to.
#[derive(Clone, Debug)]
pub struct ActionResult {
    pub message: String,
    pub is_error: bool,
}

// ── Helpers ──────────────────────────────────────────────────────────────────

/// The first `max` characters of an id, with `…` when something was cut.
pub open spec fn short_id(id: Seq<char>, max: nat) -> Seq<char> {
    if id.len() <= max {
        id
    } else {
        id.take(max as int) + "…"@
    }
}

/// The first `max_len` characters of an id, with `…` when something was cut.
pub fn truncate_id(id: &str, max_len: usize) -> (r: String)
    ensures
        r@ == short_id(id@, max_len as nat),
{
    let v: Vec<char> = chars_of(id);
    if v.len() <= max_len {
        id.to_owned()
    } else {
        cat(string_of(&v, 0, max_len).as_str(), "…")
    }
}

/// Completed, failed or abandoned, in any letter case.
pub open spec fn terminal_status(status: Seq<char>) -> bool {
    text::same_ignoring_case(status, "completed"@) || text::same_ignoring_case(status, "failed"@)
        || text::same_ignoring_case(status, "abandoned"@)
}

/// Whether a thread status is terminal, in any letter case.
pub fn is_terminal_status(status: &str) -> (r: bool)
    ensures
        r == terminal_status(status@),
{
    eq_ignore_case(status, "completed") || eq_ignore_case(status, "failed") || eq_ignore_case(
        status,
        "abandoned",
    )
}

// ── Menu ─────────────────────────────────────────────────────────────────────

/// The entry with `key` and `label`.
#[verifier::allow_in_spec]
pub fn entry(key: char, label: &'static str) -> ActionEntry
    returns
        (ActionEntry { key, label }),
{
    ActionEntry { key, label }
}

/// The actions that a target offers.
pub open spec fn actions_for(target: ActionTarget) -> Seq<ActionEntry> {
    match target {
        ActionTarget::Thread { status, has_worktree, .. } => if terminal_status(status@) {
            seq![entry('r', "Reopen")]
        } else if has_worktree {
            seq![
                entry('a', "Abandon"),
                entry('c', "Close completed"),
                entry('f', "Close failed"),
                entry('m', "Queue merge"),
            ]
        } else {
            seq![entry('a', "Abandon"), entry('c', "Close completed"), entry('f', "Close failed")]
        },
        ActionTarget::Batch { .. } => seq![entry('a', "Abandon batch")],
        ActionTarget::MergeOp { status, .. } => if status@ == "queued"@ {
            seq![entry('x', "Cancel merge")]
        } else {
            seq![]
        },
    }
}

/// The actions that a target offers.
pub fn available_actions(target: &ActionTarget) -> (r: Vec<ActionEntry>)
    ensures
        r@ == actions_for(*target),
{
    let mut actions: Vec<ActionEntry> = Vec::new();
    match target {
        ActionTarget::Thread { status, has_worktree, .. } => {
            if is_terminal_status(status.as_str()) {
                actions.push(entry('r', "Reopen"));
            } else {
                actions.push(entry('a', "Abandon"));
                actions.push(entry('c', "Close completed"));
                actions.push(entry('f', "Close failed"));
                if *has_worktree {
                    actions.push(entry('m', "Queue merge"));
                }
            }
        },
        ActionTarget::Batch { .. } => {
            actions.push(entry('a', "Abandon batch"));
        },
        ActionTarget::MergeOp { status, .. } => {
            if str_eq(status.as_str(), "queued") {
                actions.push(entry('x', "Cancel merge"));
            }
        },
    }
    assert(actions@ =~= actions_for(*target));
    actions
}

/// The action behind a key.
pub open spec fn keyed_action(key: char, target: ActionTarget) -> Option<PendingView> {
    match target {
        ActionTarget::Thread { thread_id, status, has_worktree, .. } => if terminal_status(
            status@,
        ) {
            if key == 'r' {
                Some(PendingView::ReopenThread(thread_id@))
            } else {
                None
            }
        } else if key == 'a' {
            Some(PendingView::AbandonThread(thread_id@))
        } else if key == 'c' {
            Some(PendingView::CloseThread(thread_id@, CloseStatus::Completed))
        } else if key == 'f' {
            Some(PendingView::CloseThread(thread_id@, CloseStatus::Failed))
        } else if key == 'm' && has_worktree {
            Some(PendingView::QueueMerge(thread_id@))
        } else {
            None
        },
        ActionTarget::Batch { batch_id } => if key == 'a' {
            Some(PendingView::AbandonBatch(batch_id@))
        } else {
            None
        },
        ActionTarget::MergeOp { op_id, status } => if status@ == "queued"@ && key == 'x' {
            Some(PendingView::CancelMerge(op_id@))
        } else {
            None
        },
    }
}

/// The view of an optional action.
pub open spec fn pending_view(a: Option<PendingAction>) -> Option<PendingView> {
    match a {
        Some(p) => Some(p@),
        None => None,
    }
}

/// The action behind a key, if the target offers one.
pub fn action_for_key(key: char, target: &ActionTarget) -> (r: Option<PendingAction>)
    ensures
        pending_view(r) == keyed_action(key, *target),
{
    match target {
        ActionTarget::Thread { thread_id, status, has_worktree, .. } => {
            if is_terminal_status(status.as_str()) {
                if key == 'r' {
                    Some(PendingAction::ReopenThread { thread_id: thread_id.clone() })
                } else {
                    None
                }
            } else if key == 'a' {
                Some(PendingAction::AbandonThread { thread_id: thread_id.clone() })
            } else if key == 'c' {
                Some(
                    PendingAction::CloseThread {
                        thread_id: thread_id.clone(),
                        status: CloseStatus::Completed,
                    },
                )
            } else if key == 'f' {
                Some(
                    PendingAction::CloseThread {
                        thread_id: thread_id.clone(),
                        status: CloseStatus::Failed,
                    },
                )
            } else if key == 'm' && *has_worktree {
                Some(PendingAction::QueueMerge { thread_id: thread_id.clone() })
            } else {
                None
            }
        },
        ActionTarget::Batch { batch_id } => {
            if key == 'a' {
                Some(PendingAction::AbandonBatch { batch_id: batch_id.clone() })
            } else {
                None
            }
        },
        ActionTarget::MergeOp { op_id, status } => {
            if str_eq(status.as_str(), "queued") && key == 'x' {
                Some(PendingAction::CancelMerge { op_id: op_id.clone() })
            } else {
                None
            }
        },
    }
}

/// A key stands for an action if and only if the menu shows it, and no key
/// stands twice in the menu.
pub proof fn law_keys_are_the_menu(key: char, target: ActionTarget)
    ensures
        keyed_action(key, target) is Some <==> exists|i: int|
            0 <= i < actions_for(target).len() && (#[trigger] actions_for(target)[i]).key == key,
        forall|i: int, j: int|
            0 <= i < j < actions_for(target).len() ==> (#[trigger] actions_for(target)[i]).key != (
            #[trigger] actions_for(target)[j]).key,
{
    let m = actions_for(target);
    if keyed_action(key, target) is Some {
        if m[0].key == key {
        } else if m[1].key == key {
        } else if m[2].key == key {
        } else {
            assert(m[3].key == key);
        }
    }
}

/// A merge that has left the queue offers nothing.
pub proof fn law_only_queued_merges_cancelled(op_id: String, status: String, key: char)
    requires
        status@ != "queued"@,
    ensures
        actions_for(ActionTarget::MergeOp { op_id, status }).len() == 0,
        keyed_action(key, ActionTarget::MergeOp { op_id, status }) is None,
{
}

// ── Confirmation ─────────────────────────────────────────────────────────────

/// Whether an action waits for a yes or no. Only reopening does not.
pub fn needs_confirmation(action: &PendingAction) -> (r: bool)
    ensures
        r == !(action@ is ReopenThread),
{
    match action {
        PendingAction::ReopenThread { .. } => false,
        _ => true,
    }
}

/// `completed` or `failed`.
pub open spec fn close_label(status: CloseStatus) -> Seq<char> {
    match status {
        CloseStatus::Completed => "completed"@,
        CloseStatus::Failed => "failed"@,
    }
}

fn close_word(status: CloseStatus) -> (r: &'static str)
    ensures
        r@ == close_label(status),
{
    match status {
        CloseStatus::Completed => "completed",
        CloseStatus::Failed => "failed",
    }
}

/// The question that an action asks. Ids are cut to 12 characters.
pub open spec fn prompt_text(action: PendingView) -> Seq<char> {
    let asked = "? [y]es / [n]o"@;
    match action {
        PendingView::AbandonThread(id) => "Abandon thread "@ + short_id(id, 12) + asked,
        PendingView::AbandonBatch(id) => "Abandon batch "@ + short_id(id, 12) + asked,
        PendingView::CloseThread(id, status) => "Close thread "@ + short_id(id, 12) + " as "@
            + close_label(status) + asked,
        PendingView::ReopenThread(id) => "Reopen thread "@ + short_id(id, 12) + asked,
        PendingView::CancelMerge(id) => "Cancel merge op "@ + short_id(id, 12) + asked,
        PendingView::QueueMerge(id) => "Queue merge for thread "@ + short_id(id, 12) + asked,
    }
}

/// The question that an action asks.
pub fn confirmation_prompt(action: &PendingAction) -> (r: String)
    ensures
        r@ == prompt_text(action@),
{
    let asked: &str = "? [y]es / [n]o";
    match action {
        PendingAction::AbandonThread { thread_id } => cat3(
            "Abandon thread ",
            truncate_id(thread_id.as_str(), 12).as_str(),
            asked,
        ),
        PendingAction::AbandonBatch { batch_id } => cat3(
            "Abandon batch ",
            truncate_id(batch_id.as_str(), 12).as_str(),
            asked,
        ),
        PendingAction::CloseThread { thread_id, status } => {
            let mut s: String = cat3(
                "Close thread ",
                truncate_id(thread_id.as_str(), 12).as_str(),
                " as ",
            );
            s.append(close_word(*status));
            s.append(asked);
            s
        },
        PendingAction::ReopenThread { thread_id } => cat3(
            "Reopen thread ",
            truncate_id(thread_id.as_str(), 12).as_str(),
            asked,
        ),
        PendingAction::CancelMerge { op_id } => cat3(
            "Cancel merge op ",
            truncate_id(op_id.as_str(), 12).as_str(),
            asked,
        ),
        PendingAction::QueueMerge { thread_id } => cat3(
            "Queue merge for thread ",
            truncate_id(thread_id.as_str(), 12).as_str(),
            asked,
        ),
    }
}

// ── Targets ──────────────────────────────────────────────────────────────────

/// The thread whose worktree has to be looked up before the selected item can
/// be a target.
pub fn worktree_lookup<'a>(selectable: &OpsSelectable, rows: &'a Vec<ThreadStatusView>) -> (r:
    Option<&'a str>)
    ensures
        match r {
            Some(id) => selectable@ matches crate::dashboard::views::activity::OpsTarget::Thread(
                i,
            ) && i < rows@.len() && id@ == rows@[i as int].thread_id@,
            None => !(selectable@ matches crate::dashboard::views::activity::OpsTarget::Thread(i)
                && i < rows@.len()),
        },
{
    match selectable {
        OpsSelectable::Thread(i) => if *i < rows.len() {
            Some(rows[*i].thread_id.as_str())
        } else {
            None
        },
        _ => None,
    }
}

/// The first operation with an id.
pub open spec fn op_named(ops: Seq<MergeOperation>, id: Seq<char>) -> Option<MergeOperation>
    decreases ops.len(),
{
    if ops.len() == 0 {
        None
    } else if ops[0].id@ == id {
        Some(ops[0])
    } else {
        op_named(ops.skip(1), id)
    }
}

/// What an action target says.
pub enum TargetView {
    Thread {
        thread_id: Seq<char>,
        status: Seq<char>,
        summary: Option<Seq<char>>,
        has_worktree: bool,
    },
    Batch(Seq<char>),
    MergeOp(Seq<char>, Seq<char>),
}

impl View for ActionTarget {
    type V = TargetView;

    open spec fn view(&self) -> TargetView {
        match *self {
            ActionTarget::Thread { thread_id, status, summary, has_worktree } => TargetView::Thread {
                thread_id: thread_id@,
                status: status@,
                summary: text::opt_text(summary),
                has_worktree,
            },
            ActionTarget::Batch { batch_id } => TargetView::Batch(batch_id@),
            ActionTarget::MergeOp { op_id, status } => TargetView::MergeOp(op_id@, status@),
        }
    }
}

/// The target that a selected item stands for: none if its row or its
/// operation is gone.
pub open spec fn target_of(
    selectable: OpsSelectable,
    rows: Seq<ThreadStatusView>,
    ops: Seq<MergeOperation>,
    has_worktree: bool,
) -> Option<TargetView> {
    match selectable {
        OpsSelectable::Thread(i) => if i < rows.len() {
            let row = rows[i as int];
            Some(
                TargetView::Thread {
                    thread_id: row.thread_id@,
                    status: row.thread_status@,
                    summary: text::opt_text(row.summary),
                    has_worktree,
                },
            )
        } else {
            None
        },
        OpsSelectable::Batch(id) => Some(TargetView::Batch(id@)),
        OpsSelectable::MergeOp(id) => match op_named(ops, id@) {
            Some(op) => Some(TargetView::MergeOp(op.id@, op.status@)),
            None => None,
        },
    }
}

/// The view of an optional target.
pub open spec fn target_view(t: Option<ActionTarget>) -> Option<TargetView> {
    match t {
        Some(t) => Some(t@),
        None => None,
    }
}

/// The target that a selected item stands for. `has_worktree` is whether the
/// thread of `worktree_lookup` has one.
pub fn resolve_action_target(
    selectable: &OpsSelectable,
    rows: &Vec<ThreadStatusView>,
    merge_ops: &Vec<MergeOperation>,
    has_worktree: bool,
) -> (r: Option<ActionTarget>)
    ensures
        target_view(r) == target_of(*selectable, rows@, merge_ops@, has_worktree),
{
    match selectable {
        OpsSelectable::Thread(i) => {
            if *i < rows.len() {
                Some(
                    ActionTarget::Thread {
                        thread_id: rows[*i].thread_id.clone(),
                        status: rows[*i].thread_status.clone(),
                        summary: rows[*i].summary.clone(),
                        has_worktree,
                    },
                )
            } else {
                None
            }
        },
        OpsSelectable::Batch(id) => Some(ActionTarget::Batch { batch_id: id.clone() }),
        OpsSelectable::MergeOp(id) => {
            let mut k: usize = 0;
            assert(merge_ops@.skip(0) =~= merge_ops@);
            while k < merge_ops.len()
                invariant
                    k <= merge_ops@.len(),
                    *selectable == OpsSelectable::MergeOp(*id),
                    op_named(merge_ops@, id@) == op_named(merge_ops@.skip(k as int), id@),
                decreases merge_ops@.len() - k,
            {
                if str_eq(merge_ops[k].id.as_str(), id.as_str()) {
                    return Some(
                        ActionTarget::MergeOp {
                            op_id: merge_ops[k].id.clone(),
                            status: merge_ops[k].status.clone(),
                        },
                    );
                }
                assert(merge_ops@.skip(k as int).skip(1) =~= merge_ops@.skip(k + 1));
                k += 1;
            }
            None
        },
    }
}

// ── Carrying out ─────────────────────────────────────────────────────────────

/// The request by which the dashboard closes a thread.
pub fn close_request(thread_id: &str, status: CloseStatus) -> (r: CloseRequest)
    ensures
        r.thread_id@ == thread_id@,
        r.from@ == "dashboard"@,
        r.status == status,
        r.note is None,
{
    CloseRequest {
        thread_id: thread_id.to_owned(),
        from: "dashboard".to_owned(),
        status,
        note: None,
    }
}

/// What abandoning the threads of a batch has come to so far.
#[derive(Clone, Debug)]
pub struct BatchAbandon {
    pub threads: u64,
    pub cancelled: u64,
    pub errors: Vec<String>,
}

/// The same, as plain values.
pub struct BatchAbandonView {
    pub threads: u64,
    pub cancelled: u64,
    pub errors: Seq<Seq<char>>,
}

impl View for BatchAbandon {
    type V = BatchAbandonView;

    open spec fn view(&self) -> BatchAbandonView {
        BatchAbandonView {
            threads: self.threads,
            cancelled: self.cancelled,
            errors: text::texts(self.errors@),
        }
    }
}

/// Whether a thread of a batch is abandoned: unless its status is terminal. A
/// status that cannot be read counts as active.
pub open spec fn in_batch(thread: ThreadRow) -> bool {
    match ThreadStatus::parsed(thread.status@) {
        Some(s) => !s.terminal(),
        None => true,
    }
}

/// What a failed thread adds to the errors.
pub open spec fn failure_text(thread: ThreadRow, e: LifecycleError) -> Seq<char> {
    thread.thread_id@ + ": "@ + e@.text()
}

/// The totals after one more thread.
pub open spec fn batch_after(
    t: BatchAbandonView,
    thread: ThreadRow,
    result: Result<AbandonOutcome, LifecycleError>,
) -> BatchAbandonView {
    if !in_batch(thread) {
        t
    } else {
        match result {
            Ok(o) => BatchAbandonView {
                threads: lifecycle::plus(t.threads, 1),
                cancelled: lifecycle::plus(t.cancelled, o.executions_cancelled),
                ..t
            },
            Err(e) => BatchAbandonView {
                errors: t.errors.push(failure_text(thread, e)),
                ..t
            },
        }
    }
}

fn more(a: u64, b: u64) -> (r: u64)
    ensures
        r == lifecycle::plus(a, b),
{
    if a > u64::MAX - b {
        u64::MAX
    } else {
        a + b
    }
}

impl BatchAbandon {
    /// A batch of which no thread has been looked at.
    pub fn new() -> (r: BatchAbandon)
        ensures
            r@ == (BatchAbandonView { threads: 0, cancelled: 0, errors: Seq::empty() }),
    {
        let r: BatchAbandon = BatchAbandon { threads: 0, cancelled: 0, errors: Vec::new() };
        assert(r@.errors =~= Seq::<Seq<char>>::empty());
        r
    }

    /// What stands against abandoning the batch whose threads were listed: the
    /// list could not be read, or is empty.
    pub fn refusal(batch_id: &str, listed: &Result<Vec<ThreadRow>, String>) -> (r: Option<String>)
        ensures
            text::opt_text(r) == match *listed {
                Err(e) => Some("failed to list batch threads: "@ + e@),
                Ok(threads) => if threads@.len() == 0 {
                    Some("No threads found for batch '"@ + batch_id@ + "'"@)
                } else {
                    None
                },
            },
    {
        match listed {
            Err(e) => Some(cat("failed to list batch threads: ", e.as_str())),
            Ok(threads) => if threads.len() == 0 {
                Some(cat3("No threads found for batch '", batch_id, "'"))
            } else {
                None
            },
        }
    }

    /// Whether a thread of the batch is abandoned.
    pub fn takes(thread: &ThreadRow) -> (r: bool)
        ensures
            r == in_batch(*thread),
    {
        match ThreadStatus::parse(thread.status.as_str()) {
            Some(s) => !s.is_terminal(),
            None => true,
        }
    }

    /// Counts a thread. `result` is what abandoning it came to; for a thread
    /// that is not abandoned it is not read.
    pub fn record(&mut self, thread: &ThreadRow, result: Result<AbandonOutcome, LifecycleError>)
        ensures
            final(self)@ == batch_after(old(self)@, *thread, result),
    {
        let ghost before = self@;
        if BatchAbandon::takes(thread) {
            match result {
                Ok(o) => {
                    self.threads = more(self.threads, 1);
                    self.cancelled = more(self.cancelled, o.executions_cancelled);
                },
                Err(e) => {
                    let message: String = e.message();
                    self.errors.push(cat3(thread.thread_id.as_str(), ": ", message.as_str()));
                    assert(self@.errors =~= before.errors.push(failure_text(*thread, e)));
                },
            }
        }
    }
}

/// The threads of a batch, abandoned one after the other.
#[derive(Clone, Debug)]
pub struct BatchRun {
    pub threads: Vec<ThreadRow>,
    /// The thread to abandon now; behind the last one when all are done.
    pub at: usize,
    pub totals: BatchAbandon,
}

/// The same, as plain values.
pub struct BatchRunView {
    pub threads: Seq<ThreadRow>,
    pub at: nat,
    pub totals: BatchAbandonView,
}

impl View for BatchRun {
    type V = BatchRunView;

    open spec fn view(&self) -> BatchRunView {
        BatchRunView { threads: self.threads@, at: self.at as nat, totals: self.totals@ }
    }
}

/// The first thread from `from` on that is abandoned, or the end of the list.
pub open spec fn next_taken(threads: Seq<ThreadRow>, from: nat) -> nat
    decreases threads.len() - from,
{
    if from < threads.len() && !in_batch(threads[from as int]) {
        next_taken(threads, from + 1)
    } else {
        from
    }
}

/// A run of which no thread has been abandoned.
pub open spec fn begun(threads: Seq<ThreadRow>) -> BatchRunView {
    BatchRunView {
        threads,
        at: next_taken(threads, 0),
        totals: BatchAbandonView { threads: 0, cancelled: 0, errors: Seq::empty() },
    }
}

/// A run after what abandoning its current thread came to. It goes on to the
/// next thread whether that succeeded or not.
pub open spec fn run_after(
    run: BatchRunView,
    result: Result<AbandonOutcome, LifecycleError>,
) -> BatchRunView {
    if run.at < run.threads.len() {
        BatchRunView {
            threads: run.threads,
            at: next_taken(run.threads, run.at + 1),
            totals: batch_after(run.totals, run.threads[run.at as int], result),
        }
    } else {
        run
    }
}

fn find_taken(threads: &Vec<ThreadRow>, from: usize) -> (r: usize)
    requires
        from <= threads@.len(),
    ensures
        r == next_taken(threads@, from as nat),
        r <= threads@.len(),
{
    let mut i: usize = from;
    while i < threads.len() && !BatchAbandon::takes(&threads[i])
        invariant
            i <= threads@.len(),
            next_taken(threads@, from as nat) == next_taken(threads@, i as nat),
        decreases threads@.len() - i,
    {
        i += 1;
    }
    i
}

impl BatchRun {
    /// Starts with the threads that were listed, or says what stands against
    /// abandoning the batch.
    pub fn begin(batch_id: &str, listed: Result<Vec<ThreadRow>, String>) -> (r: Result<
        BatchRun,
        String,
    >)
        ensures
            match listed {
                Err(e) => r matches Err(t) && t@ == "failed to list batch threads: "@ + e@,
                Ok(threads) => if threads@.len() == 0 {
                    r matches Err(t) && t@ == "No threads found for batch '"@ + batch_id@ + "'"@
                } else {
                    r matches Ok(run) && run@ == begun(threads@)
                },
            },
    {
        if let Some(refusal) = BatchAbandon::refusal(batch_id, &listed) {
            return Err(refusal);
        }
        match listed {
            Err(e) => Err(e),
            Ok(threads) => {
                let at: usize = find_taken(&threads, 0);
                Ok(BatchRun { threads, at, totals: BatchAbandon::new() })
            },
        }
    }

    /// The thread to abandon now.
    pub fn pending(&self) -> (r: Option<&str>)
        ensures
            match r {
                Some(id) => self@.at < self@.threads.len() && id@
                    == self@.threads[self@.at as int].thread_id@,
                None => self@.at >= self@.threads.len(),
            },
    {
        if self.at < self.threads.len() {
            Some(self.threads[self.at].thread_id.as_str())
        } else {
            None
        }
    }

    /// Takes over what abandoning the current thread came to, and goes on.
    pub fn record(&mut self, result: Result<AbandonOutcome, LifecycleError>)
        ensures
            final(self)@ == run_after(old(self)@, result),
    {
        if self.at < self.threads.len() {
            self.totals.record(&self.threads[self.at], result);
            self.at = find_taken(&self.threads, self.at + 1);
        }
    }
}

/// The positions of the threads that a run abandons, in order; `answers[i]` is
/// what abandoning the `i`th thread comes to.
pub open spec fn batch_trail(
    run: BatchRunView,
    answers: Seq<Result<AbandonOutcome, LifecycleError>>,
) -> Seq<int>
    decreases run.threads.len() - run.at,
{
    if run.at < run.threads.len() {
        proof {
            lemma_next_taken(run.threads, run.at + 1);
        }
        seq![run.at as int] + batch_trail(run_after(run, answers[run.at as int]), answers)
    } else {
        seq![]
    }
}

/// The totals with which a run ends.
pub open spec fn batch_end(
    run: BatchRunView,
    answers: Seq<Result<AbandonOutcome, LifecycleError>>,
) -> BatchAbandonView
    decreases run.threads.len() - run.at,
{
    if run.at < run.threads.len() {
        proof {
            lemma_next_taken(run.threads, run.at + 1);
        }
        batch_end(run_after(run, answers[run.at as int]), answers)
    } else {
        run.totals
    }
}

/// The totals over the first `n` threads.
pub open spec fn batch_total(
    threads: Seq<ThreadRow>,
    answers: Seq<Result<AbandonOutcome, LifecycleError>>,
    n: nat,
) -> BatchAbandonView
    decreases n,
{
    if n == 0 {
        BatchAbandonView { threads: 0, cancelled: 0, errors: Seq::empty() }
    } else {
        batch_after(
            batch_total(threads, answers, (n - 1) as nat),
            threads[n - 1],
            answers[n - 1],
        )
    }
}

/// What `next_taken` finds: nothing before it is abandoned.
pub proof fn lemma_next_taken(threads: Seq<ThreadRow>, from: nat)
    ensures
        next_taken(threads, from) >= from,
        from <= threads.len() ==> next_taken(threads, from) <= threads.len(),
        next_taken(threads, from) < threads.len() ==> in_batch(
            threads[next_taken(threads, from) as int],
        ),
        forall|i: int|
            from <= i < next_taken(threads, from) ==> i < threads.len() && !in_batch(
                #[trigger] threads[i],
            ),
    decreases threads.len() - from,
{
    if from < threads.len() && !in_batch(threads[from as int]) {
        lemma_next_taken(threads, from + 1);
    }
}

/// Threads that are not abandoned leave the totals as they are.
proof fn lemma_total_skips(
    threads: Seq<ThreadRow>,
    answers: Seq<Result<AbandonOutcome, LifecycleError>>,
    from: nat,
)
    ensures
        batch_total(threads, answers, next_taken(threads, from)) == batch_total(
            threads,
            answers,
            from,
        ),
    decreases threads.len() - from,
{
    if from < threads.len() && !in_batch(threads[from as int]) {
        lemma_total_skips(threads, answers, from + 1);
    }
}

proof fn lemma_trail(
    run: BatchRunView,
    answers: Seq<Result<AbandonOutcome, LifecycleError>>,
    from: nat,
)
    requires
        from <= run.threads.len(),
        run.at == next_taken(run.threads, from),
        run.totals == batch_total(run.threads, answers, from),
    ensures
        batch_end(run, answers) == batch_total(run.threads, answers, run.threads.len()),
        forall|i: int|
            #![trigger batch_trail(run, answers).contains(i)]
            batch_trail(run, answers).contains(i) <==> from <= i < run.threads.len() && in_batch(
                run.threads[i],
            ),
        forall|j: int, k: int|
            0 <= j < k < batch_trail(run, answers).len() ==> (#[trigger] batch_trail(
                run,
                answers,
            )[j]) < (#[trigger] batch_trail(run, answers)[k]),
    decreases run.threads.len() - run.at,
{
    let threads = run.threads;
    let trail = batch_trail(run, answers);
    lemma_next_taken(threads, from);
    lemma_total_skips(threads, answers, from);
    if run.at < threads.len() {
        let next = run_after(run, answers[run.at as int]);
        let rest = batch_trail(next, answers);
        lemma_next_taken(threads, run.at + 1);
        lemma_trail(next, answers, run.at + 1);
        assert(trail =~= seq![run.at as int] + rest);
        assert forall|i: int|
            #![trigger trail.contains(i)]
            trail.contains(i) <==> from <= i < threads.len() && in_batch(threads[i]) by {
            if trail.contains(i) {
                let k = choose|k: int| 0 <= k < trail.len() && trail[k] == i;
                if k > 0 {
                    assert(rest[k - 1] == i);
                    assert(rest.contains(i));
                }
            }
            if from <= i < threads.len() && in_batch(threads[i]) {
                if i == run.at {
                    assert(trail[0] == i);
                } else {
                    assert(rest.contains(i));
                    let k = choose|k: int| 0 <= k < rest.len() && rest[k] == i;
                    assert(trail[k + 1] == i);
                }
            }
        }
        assert forall|j: int, k: int| 0 <= j < k < trail.len() implies (#[trigger] trail[j]) < (
        #[trigger] trail[k]) by {
            assert(trail[k] == rest[k - 1]);
            assert(rest.contains(rest[k - 1]));
            if j > 0 {
                assert(trail[j] == rest[j - 1]);
            }
        }
    } else {
        assert(trail =~= Seq::<int>::empty());
    }
}

proof fn lemma_total_errors(
    threads: Seq<ThreadRow>,
    answers: Seq<Result<AbandonOutcome, LifecycleError>>,
    n: nat,
)
    requires
        n <= threads.len(),
    ensures
        batch_total(threads, answers, n).errors.len() == 0 <==> forall|i: int|
            0 <= i < n && in_batch(#[trigger] threads[i]) ==> answers[i] is Ok,
        forall|i: int|
            0 <= i < n && in_batch(#[trigger] threads[i]) ==> (answers[i] matches Err(e)
                ==> batch_total(threads, answers, n).errors.contains(failure_text(threads[i], e))),
    decreases n,
{
    if n > 0 {
        let m = (n - 1) as nat;
        lemma_total_errors(threads, answers, m);
        let before = batch_total(threads, answers, m).errors;
        let after = batch_total(threads, answers, n).errors;
        assert forall|i: int| 0 <= i < n && in_batch(#[trigger] threads[i]) implies (
        answers[i] matches Err(e) ==> after.contains(failure_text(threads[i], e))) by {
            if let Err(e) = answers[i] {
                if i < m {
                    let w = choose|w: int|
                        0 <= w < before.len() && before[w] == failure_text(threads[i], e);
                    assert(after[w] == failure_text(threads[i], e));
                } else {
                    assert(after[before.len() as int] == failure_text(threads[i], e));
                }
            }
        }
        if in_batch(threads[m as int]) && answers[m as int] is Err {
            assert(after.len() > 0);
        } else {
            assert(after == before);
        }
    }
}

/// Abandoning a batch asks for exactly the threads that have not ended, each
/// once and in the order of the list, also after one of them failed. The totals
/// are those over all threads; there is an error if and only if a thread failed,
/// and every failed thread is told with its error.
pub proof fn law_batch_run(
    threads: Seq<ThreadRow>,
    answers: Seq<Result<AbandonOutcome, LifecycleError>>,
)
    ensures
        forall|i: int|
            #![trigger batch_trail(begun(threads), answers).contains(i)]
            batch_trail(begun(threads), answers).contains(i) <==> 0 <= i < threads.len()
                && in_batch(threads[i]),
        forall|j: int, k: int|
            0 <= j < k < batch_trail(begun(threads), answers).len() ==> (#[trigger] batch_trail(
                begun(threads),
                answers,
            )[j]) < (#[trigger] batch_trail(begun(threads), answers)[k]),
        batch_end(begun(threads), answers) == batch_total(threads, answers, threads.len()),
        batch_end(begun(threads), answers).errors.len() == 0 <==> forall|i: int|
            0 <= i < threads.len() && in_batch(#[trigger] threads[i]) ==> answers[i] is Ok,
        forall|i: int|
            0 <= i < threads.len() && in_batch(#[trigger] threads[i]) ==> (
            answers[i] matches Err(e) ==> batch_end(begun(threads), answers).errors.contains(
                failure_text(threads[i], e),
            )),
{
    lemma_trail(begun(threads), answers, 0);
    lemma_total_errors(threads, answers, threads.len());
}

/// What the work behind an action came to.
#[derive(Debug)]
pub enum ActionOutcome {
    TimedOut,
    ThreadAbandoned(Result<AbandonOutcome, LifecycleError>),
    BatchAbandoned(Result<BatchAbandon, String>),
    ThreadClosed(CloseStatus, Result<CloseOutcome, LifecycleError>),
    ThreadReopened(Result<ReopenOutcome, LifecycleError>),
    /// Whether the operation was still queued, and is now cancelled.
    MergeCancelled(Result<bool, String>),
    /// Merges cannot be queued from the dashboard.
    MergeNotQueued,
}

/// What is reported of an outcome, and whether it is an error.
pub open spec fn outcome_report(outcome: ActionOutcome) -> (Seq<char>, bool) {
    match outcome {
        ActionOutcome::TimedOut => ("Action timed out"@, true),
        ActionOutcome::ThreadAbandoned(Ok(o)) => (
            "Thread abandoned ("@ + text::dec(o.executions_cancelled as nat) + " cancelled, "@ + text::dec(
                o.processes_killed as nat,
            ) + " killed)"@,
            false,
        ),
        ActionOutcome::ThreadAbandoned(Err(e)) => (e@.text(), true),
        ActionOutcome::BatchAbandoned(Ok(b)) => if b.errors@.len() == 0 {
            (
                "Batch abandoned ("@ + text::dec(b.threads as nat) + " threads, "@ + text::dec(
                    b.cancelled as nat,
                ) + " executions cancelled)"@,
                false,
            )
        } else {
            (
                "Batch partially abandoned ("@ + text::dec(b.threads as nat) + " threads, "@ + text::dec(
                    b.cancelled as nat,
                ) + " cancelled); errors: "@ + text::joined(text::texts(b.errors@), ", "@),
                true,
            )
        },
        ActionOutcome::BatchAbandoned(Err(e)) => (e@, true),
        ActionOutcome::ThreadClosed(status, Ok(_)) => (
            "Thread closed as "@ + close_label(status),
            false,
        ),
        ActionOutcome::ThreadClosed(_, Err(e)) => (e@.text(), true),
        ActionOutcome::ThreadReopened(Ok(o)) => (
            "Thread reopened ("@ + o.previous_status@ + " → "@ + o.new_status@ + ")"@,
            false,
        ),
        ActionOutcome::ThreadReopened(Err(e)) => (e@.text(), true),
        ActionOutcome::MergeCancelled(Ok(true)) => ("Merge cancelled"@, false),
        ActionOutcome::MergeCancelled(Ok(false)) => (
            "Cannot cancel: merge is no longer queued"@,
            true,
        ),
        ActionOutcome::MergeCancelled(Err(e)) => (e@, true),
        ActionOutcome::MergeNotQueued => ("Not yet implemented"@, true),
    }
}

fn result(message: String, is_error: bool) -> (r: ActionResult)
    ensures
        r.message == message,
        r.is_error == is_error,
{
    ActionResult { message, is_error }
}

/// The report of two counts.
fn counted(head: &str, a: u64, between: &str, b: u64, tail: &str) -> (r: String)
    ensures
        r@ == head@ + text::dec(a as nat) + between@ + text::dec(b as nat) + tail@,
{
    let mut s: String = cat3(head, u64_text(a).as_str(), between);
    s.append(u64_text(b).as_str());
    s.append(tail);
    s
}

/// What is reported of an action once its work is done.
pub fn execute_action(outcome: ActionOutcome) -> (r: ActionResult)
    ensures
        (r.message@, r.is_error) == outcome_report(outcome),
{
    match outcome {
        ActionOutcome::TimedOut => result("Action timed out".to_owned(), true),
        ActionOutcome::ThreadAbandoned(Ok(o)) => result(
            counted(
                "Thread abandoned (",
                o.executions_cancelled,
                " cancelled, ",
                o.processes_killed,
                " killed)",
            ),
            false,
        ),
        ActionOutcome::ThreadAbandoned(Err(e)) => result(e.message(), true),
        ActionOutcome::BatchAbandoned(Ok(b)) => {
            if b.errors.len() == 0 {
                result(
                    counted(
                        "Batch abandoned (",
                        b.threads,
                        " threads, ",
                        b.cancelled,
                        " executions cancelled)",
                    ),
                    false,
                )
            } else {
                let mut s: String = counted(
                    "Batch partially abandoned (",
                    b.threads,
                    " threads, ",
                    b.cancelled,
                    " cancelled); errors: ",
                );
                s.append(join(&b.errors, ", ").as_str());
                result(s, true)
            }
        },
        ActionOutcome::BatchAbandoned(Err(e)) => result(e, true),
        ActionOutcome::ThreadClosed(status, Ok(_)) => result(
            cat("Thread closed as ", close_word(status)),
            false,
        ),
        ActionOutcome::ThreadClosed(_, Err(e)) => result(e.message(), true),
        ActionOutcome::ThreadReopened(Ok(o)) => {
            let mut s: String = cat3("Thread reopened (", o.previous_status.as_str(), " → ");
            s.append(o.new_status.as_str());
            s.append(")");
            result(s, false)
        },
        ActionOutcome::ThreadReopened(Err(e)) => result(e.message(), true),
        ActionOutcome::MergeCancelled(Ok(done)) => {
            if done {
                result("Merge cancelled".to_owned(), false)
            } else {
                result("Cannot cancel: merge is no longer queued".to_owned(), true)
            }
        },
        ActionOutcome::MergeCancelled(Err(e)) => result(e, true),
        ActionOutcome::MergeNotQueued => result("Not yet implemented".to_owned(), true),
    }
}

// ── Laws of the menu and of what is told ─────────────────────────────────────

/// Every entry of the menu stands for the action that its label names, on the very
/// item that the menu is for.
pub proof fn law_menu_does_what_it_says(target: ActionTarget, i: int)
    requires
        0 <= i < actions_for(target).len(),
    ensures
        ({
            let e = actions_for(target)[i];
            let a = keyed_action(e.key, target);
            match target {
                ActionTarget::Thread { thread_id, status, has_worktree, .. } => {
                    ||| e.label@ == "Abandon"@ && a == Some(PendingView::AbandonThread(thread_id@))
                    ||| e.label@ == "Close completed"@ && a == Some(
                        PendingView::CloseThread(thread_id@, CloseStatus::Completed),
                    )
                    ||| e.label@ == "Close failed"@ && a == Some(
                        PendingView::CloseThread(thread_id@, CloseStatus::Failed),
                    )
                    ||| e.label@ == "Queue merge"@ && has_worktree && a == Some(
                        PendingView::QueueMerge(thread_id@),
                    )
                    ||| e.label@ == "Reopen"@ && a == Some(PendingView::ReopenThread(thread_id@))
                },
                ActionTarget::Batch { batch_id } => e.label@ == "Abandon batch"@ && a == Some(
                    PendingView::AbandonBatch(batch_id@),
                ),
                ActionTarget::MergeOp { op_id, status } => e.label@ == "Cancel merge"@ && status@
                    == "queued"@ && a == Some(PendingView::CancelMerge(op_id@)),
            }
        }),
{
}

/// A thread that has ended can be reopened and nothing else; one that has not can
/// be abandoned and closed either way, and its merge queued if it has a worktree.
/// A batch can be abandoned, a queued merge cancelled.
pub proof fn law_menu_by_status(target: ActionTarget)
    ensures
        target matches ActionTarget::Thread { status, has_worktree, .. } ==> {
            let ended = terminal_status(status@);
            &&& ended ==> actions_for(target).len() == 1 && actions_for(target)[0].label@
                == "Reopen"@
            &&& !ended && has_worktree ==> actions_for(target).len() == 4
            &&& !ended && !has_worktree ==> actions_for(target).len() == 3
        },
        target matches ActionTarget::Thread { thread_id, status, .. } ==> (keyed_action('r', target)
            is Some <==> terminal_status(status@)),
        target is Batch ==> actions_for(target).len() == 1,
        target matches ActionTarget::MergeOp { status, .. } ==> actions_for(target).len() == if status@
            == "queued"@ {
            1nat
        } else {
            0nat
        },
{
}

/// How the totals of a batch grow by one more thread: one that has ended adds
/// nothing; any other adds itself and the executions that were cancelled with it,
/// or its error.
pub proof fn law_batch_totals_by_thread(
    t: BatchAbandonView,
    thread: ThreadRow,
    result: Result<AbandonOutcome, LifecycleError>,
)
    ensures
        ({
            let status = thread.status@;
            let ended = status == "Completed"@ || status == "Failed"@ || status == "Abandoned"@;
            let after = batch_after(t, thread, result);
            &&& in_batch(thread) <==> !ended
            &&& ended ==> after == t
            &&& !ended ==> (result matches Ok(o) ==> {
                &&& t.threads < u64::MAX ==> after.threads == t.threads + 1
                &&& t.cancelled + o.executions_cancelled <= u64::MAX ==> after.cancelled
                    == t.cancelled + o.executions_cancelled
                &&& after.errors == t.errors
            })
            &&& !ended ==> (result matches Err(e) ==> after.threads == t.threads && after.cancelled
                == t.cancelled && after.errors == t.errors.push(
                thread.thread_id@ + ": "@ + e@.text(),
            ))
        }),
{
    crate::store::law_statuses(thread.status@);
}

/// What is told of an action is an error if and only if the work failed: it ran
/// out of time, was refused, left a thread of a batch behind, or came too late for
/// a merge that was no longer queued.
pub proof fn law_errors_are_told_as_errors(outcome: ActionOutcome)
    ensures
        outcome_report(outcome).1 <==> match outcome {
            ActionOutcome::TimedOut => true,
            ActionOutcome::ThreadAbandoned(r) => r is Err,
            ActionOutcome::BatchAbandoned(r) => r is Err || r->Ok_0.errors@.len() > 0,
            ActionOutcome::ThreadClosed(_, r) => r is Err,
            ActionOutcome::ThreadReopened(r) => r is Err,
            ActionOutcome::MergeCancelled(r) => r != Ok::<bool, String>(true),
            ActionOutcome::MergeNotQueued => true,
        },
        outcome matches ActionOutcome::ThreadAbandoned(Ok(o)) ==> outcome_report(outcome).0
            == "Thread abandoned ("@ + text::dec(o.executions_cancelled as nat) + " cancelled, "@
            + text::dec(o.processes_killed as nat) + " killed)"@,
        outcome matches ActionOutcome::ThreadClosed(CloseStatus::Completed, Ok(_))
            ==> outcome_report(outcome).0 == "Thread closed as "@ + "completed"@,
        outcome matches ActionOutcome::ThreadClosed(CloseStatus::Failed, Ok(_)) ==> outcome_report(
            outcome,
        ).0 == "Thread closed as "@ + "failed"@,
        outcome matches ActionOutcome::ThreadReopened(Ok(o)) ==> outcome_report(outcome).0
            == "Thread reopened ("@ + o.previous_status@ + " → "@ + o.new_status@ + ")"@,
        outcome matches ActionOutcome::ThreadAbandoned(Err(e)) ==> outcome_report(outcome).0
            == e@.text(),
        outcome matches ActionOutcome::ThreadClosed(_, Err(e)) ==> outcome_report(outcome).0
            == e@.text(),
        outcome matches ActionOutcome::ThreadReopened(Err(e)) ==> outcome_report(outcome).0
            == e@.text(),
{
}

/// The question of an action names what it does and to what.
pub proof fn law_prompts_name_their_action(id: Seq<char>)
    requires
        id.len() <= 12,
    ensures
        prompt_text(PendingView::AbandonThread(id)) == "Abandon thread "@ + id
            + "? [y]es / [n]o"@,
        prompt_text(PendingView::AbandonBatch(id)) == "Abandon batch "@ + id + "? [y]es / [n]o"@,
        prompt_text(PendingView::CloseThread(id, CloseStatus::Completed)) == "Close thread "@ + id
            + " as "@ + "completed"@ + "? [y]es / [n]o"@,
        prompt_text(PendingView::CloseThread(id, CloseStatus::Failed)) == "Close thread "@ + id
            + " as "@ + "failed"@ + "? [y]es / [n]o"@,
        prompt_text(PendingView::ReopenThread(id)) == "Reopen thread "@ + id + "? [y]es / [n]o"@,
        prompt_text(PendingView::CancelMerge(id)) == "Cancel merge op "@ + id + "? [y]es / [n]o"@,
        prompt_text(PendingView::QueueMerge(id)) == "Queue merge for thread "@ + id
            + "? [y]es / [n]o"@,
{
}

/// The operation that is found under an id is the first that bears it.
pub proof fn law_first_operation_of_its_id(ops: Seq<MergeOperation>, id: Seq<char>)
    ensures
        match op_named(ops, id) {
            Some(op) => op.id@ == id && exists|k: int|
                #![trigger ops[k]]
                0 <= k < ops.len() && ops[k] == op && forall|j: int|
                    0 <= j < k ==> (#[trigger] ops[j]).id@ != id,
            None => forall|j: int| 0 <= j < ops.len() ==> (#[trigger] ops[j]).id@ != id,
        },
    decreases ops.len(),
{
    if ops.len() > 0 && ops[0].id@ != id {
        let rest = ops.skip(1);
        law_first_operation_of_its_id(rest, id);
        match op_named(rest, id) {
            Some(op) => {
                let k = choose|k: int|
                    #![trigger rest[k]]
                    0 <= k < rest.len() && rest[k] == op && forall|j: int|
                        0 <= j < k ==> (#[trigger] rest[j]).id@ != id;
                assert(ops[k + 1] == op);
                assert forall|j: int| 0 <= j < k + 1 implies (#[trigger] ops[j]).id@ != id by {
                    if j > 0 {
                        assert(rest[j - 1] == ops[j]);
                    }
                }
            },
            None => {
                assert forall|j: int| 0 <= j < ops.len() implies (#[trigger] ops[j]).id@ != id by {
                    if j > 0 {
                        assert(rest[j - 1] == ops[j]);
                    }
                }
            },
        }
    } else if ops.len() > 0 {
        assert(ops[0] == op_named(ops, id)->0);
    }
}

/// The target of a selected thread is that of its row, and of a selected merge
/// that of its operation; a row or an operation that is gone is no target.
pub proof fn law_targets_are_the_selected(
    selectable: OpsSelectable,
    rows: Seq<ThreadStatusView>,
    ops: Seq<MergeOperation>,
    has_worktree: bool,
)
    ensures
        selectable matches OpsSelectable::Thread(i) ==> (i < rows.len() ==> target_of(
            selectable,
            rows,
            ops,
            has_worktree,
        ) == Some(
            TargetView::Thread {
                thread_id: rows[i as int].thread_id@,
                status: rows[i as int].thread_status@,
                summary: text::opt_text(rows[i as int].summary),
                has_worktree,
            },
        )),
        selectable matches OpsSelectable::Thread(i) ==> (i >= rows.len() ==> target_of(
            selectable,
            rows,
            ops,
            has_worktree,
        ) is None),
        selectable matches OpsSelectable::Batch(id) ==> target_of(
            selectable,
            rows,
            ops,
            has_worktree,
        ) == Some(TargetView::Batch(id@)),
        selectable matches OpsSelectable::MergeOp(id) ==> (target_of(
            selectable,
            rows,
            ops,
            has_worktree,
        ) matches Some(TargetView::MergeOp(op, status)) ==> op == id@ && exists|k: int|
            0 <= k < ops.len() && (#[trigger] ops[k]).id@ == id@ && ops[k].status@ == status),
        selectable matches OpsSelectable::MergeOp(id) ==> (target_of(
            selectable,
            rows,
            ops,
            has_worktree,
        ) is None <==> forall|k: int| 0 <= k < ops.len() ==> (#[trigger] ops[k]).id@ != id@),
{
    if let OpsSelectable::MergeOp(id) = selectable {
        law_first_operation_of_its_id(ops, id@);
    }
}

/// The menu counts a thread as ended in exactly the stored statuses in which it
/// has.
pub proof fn law_menu_knows_ended_threads(status: ThreadStatus)
    ensures
        terminal_status(status.text()) <==> status.terminal(),
        terminal_status("Completed"@),
        terminal_status("Failed"@),
        terminal_status("Abandoned"@),
        !terminal_status("Active"@),
{
    reveal_strlit("Active");
    reveal_strlit("Completed");
    reveal_strlit("Failed");
    reveal_strlit("Abandoned");
    reveal_strlit("completed");
    reveal_strlit("failed");
    reveal_strlit("abandoned");
    let f = |c: char| text::ascii_lower(c);
    assert("Completed"@.map_values(f) =~= "completed"@.map_values(f));
    assert("Failed"@.map_values(f) =~= "failed"@.map_values(f));
    assert("Abandoned"@.map_values(f) =~= "abandoned"@.map_values(f));
    assert("Active"@.map_values(f).len() == 6 && "failed"@.map_values(f).len() == 6);
    assert("completed"@.map_values(f).len() == 9 && "abandoned"@.map_values(f).len() == 9);
    assert("Active"@.map_values(f)[0] == 'a' && "failed"@.map_values(f)[0] == 'f');
}

/// What is reported of a batch, of a merge, and of an action that took too long.
pub proof fn law_batches_and_merges_are_reported(outcome: ActionOutcome)
    ensures
        outcome matches ActionOutcome::BatchAbandoned(Ok(b)) ==> {
            &&& b.errors@.len() == 0 ==> outcome_report(outcome).0 == "Batch abandoned ("@
                + text::dec(b.threads as nat) + " threads, "@ + text::dec(b.cancelled as nat)
                + " executions cancelled)"@
            &&& b.errors@.len() > 0 ==> outcome_report(outcome).0
                == "Batch partially abandoned ("@ + text::dec(b.threads as nat) + " threads, "@
                + text::dec(b.cancelled as nat) + " cancelled); errors: "@ + text::joined(
                text::texts(b.errors@),
                ", "@,
            )
        },
        outcome matches ActionOutcome::BatchAbandoned(Err(e)) ==> outcome_report(outcome).0 == e@,
        outcome == ActionOutcome::MergeCancelled(Ok(true)) ==> outcome_report(outcome).0
            == "Merge cancelled"@,
        outcome == ActionOutcome::MergeCancelled(Ok(false)) ==> outcome_report(outcome).0
            == "Cannot cancel: merge is no longer queued"@,
        outcome matches ActionOutcome::MergeCancelled(Err(e)) ==> outcome_report(outcome).0 == e@,
        outcome is TimedOut ==> outcome_report(outcome).0 == "Action timed out"@,
        outcome is MergeNotQueued ==> outcome_report(outcome).0 == "Not yet implemented"@,
{
}

} // verus!
