//! Ops tab: which rows stand in which section, batch progress, the visible
//! merge queue, and what can be selected.
use crate::dashboard::views::{elapsed, is_running_exec_status};
use crate::dashboard::views;
use crate::sort::{stable_sort, Order, Ranked};
use crate::sort;
use crate::store::{CostSummary, MergeOperation, ThreadStatusView};
use crate::text::{less, opt_is, str_eq};
use crate::text;
use vstd::prelude::*;
use vstd::seq_lib::*;

verus! {

/// Recently completed threads shown at most.
pub const RECENTLY_COMPLETED_LIMIT: usize = 12;

/// Batches shown per section at most.
pub const OPS_BATCH_SECTION_LIMIT: usize = 10;

/// Finished merges shown at most.
pub const MERGE_QUEUE_RECENT_LIMIT: usize = 5;

/// Completed and cancelled merges stay visible for this many seconds.
pub const MERGE_TERMINAL_WINDOW_SECS: i64 = 600;

/// Failed merges stay visible for this many seconds.
pub const MERGE_FAILED_WINDOW_SECS: i64 = 1800;

/// What the Ops tab shows.
#[derive(Clone, Debug)]
pub struct ActivityData {
    pub rows: Vec<ThreadStatusView>,
    pub thread_counts: Vec<(String, i64)>,
    pub queue_depth: i64,
    /// Worker id, last beat, start and version.
    pub heartbeat: Option<(String, i64, i64, Option<String>)>,
    /// When the data was fetched, on the dashboard's millisecond clock.
    pub fetched_at: u64,
    pub cost_summary: Option<CostSummary>,
    pub merge_ops: Vec<MergeOperation>,
}

/// A selectable entry of the Ops list.
#[derive(Debug, Clone, PartialEq, Eq)]
pub enum OpsSelectable {
    Thread(usize),
    Batch(String),
    MergeOp(String),
}

/// What an entry stands for.
pub enum OpsTarget {
    Thread(usize),
    Batch(Seq<char>),
    MergeOp(Seq<char>),
}

impl View for OpsSelectable {
    type V = OpsTarget;

    open spec fn view(&self) -> OpsTarget {
        match self {
            OpsSelectable::Thread(i) => OpsTarget::Thread(*i),
            OpsSelectable::Batch(id) => OpsTarget::Batch(id@),
            OpsSelectable::MergeOp(id) => OpsTarget::MergeOp(id@),
        }
    }
}

// ── Row predicates ───────────────────────────────────────────────────────────

/// The latest execution is queued, picked up or executing.
pub open spec fn running_now(t: ThreadStatusView) -> bool {
    t.execution_status is Some && views::running_status(t.execution_status->0@)
}

/// An active thread without a running execution, not touched for `stale_after` seconds.
pub open spec fn stale_active(t: ThreadStatusView, now: i64, stale_after: i64) -> bool {
    t.thread_status@ == "Active"@ && !running_now(t) && views::since(now, t.thread_updated_at)
        >= stale_after
}

/// An active thread without a running execution that is not stale.
pub open spec fn active_waiting(t: ThreadStatusView, now: i64, stale_after: i64) -> bool {
    t.thread_status@ == "Active"@ && !running_now(t) && !stale_active(t, now, stale_after)
}

/// A completed execution or a completed thread.
pub open spec fn recently_completed(t: ThreadStatusView) -> bool {
    text::opt_text(t.execution_status) == Some("completed"@) || t.thread_status@ == "Completed"@
}

/// Queued for a later time.
pub open spec fn scheduled_for_later(t: ThreadStatusView, now: i64) -> bool {
    text::opt_text(t.execution_status) == Some("queued"@) && t.eligible_at is Some && t.eligible_at->0
        > now
}

/// Whether the latest execution is queued, picked up or executing.
pub fn is_running_now(t: &ThreadStatusView) -> (r: bool)
    ensures
        r == running_now(*t),
{
    match &t.execution_status {
        Some(s) => is_running_exec_status(s.as_str()),
        None => false,
    }
}

/// Whether the thread is active, idle, and untouched for `stale_after_secs`.
pub fn is_stale_active(t: &ThreadStatusView, now_unix: i64, stale_after_secs: i64) -> (r: bool)
    ensures
        r == stale_active(*t, now_unix, stale_after_secs),
{
    str_eq(t.thread_status.as_str(), "Active") && !is_running_now(t) && elapsed(
        now_unix,
        t.thread_updated_at,
    ) >= stale_after_secs
}

/// Whether the thread is active, idle, and not stale.
pub fn is_active_waiting(t: &ThreadStatusView, now_unix: i64, stale_after_secs: i64) -> (r: bool)
    ensures
        r == active_waiting(*t, now_unix, stale_after_secs),
{
    str_eq(t.thread_status.as_str(), "Active") && !is_running_now(t) && !is_stale_active(
        t,
        now_unix,
        stale_after_secs,
    )
}

/// Whether the thread or its latest execution is completed.
pub fn is_recently_completed(t: &ThreadStatusView) -> (r: bool)
    ensures
        r == recently_completed(*t),
{
    opt_is(&t.execution_status, "completed") || str_eq(t.thread_status.as_str(), "Completed")
}

/// Whether the latest execution is queued for a later time.
pub fn is_scheduled(t: &ThreadStatusView, now_unix: i64) -> (r: bool)
    ensures
        r == scheduled_for_later(*t, now_unix),
{
    opt_is(&t.execution_status, "queued") && match t.eligible_at {
        Some(at) => at > now_unix,
        None => false,
    }
}

// ── Sections ─────────────────────────────────────────────────────────────────

/// The section of the Ops list that a row stands in.
#[derive(Clone, Copy, Debug, PartialEq, Eq, Structural)]
pub enum Section {
    Running,
    Scheduled,
    ActiveThreads,
    RecentlyCompleted,
    Uncategorized,
}

/// The section of a row: the first whose test the row passes.
pub open spec fn section_of(t: ThreadStatusView, now: i64, stale_after: i64) -> Section {
    if running_now(t) {
        Section::Running
    } else if scheduled_for_later(t, now) {
        Section::Scheduled
    } else if active_waiting(t, now, stale_after) {
        Section::ActiveThreads
    } else if recently_completed(t) {
        Section::RecentlyCompleted
    } else {
        Section::Uncategorized
    }
}

fn section(t: &ThreadStatusView, now_unix: i64, stale_after_secs: i64) -> (r: Section)
    ensures
        r == section_of(*t, now_unix, stale_after_secs),
{
    if is_running_now(t) {
        Section::Running
    } else if is_scheduled(t, now_unix) {
        Section::Scheduled
    } else if is_active_waiting(t, now_unix, stale_after_secs) {
        Section::ActiveThreads
    } else if is_recently_completed(t) {
        Section::RecentlyCompleted
    } else {
        Section::Uncategorized
    }
}

/// The view of an optional borrowed string.
pub open spec fn drill_text(drill: Option<&str>) -> Option<Seq<char>> {
    match drill {
        Some(s) => Some(s@),
        None => None,
    }
}

/// Whether the batch filter lets a row through.
pub open spec fn in_drill(t: ThreadStatusView, drill: Option<Seq<char>>) -> bool {
    drill is Some ==> text::opt_text(t.batch_id) == drill
}

fn is_in_drill(t: &ThreadStatusView, drill_batch: Option<&str>) -> (r: bool)
    ensures
        r == in_drill(*t, drill_text(drill_batch)),
{
    match drill_batch {
        Some(batch) => opt_is(&t.batch_id, batch),
        None => true,
    }
}

/// The indices of the rows that stand in `sec`, in row order.
pub open spec fn section_rows(
    rows: Seq<ThreadStatusView>,
    drill: Option<Seq<char>>,
    now: i64,
    stale_after: i64,
    sec: Section,
) -> Seq<usize>
    decreases rows.len(),
{
    if rows.len() == 0 {
        seq![]
    } else {
        let s = section_rows(rows.drop_last(), drill, now, stale_after, sec);
        if in_drill(rows.last(), drill) && section_of(rows.last(), now, stale_after) == sec {
            s.push((rows.len() - 1) as usize)
        } else {
            s
        }
    }
}

/// A row index with the time of its last update; the newest comes first.
pub struct NewestFirst {
    pub at: i64,
    pub idx: usize,
}

impl View for NewestFirst {
    type V = NewestFirst;

    open spec fn view(&self) -> NewestFirst {
        *self
    }
}

impl Order for NewestFirst {
    open spec fn before(self, other: Self) -> bool {
        self.at > other.at
    }

    proof fn before_asymmetric(a: Self, b: Self) {
    }

    proof fn not_before_transitive(a: Self, b: Self, c: Self) {
    }
}

impl Ranked for NewestFirst {
    fn is_before(&self, other: &Self) -> (r: bool) {
        self.at > other.at
    }
}

/// A row index with the time it becomes eligible; the soonest comes first.
pub struct SoonestFirst {
    pub at: i64,
    pub idx: usize,
}

impl View for SoonestFirst {
    type V = SoonestFirst;

    open spec fn view(&self) -> SoonestFirst {
        *self
    }
}

impl Order for SoonestFirst {
    open spec fn before(self, other: Self) -> bool {
        self.at < other.at
    }

    proof fn before_asymmetric(a: Self, b: Self) {
    }

    proof fn not_before_transitive(a: Self, b: Self, c: Self) {
    }
}

impl Ranked for SoonestFirst {
    fn is_before(&self, other: &Self) -> (r: bool) {
        self.at < other.at
    }
}

/// When the row at `i` was last updated; 0 where there is no such row.
pub open spec fn updated_at(rows: Seq<ThreadStatusView>, i: usize) -> i64 {
    if i < rows.len() {
        rows[i as int].thread_updated_at
    } else {
        0
    }
}

/// When the row at `i` becomes eligible; the latest time where that is unknown.
pub open spec fn eligible_at(rows: Seq<ThreadStatusView>, i: usize) -> i64 {
    if i < rows.len() && rows[i as int].eligible_at is Some {
        rows[i as int].eligible_at->0
    } else {
        i64::MAX
    }
}

/// `idx` with the latest update first; ties keep their order.
pub open spec fn by_updated(rows: Seq<ThreadStatusView>, idx: Seq<usize>) -> Seq<usize> {
    sort::stable_sorted(idx.map_values(|i: usize| NewestFirst { at: updated_at(rows, i), idx: i })).map_values(
        |e: NewestFirst| e.idx)
}

/// `idx` with the soonest eligible first; ties keep their order.
pub open spec fn by_eligible(rows: Seq<ThreadStatusView>, idx: Seq<usize>) -> Seq<usize> {
    sort::stable_sorted(idx.map_values(|i: usize| SoonestFirst { at: eligible_at(rows, i), idx: i })).map_values(
        |e: SoonestFirst| e.idx)
}

/// Puts the latest update first.
pub fn sort_indices_by_updated(rows: &[ThreadStatusView], indices: &mut Vec<usize>)
    ensures
        final(indices)@ == by_updated(rows@, old(indices)@),
{
    let mut keyed: Vec<NewestFirst> = Vec::new();
    let mut i: usize = 0;
    let ghost input = indices@;
    let ghost want = input.map_values(
        |i: usize| NewestFirst { at: updated_at(rows@, i), idx: i },
    );
    while i < indices.len()
        invariant
            i <= indices@.len(),
            indices@ == input,
            want == input.map_values(
                |i: usize| NewestFirst { at: updated_at(rows@, i), idx: i },
            ),
            keyed@ == want.take(i as int),
        decreases indices@.len() - i,
    {
        let k: usize = indices[i];
        let at: i64 = if k < rows.len() {
            rows[k].thread_updated_at
        } else {
            0
        };
        keyed.push(NewestFirst { at, idx: k });
        i += 1;
    }
    assert(sort::views(keyed@) =~= want);
    let sorted: Vec<NewestFirst> = stable_sort(keyed);
    assert(sort::views(sorted@) =~= sorted@);
    let mut out: Vec<usize> = Vec::new();
    let mut j: usize = 0;
    while j < sorted.len()
        invariant
            j <= sorted@.len(),
            out@ == sorted@.map_values(|e: NewestFirst| e.idx).take(j as int),
        decreases sorted@.len() - j,
    {
        out.push(sorted[j].idx);
        j += 1;
    }
    assert(out@ =~= sorted@.map_values(|e: NewestFirst| e.idx));
    *indices = out;
}

/// Puts the soonest eligible first.
pub fn sort_scheduled_by_eligible_at(rows: &[ThreadStatusView], indices: &mut Vec<usize>)
    ensures
        final(indices)@ == by_eligible(rows@, old(indices)@),
{
    let mut keyed: Vec<SoonestFirst> = Vec::new();
    let mut i: usize = 0;
    let ghost input = indices@;
    let ghost want = input.map_values(
        |i: usize| SoonestFirst { at: eligible_at(rows@, i), idx: i },
    );
    while i < indices.len()
        invariant
            i <= indices@.len(),
            indices@ == input,
            want == input.map_values(
                |i: usize| SoonestFirst { at: eligible_at(rows@, i), idx: i },
            ),
            keyed@ == want.take(i as int),
        decreases indices@.len() - i,
    {
        let k: usize = indices[i];
        let at: i64 = if k < rows.len() {
            match rows[k].eligible_at {
                Some(t) => t,
                None => i64::MAX,
            }
        } else {
            i64::MAX
        };
        keyed.push(SoonestFirst { at, idx: k });
        i += 1;
    }
    assert(sort::views(keyed@) =~= want);
    let sorted: Vec<SoonestFirst> = stable_sort(keyed);
    assert(sort::views(sorted@) =~= sorted@);
    let mut out: Vec<usize> = Vec::new();
    let mut j: usize = 0;
    while j < sorted.len()
        invariant
            j <= sorted@.len(),
            out@ == sorted@.map_values(|e: SoonestFirst| e.idx).take(j as int),
        decreases sorted@.len() - j,
    {
        out.push(sorted[j].idx);
        j += 1;
    }
    assert(out@ =~= sorted@.map_values(|e: SoonestFirst| e.idx));
    *indices = out;
}

// ── Batches ──────────────────────────────────────────────────────────────────

/// Progress of one batch.
#[derive(Debug, Clone)]
pub struct BatchProgress {
    pub batch_id: String,
    pub completed: usize,
    pub total: usize,
    pub active: usize,
    pub failed: usize,
    pub oldest_active_updated_at: Option<i64>,
    pub latest_updated_at: i64,
}

/// What a batch's progress says.
pub struct BatchView {
    pub batch_id: Seq<char>,
    pub completed: nat,
    pub total: nat,
    pub active: nat,
    pub failed: nat,
    pub oldest_active_updated_at: Option<i64>,
    pub latest_updated_at: i64,
}

impl View for BatchProgress {
    type V = BatchView;

    open spec fn view(&self) -> BatchView {
        BatchView {
            batch_id: self.batch_id@,
            completed: self.completed as nat,
            total: self.total as nat,
            active: self.active as nat,
            failed: self.failed as nat,
            oldest_active_updated_at: self.oldest_active_updated_at,
            latest_updated_at: self.latest_updated_at,
        }
    }
}

/// The latest batch comes first; of equally late ones the smaller id.
impl Order for BatchView {
    open spec fn before(self, other: Self) -> bool {
        self.latest_updated_at > other.latest_updated_at || (self.latest_updated_at
            == other.latest_updated_at && text::text_less(self.batch_id, other.batch_id))
    }

    proof fn before_asymmetric(a: Self, b: Self) {
        if text::text_less(a.batch_id, b.batch_id) && text::text_less(b.batch_id, a.batch_id) {
            text::lemma_less_transitive(a.batch_id, b.batch_id, a.batch_id);
            text::lemma_less_irreflexive(a.batch_id);
        }
    }

    proof fn not_before_transitive(a: Self, b: Self, c: Self) {
        if c.before(a) && a.latest_updated_at == b.latest_updated_at && b.latest_updated_at
            == c.latest_updated_at {
            text::lemma_less_total(a.batch_id, b.batch_id);
            text::lemma_less_total(b.batch_id, c.batch_id);
            if text::text_less(a.batch_id, b.batch_id) && text::text_less(b.batch_id, c.batch_id) {
                text::lemma_less_transitive(a.batch_id, b.batch_id, c.batch_id);
                text::lemma_less_transitive(c.batch_id, a.batch_id, c.batch_id);
                text::lemma_less_irreflexive(c.batch_id);
            }
        }
    }
}

impl Ranked for BatchProgress {
    fn is_before(&self, other: &Self) -> (r: bool) {
        self.latest_updated_at > other.latest_updated_at || (self.latest_updated_at
            == other.latest_updated_at && less(self.batch_id.as_str(), other.batch_id.as_str()))
    }
}

impl BatchProgress {
    /// A copy.
    pub fn copy(&self) -> (r: BatchProgress)
        ensures
            r@ == self@,
    {
        BatchProgress {
            batch_id: self.batch_id.clone(),
            completed: self.completed,
            total: self.total,
            active: self.active,
            failed: self.failed,
            oldest_active_updated_at: self.oldest_active_updated_at,
            latest_updated_at: self.latest_updated_at,
        }
    }
}

/// The batch of a row; an empty id is no batch.
pub open spec fn batch_of(t: ThreadStatusView) -> Option<Seq<char>> {
    if t.batch_id is Some && t.batch_id->0@.len() > 0 {
        Some(t.batch_id->0@)
    } else {
        None
    }
}

/// The row counts as completed.
pub open spec fn counts_completed(t: ThreadStatusView) -> bool {
    recently_completed(t)
}

/// The row counts as failed.
pub open spec fn counts_failed(t: ThreadStatusView) -> bool {
    let es = text::opt_text(t.execution_status);
    t.thread_status@ == "Failed"@ || es == Some("failed"@) || es == Some("timed_out"@) || es
        == Some("crashed"@)
}

/// The row counts as active.
pub open spec fn counts_active(t: ThreadStatusView, now: i64, stale_after: i64) -> bool {
    running_now(t) || active_waiting(t, now, stale_after)
}

/// A batch's progress with one more row.
pub open spec fn with_row(b: BatchView, t: ThreadStatusView, now: i64, stale_after: i64) -> BatchView {
    BatchView {
        batch_id: b.batch_id,
        completed: b.completed + if counts_completed(t) { 1nat } else { 0nat },
        total: b.total + 1,
        active: b.active + if counts_active(t, now, stale_after) { 1nat } else { 0nat },
        failed: b.failed + if counts_failed(t) { 1nat } else { 0nat },
        oldest_active_updated_at: if counts_active(t, now, stale_after) {
            match b.oldest_active_updated_at {
                Some(o) if o <= t.thread_updated_at => Some(o),
                _ => Some(t.thread_updated_at),
            }
        } else {
            b.oldest_active_updated_at
        },
        latest_updated_at: if t.thread_updated_at > b.latest_updated_at {
            t.thread_updated_at
        } else {
            b.latest_updated_at
        },
    }
}

/// The progress of the batch `id` over `rows`.
pub open spec fn tally(
    rows: Seq<ThreadStatusView>,
    id: Seq<char>,
    now: i64,
    stale_after: i64,
) -> BatchView
    decreases rows.len(),
{
    if rows.len() == 0 {
        BatchView {
            batch_id: id,
            completed: 0,
            total: 0,
            active: 0,
            failed: 0,
            oldest_active_updated_at: None,
            latest_updated_at: 0,
        }
    } else {
        let b = tally(rows.drop_last(), id, now, stale_after);
        if batch_of(rows.last()) == Some(id) {
            with_row(b, rows.last(), now, stale_after)
        } else {
            b
        }
    }
}

/// No count of a tally exceeds its total, nor the total the number of rows.
pub proof fn law_tally_counts(rows: Seq<ThreadStatusView>, id: Seq<char>, now: i64, stale_after: i64)
    ensures
        tally(rows, id, now, stale_after).batch_id == id,
        tally(rows, id, now, stale_after).completed <= tally(rows, id, now, stale_after).total,
        tally(rows, id, now, stale_after).failed <= tally(rows, id, now, stale_after).total,
        tally(rows, id, now, stale_after).active <= tally(rows, id, now, stale_after).total,
        tally(rows, id, now, stale_after).total <= rows.len(),
        tally(rows, id, now, stale_after).active > 0 <==> tally(
            rows,
            id,
            now,
            stale_after,
        ).oldest_active_updated_at is Some,
    decreases rows.len(),
{
    if rows.len() > 0 {
        law_tally_counts(rows.drop_last(), id, now, stale_after);
    }
}

/// The ids of the batches that occur in `rows`, each once, as they first occur.
pub open spec fn batch_ids(rows: Seq<ThreadStatusView>) -> Seq<Seq<char>>
    decreases rows.len(),
{
    if rows.len() == 0 {
        seq![]
    } else {
        let ids = batch_ids(rows.drop_last());
        match batch_of(rows.last()) {
            Some(id) if !ids.contains(id) => ids.push(id),
            _ => ids,
        }
    }
}

/// Every id occurs once, and exactly the batches of the rows occur.
pub proof fn lemma_batch_ids(rows: Seq<ThreadStatusView>)
    ensures
        batch_ids(rows).no_duplicates(),
        forall|id: Seq<char>|
            #[trigger] batch_ids(rows).contains(id) <==> exists|i: int|
                0 <= i < rows.len() && #[trigger] batch_of(rows[i]) == Some(id),
        batch_ids(rows).len() <= rows.len(),
    decreases rows.len(),
{
    if rows.len() > 0 {
        let prev = rows.drop_last();
        lemma_batch_ids(prev);
        let ids = batch_ids(prev);
        let all = batch_ids(rows);
        assert forall|id: Seq<char>|
            #[trigger] all.contains(id) <==> exists|i: int|
                0 <= i < rows.len() && #[trigger] batch_of(rows[i]) == Some(id) by {
            if all.contains(id) {
                if ids.contains(id) {
                    let i = choose|i: int|
                        0 <= i < prev.len() && #[trigger] batch_of(prev[i]) == Some(id);
                    assert(batch_of(rows[i]) == Some(id));
                } else {
                    assert(batch_of(rows[rows.len() - 1]) == Some(id));
                }
            }
            if exists|i: int| 0 <= i < rows.len() && #[trigger] batch_of(rows[i]) == Some(id) {
                let i = choose|i: int|
                    0 <= i < rows.len() && #[trigger] batch_of(rows[i]) == Some(id);
                if i < prev.len() {
                    assert(batch_of(prev[i]) == Some(id));
                    assert(ids.contains(id));
                    let k = choose|k: int| 0 <= k < ids.len() && ids[k] == id;
                    assert(all[k] == id);
                } else if !ids.contains(id) {
                    assert(all[ids.len() as int] == id);
                } else {
                    let k = choose|k: int| 0 <= k < ids.len() && ids[k] == id;
                    assert(all[k] == id);
                }
            }
        }
    }
}

/// The progress of every batch of `rows`, the latest first.
pub open spec fn batches_of(
    rows: Seq<ThreadStatusView>,
    now: i64,
    stale_after: i64,
) -> Seq<BatchView> {
    sort::stable_sorted(batch_ids(rows).map_values(|id: Seq<char>| tally(rows, id, now, stale_after)))
}

fn find_batch(out: &Vec<BatchProgress>, id: &str) -> (r: usize)
    ensures
        r <= out@.len(),
        r < out@.len() ==> out@[r as int].batch_id@ == id@,
        forall|k: int| 0 <= k < r ==> (#[trigger] out@[k]).batch_id@ != id@,
{
    let mut i: usize = 0;
    while i < out.len()
        invariant
            i <= out@.len(),
            forall|k: int| 0 <= k < i ==> (#[trigger] out@[k]).batch_id@ != id@,
        decreases out@.len() - i,
    {
        if str_eq(out[i].batch_id.as_str(), id) {
            return i;
        }
        i += 1;
    }
    i
}

/// The tallies of the batches in order of their ids' first occurrence.
spec fn tallies(rows: Seq<ThreadStatusView>, now: i64, stale_after: i64) -> Seq<BatchView> {
    batch_ids(rows).map_values(|id: Seq<char>| tally(rows, id, now, stale_after))
}

/// A further row changes the tally of its own batch only.
proof fn lemma_tallies_step(rows: Seq<ThreadStatusView>, now: i64, stale_after: i64)
    requires
        rows.len() > 0,
    ensures
        batch_of(rows.last()) is None ==> tallies(rows, now, stale_after) == tallies(
            rows.drop_last(),
            now,
            stale_after,
        ),
        forall|k: int|
            0 <= k < batch_ids(rows.drop_last()).len() && batch_of(rows.last()) == Some(
                batch_ids(rows.drop_last())[k],
            ) ==> tallies(rows, now, stale_after) == #[trigger] tallies(
                rows.drop_last(),
                now,
                stale_after,
            ).update(
                k,
                with_row(
                    tallies(rows.drop_last(), now, stale_after)[k],
                    rows.last(),
                    now,
                    stale_after,
                ),
            ),
        batch_of(rows.last()) is Some && !batch_ids(rows.drop_last()).contains(
            batch_of(rows.last())->0,
        ) ==> tallies(rows, now, stale_after) == tallies(rows.drop_last(), now, stale_after).push(
            with_row(
                tally(rows.drop_last(), batch_of(rows.last())->0, now, stale_after),
                rows.last(),
                now,
                stale_after,
            ),
        ),
{
    let prev = rows.drop_last();
    let ids = batch_ids(prev);
    let old_t = tallies(prev, now, stale_after);
    let new_t = tallies(rows, now, stale_after);
    lemma_batch_ids(prev);
    if batch_of(rows.last()) is None {
        assert(new_t =~= old_t);
    } else if ids.contains(batch_of(rows.last())->0) {
        assert forall|k: int|
            0 <= k < ids.len() && batch_of(rows.last()) == Some(ids[k]) implies new_t
            == #[trigger] old_t.update(k, with_row(old_t[k], rows.last(), now, stale_after)) by {
            assert(new_t =~= old_t.update(k, with_row(old_t[k], rows.last(), now, stale_after)));
        }
    } else {
        assert forall|k: int| 0 <= k < ids.len() implies batch_of(rows.last()) != Some(ids[k]) by {
            assert(ids.contains(ids[k]));
        }
        assert(new_t =~= old_t.push(
            with_row(
                tally(prev, batch_of(rows.last())->0, now, stale_after),
                rows.last(),
                now,
                stale_after,
            ),
        ));
    }
}

/// A batch without a row has the empty tally.
proof fn lemma_tally_absent(rows: Seq<ThreadStatusView>, id: Seq<char>, now: i64, stale_after: i64)
    requires
        !batch_ids(rows).contains(id),
    ensures
        tally(rows, id, now, stale_after) == tally(seq![], id, now, stale_after),
    decreases rows.len(),
{
    if rows.len() > 0 {
        lemma_batch_ids(rows);
        lemma_batch_ids(rows.drop_last());
        assert(batch_of(rows[rows.len() - 1]) != Some(id));
        if batch_ids(rows.drop_last()).contains(id) {
            let k = choose|k: int|
                0 <= k < batch_ids(rows.drop_last()).len() && batch_ids(rows.drop_last())[k] == id;
            assert(batch_ids(rows)[k] == id);
        }
        lemma_tally_absent(rows.drop_last(), id, now, stale_after);
    }
}

fn add_row(b: &BatchProgress, row: &ThreadStatusView, now_unix: i64, stale_after_secs: i64) -> (r:
    BatchProgress)
    requires
        b.total < usize::MAX,
        b.completed <= b.total,
        b.active <= b.total,
        b.failed <= b.total,
    ensures
        r@ == with_row(b@, *row, now_unix, stale_after_secs),
{
    let done: bool = str_eq(row.thread_status.as_str(), "Completed") || opt_is(
        &row.execution_status,
        "completed",
    );
    let bad: bool = str_eq(row.thread_status.as_str(), "Failed") || opt_is(
        &row.execution_status,
        "failed",
    ) || opt_is(&row.execution_status, "timed_out") || opt_is(&row.execution_status, "crashed");
    let busy: bool = is_running_now(row) || is_active_waiting(row, now_unix, stale_after_secs);
    BatchProgress {
        batch_id: b.batch_id.clone(),
        completed: if done {
            b.completed + 1
        } else {
            b.completed
        },
        total: b.total + 1,
        active: if busy {
            b.active + 1
        } else {
            b.active
        },
        failed: if bad {
            b.failed + 1
        } else {
            b.failed
        },
        oldest_active_updated_at: if busy {
            match b.oldest_active_updated_at {
                Some(o) => if o <= row.thread_updated_at {
                    Some(o)
                } else {
                    Some(row.thread_updated_at)
                },
                None => Some(row.thread_updated_at),
            }
        } else {
            b.oldest_active_updated_at
        },
        latest_updated_at: if row.thread_updated_at > b.latest_updated_at {
            row.thread_updated_at
        } else {
            b.latest_updated_at
        },
    }
}

/// The progress of every batch, the latest first.
pub fn batch_progress(rows: &[ThreadStatusView], now_unix: i64, stale_after_secs: i64) -> (r: Vec<
    BatchProgress,
>)
    ensures
        sort::views(r@) == batches_of(rows@, now_unix, stale_after_secs),
{
    let mut out: Vec<BatchProgress> = Vec::new();
    let mut i: usize = 0;
    assert(sort::views(out@) =~= tallies(rows@.take(0), now_unix, stale_after_secs));
    while i < rows.len()
        invariant
            i <= rows@.len(),
            sort::views(out@) == tallies(rows@.take(i as int), now_unix, stale_after_secs),
        decreases rows@.len() - i,
    {
        let ghost prev = rows@.take(i as int);
        let ghost next = rows@.take(i + 1);
        let ghost before = sort::views(out@);
        assert(next.drop_last() =~= prev);
        assert(next.last() == rows@[i as int]);
        proof {
            lemma_tallies_step(next, now_unix, stale_after_secs);
            lemma_batch_ids(prev);
            assert(before.len() == out@.len() && before.len() == batch_ids(prev).len());
            assert forall|k: int| 0 <= k < out@.len() implies (#[trigger] out@[k]).batch_id@
                == batch_ids(prev)[k] && out@[k].total <= i && out@[k].completed <= out@[k].total
                && out@[k].active <= out@[k].total && out@[k].failed <= out@[k].total by {
                law_tally_counts(prev, batch_ids(prev)[k], now_unix, stale_after_secs);
                assert(before[k] == out@[k]@);
                assert(before[k] == tally(
                    prev,
                    batch_ids(prev)[k],
                    now_unix,
                    stale_after_secs,
                ));
            }
        }
        if let Some(id) = &rows[i].batch_id {
            if !id.as_str().is_empty() {
                let k: usize = find_batch(&out, id.as_str());
                if k < out.len() {
                    let b: BatchProgress = add_row(&out[k], &rows[i], now_unix, stale_after_secs);
                    proof {
                        assert(batch_ids(prev)[k as int] == id@);
                        assert(batch_of(next.last()) == Some(id@));
                        assert(b@ == with_row(
                            before[k as int],
                            next.last(),
                            now_unix,
                            stale_after_secs,
                        ));
                        assert(tallies(next, now_unix, stale_after_secs) == before.update(
                            k as int,
                            b@,
                        ));
                    }
                    out.set(k, b);
                    assert(sort::views(out@) =~= before.update(k as int, b@));
                } else {
                    let fresh: BatchProgress = BatchProgress {
                        batch_id: id.clone(),
                        completed: 0,
                        total: 0,
                        active: 0,
                        failed: 0,
                        oldest_active_updated_at: None,
                        latest_updated_at: 0,
                    };
                    proof {
                        if batch_ids(prev).contains(id@) {
                            let w = choose|w: int|
                                0 <= w < batch_ids(prev).len() && batch_ids(prev)[w] == id@;
                            assert(out@[w].batch_id@ == id@);
                        }
                        lemma_tally_absent(prev, id@, now_unix, stale_after_secs);
                    }
                    let b: BatchProgress = add_row(&fresh, &rows[i], now_unix, stale_after_secs);
                    assert(tallies(next, now_unix, stale_after_secs) == before.push(b@));
                    out.push(b);
                    assert(sort::views(out@) =~= before.push(b@));
                }
            }
        }
        i += 1;
    }
    assert(rows@.take(i as int) =~= rows@);
    stable_sort(out)
}

// ── Classification ───────────────────────────────────────────────────────────

/// The rows by section, and the batches.
#[derive(Debug)]
pub struct ClassifiedRows {
    pub running: Vec<usize>,
    pub scheduled: Vec<usize>,
    pub active_threads: Vec<usize>,
    pub uncategorized: Vec<usize>,
    pub recently_completed: Vec<usize>,
    pub active_batches: Vec<BatchProgress>,
    pub batches: Vec<BatchProgress>,
}

/// What a classification says.
pub struct Classified {
    pub running: Seq<usize>,
    pub scheduled: Seq<usize>,
    pub active_threads: Seq<usize>,
    pub uncategorized: Seq<usize>,
    pub recently_completed: Seq<usize>,
    pub active_batches: Seq<BatchView>,
    pub batches: Seq<BatchView>,
}

impl View for ClassifiedRows {
    type V = Classified;

    open spec fn view(&self) -> Classified {
        Classified {
            running: self.running@,
            scheduled: self.scheduled@,
            active_threads: self.active_threads@,
            uncategorized: self.uncategorized@,
            recently_completed: self.recently_completed@,
            active_batches: sort::views(self.active_batches@),
            batches: sort::views(self.batches@),
        }
    }
}

/// The batches of `b` that have active rows.
pub open spec fn busy_batches(b: Seq<BatchView>) -> Seq<BatchView>
    decreases b.len(),
{
    if b.len() == 0 {
        seq![]
    } else if b.last().active > 0 {
        busy_batches(b.drop_last()).push(b.last())
    } else {
        busy_batches(b.drop_last())
    }
}

/// The rows that pass the batch filter, by section, each section sorted; the
/// batches only without a filter.
pub open spec fn classified(
    rows: Seq<ThreadStatusView>,
    drill: Option<Seq<char>>,
    now: i64,
    stale_after: i64,
) -> Classified {
    let batches = if drill is None {
        batches_of(rows, now, stale_after)
    } else {
        seq![]
    };
    Classified {
        running: by_updated(rows, section_rows(rows, drill, now, stale_after, Section::Running)),
        scheduled: by_eligible(rows, section_rows(rows, drill, now, stale_after, Section::Scheduled)),
        active_threads: by_updated(
            rows,
            section_rows(rows, drill, now, stale_after, Section::ActiveThreads),
        ),
        uncategorized: by_updated(
            rows,
            section_rows(rows, drill, now, stale_after, Section::Uncategorized),
        ),
        recently_completed: by_updated(
            rows,
            section_rows(rows, drill, now, stale_after, Section::RecentlyCompleted),
        ),
        active_batches: busy_batches(batches),
        batches,
    }
}

fn busy_of(b: &Vec<BatchProgress>) -> (r: Vec<BatchProgress>)
    ensures
        sort::views(r@) == busy_batches(sort::views(b@)),
{
    let mut out: Vec<BatchProgress> = Vec::new();
    let mut i: usize = 0;
    let ghost all = sort::views(b@);
    assert(sort::views(out@) =~= busy_batches(all.take(0)));
    while i < b.len()
        invariant
            i <= b@.len(),
            all == sort::views(b@),
            sort::views(out@) == busy_batches(all.take(i as int)),
        decreases b@.len() - i,
    {
        let ghost before = sort::views(out@);
        assert(all.take(i + 1).drop_last() =~= all.take(i as int));
        assert(all.take(i + 1).last() == b@[i as int]@);
        if b[i].active > 0 {
            out.push(b[i].copy());
            assert(sort::views(out@) =~= before.push(b@[i as int]@));
        }
        i += 1;
    }
    assert(all.take(i as int) =~= all);
    out
}

/// Sorts the rows that pass the batch filter into the sections.
pub fn classify_rows(
    rows: &[ThreadStatusView],
    drill_batch: Option<&str>,
    now_unix: i64,
    stale_after_secs: i64,
) -> (r: ClassifiedRows)
    ensures
        r@ == classified(rows@, drill_text(drill_batch), now_unix, stale_after_secs),
{
    let ghost drill = drill_text(drill_batch);
    let mut running: Vec<usize> = Vec::new();
    let mut scheduled: Vec<usize> = Vec::new();
    let mut active_threads: Vec<usize> = Vec::new();
    let mut uncategorized: Vec<usize> = Vec::new();
    let mut recently: Vec<usize> = Vec::new();
    let mut i: usize = 0;
    while i < rows.len()
        invariant
            i <= rows@.len(),
            drill == drill_text(drill_batch),
            running@ == section_rows(
                rows@.take(i as int),
                drill,
                now_unix,
                stale_after_secs,
                Section::Running,
            ),
            scheduled@ == section_rows(
                rows@.take(i as int),
                drill,
                now_unix,
                stale_after_secs,
                Section::Scheduled,
            ),
            active_threads@ == section_rows(
                rows@.take(i as int),
                drill,
                now_unix,
                stale_after_secs,
                Section::ActiveThreads,
            ),
            uncategorized@ == section_rows(
                rows@.take(i as int),
                drill,
                now_unix,
                stale_after_secs,
                Section::Uncategorized,
            ),
            recently@ == section_rows(
                rows@.take(i as int),
                drill,
                now_unix,
                stale_after_secs,
                Section::RecentlyCompleted,
            ),
        decreases rows@.len() - i,
    {
        assert(rows@.take(i + 1).drop_last() =~= rows@.take(i as int));
        assert(rows@.take(i + 1).last() == rows@[i as int]);
        if is_in_drill(&rows[i], drill_batch) {
            match section(&rows[i], now_unix, stale_after_secs) {
                Section::Running => running.push(i),
                Section::Scheduled => scheduled.push(i),
                Section::ActiveThreads => active_threads.push(i),
                Section::RecentlyCompleted => recently.push(i),
                Section::Uncategorized => uncategorized.push(i),
            }
        }
        i += 1;
    }
    assert(rows@.take(i as int) =~= rows@);
    sort_indices_by_updated(rows, &mut running);
    sort_scheduled_by_eligible_at(rows, &mut scheduled);
    sort_indices_by_updated(rows, &mut active_threads);
    sort_indices_by_updated(rows, &mut uncategorized);
    sort_indices_by_updated(rows, &mut recently);
    let batches: Vec<BatchProgress> = match drill_batch {
        Some(_) => Vec::new(),
        None => batch_progress(rows, now_unix, stale_after_secs),
    };
    assert(drill is Some ==> sort::views(batches@) =~= seq![]);
    let active_batches: Vec<BatchProgress> = busy_of(&batches);
    ClassifiedRows {
        running,
        scheduled,
        active_threads,
        uncategorized,
        recently_completed: recently,
        active_batches,
        batches,
    }
}

/// The first `limit` items of `s`.
pub open spec fn capped<A>(s: Seq<A>, limit: nat) -> Seq<A> {
    if s.len() <= limit {
        s
    } else {
        s.take(limit as int)
    }
}

/// How many recently completed threads are shown.
pub fn capped_recently_completed(indices: &Vec<usize>) -> (r: Vec<usize>)
    ensures
        r@ == capped(indices@, RECENTLY_COMPLETED_LIMIT as nat),
{
    let mut out: Vec<usize> = Vec::new();
    let mut i: usize = 0;
    while i < indices.len() && i < RECENTLY_COMPLETED_LIMIT
        invariant
            i <= indices@.len(),
            i <= RECENTLY_COMPLETED_LIMIT,
            out@ == indices@.take(i as int),
        decreases indices@.len() - i,
    {
        out.push(indices[i]);
        i += 1;
    }
    assert(i == indices@.len() ==> indices@.take(i as int) =~= indices@);
    out
}

/// The batches that a section shows.
pub fn capped_batches(batches: &Vec<BatchProgress>) -> (r: Vec<BatchProgress>)
    ensures
        sort::views(r@) == capped(sort::views(batches@), OPS_BATCH_SECTION_LIMIT as nat),
{
    let mut out: Vec<BatchProgress> = Vec::new();
    let mut i: usize = 0;
    let ghost all = sort::views(batches@);
    assert(sort::views(out@) =~= all.take(0));
    while i < batches.len() && i < OPS_BATCH_SECTION_LIMIT
        invariant
            i <= batches@.len(),
            i <= OPS_BATCH_SECTION_LIMIT,
            all == sort::views(batches@),
            sort::views(out@) == all.take(i as int),
        decreases batches@.len() - i,
    {
        let ghost before = sort::views(out@);
        out.push(batches[i].copy());
        assert(sort::views(out@) =~= before.push(batches@[i as int]@));
        assert(sort::views(out@) =~= all.take(i + 1));
        i += 1;
    }
    assert(i == batches@.len() ==> all.take(i as int) =~= all);
    out
}

// ── Merge queue ──────────────────────────────────────────────────────────────

/// Queued, claimed or executing.
pub open spec fn merge_active(op: MergeOperation) -> bool {
    op.status@ == "queued"@ || op.status@ == "claimed"@ || op.status@ == "executing"@
}

/// When a merge finished; when it was queued where that is unknown.
pub open spec fn merge_finish(op: MergeOperation) -> i64 {
    match op.finished_at {
        Some(t) => t,
        None => op.queued_at,
    }
}

/// `b` completed the merge of `a`'s thread into `a`'s target, no earlier than
/// `a` finished.
pub open spec fn supersedes(b: MergeOperation, a: MergeOperation) -> bool {
    b.status@ == "completed"@ && b.thread_id@ == a.thread_id@ && b.target_branch@
        == a.target_branch@ && merge_finish(b) >= merge_finish(a)
}

/// A finished merge that is still shown: within its time window, and not a
/// failure that a later completion has made good.
pub open spec fn merge_recent(ops: Seq<MergeOperation>, op: MergeOperation, now: i64) -> bool {
    if op.status@ == "failed"@ {
        now - merge_finish(op) < MERGE_FAILED_WINDOW_SECS && !exists|j: int|
            0 <= j < ops.len() && supersedes(#[trigger] ops[j], op)
    } else if op.status@ == "completed"@ || op.status@ == "cancelled"@ {
        now - merge_finish(op) < MERGE_TERMINAL_WINDOW_SECS
    } else {
        false
    }
}

/// The indices of the active merges, in order.
pub open spec fn active_merges(ops: Seq<MergeOperation>) -> Seq<usize>
    decreases ops.len(),
{
    if ops.len() == 0 {
        seq![]
    } else if merge_active(ops.last()) {
        active_merges(ops.drop_last()).push((ops.len() - 1) as usize)
    } else {
        active_merges(ops.drop_last())
    }
}

/// The first `n` merges that are finished and still shown, with the time they finished.
pub open spec fn recent_merges(ops: Seq<MergeOperation>, now: i64, n: nat) -> Seq<NewestFirst>
    decreases n,
{
    if n == 0 {
        seq![]
    } else {
        let rest = recent_merges(ops, now, (n - 1) as nat);
        let op = ops[n - 1];
        if !merge_active(op) && merge_recent(ops, op, now) {
            rest.push(NewestFirst { at: merge_finish(op), idx: (n - 1) as usize })
        } else {
            rest
        }
    }
}

/// The merges that the queue shows: the active ones in order, and after them
/// the latest of the finished ones.
pub open spec fn visible_merges(ops: Seq<MergeOperation>, now: i64) -> Seq<usize> {
    active_merges(ops) + capped(
        sort::stable_sorted(recent_merges(ops, now, ops.len())).map_values(|e: NewestFirst| e.idx),
        MERGE_QUEUE_RECENT_LIMIT as nat,
    )
}

/// What the sort of the finished merges holds: each is one of `recent_merges`.
proof fn lemma_recent_in_range(ops: Seq<MergeOperation>, now: i64, n: nat)
    requires
        n <= ops.len(),
        ops.len() <= usize::MAX,
    ensures
        forall|e: NewestFirst| #[trigger]
            recent_merges(ops, now, n).contains(e) <==> e.idx < n && !merge_active(
                ops[e.idx as int],
            ) && merge_recent(ops, ops[e.idx as int], now) && e.at == merge_finish(
                ops[e.idx as int],
            ),
    decreases n,
{
    if n > 0 {
        let m = (n - 1) as nat;
        lemma_recent_in_range(ops, now, m);
        let prev = recent_merges(ops, now, m);
        let all = recent_merges(ops, now, n);
        let op = ops[n - 1];
        let here = NewestFirst { at: merge_finish(op), idx: (n - 1) as usize };
        let kept = !merge_active(op) && merge_recent(ops, op, now);
        assert forall|e: NewestFirst| #[trigger]
            all.contains(e) <==> e.idx < n && !merge_active(ops[e.idx as int]) && merge_recent(
                ops,
                ops[e.idx as int],
                now,
            ) && e.at == merge_finish(ops[e.idx as int]) by {
            assert(prev.contains(e) ==> all.contains(e)) by {
                if prev.contains(e) {
                    let k = choose|k: int| 0 <= k < prev.len() && prev[k] == e;
                    assert(all[k] == e);
                }
            }
            if kept {
                assert(all[prev.len() as int] == here);
            }
            if all.contains(e) && !prev.contains(e) {
                let k = choose|k: int| 0 <= k < all.len() && all[k] == e;
                if k < prev.len() {
                    assert(prev[k] == e);
                }
                assert(e == here);
            }
        }
    }
}

proof fn lemma_active_in_range(ops: Seq<MergeOperation>)
    requires
        ops.len() <= usize::MAX,
    ensures
        forall|i: usize| #[trigger]
            active_merges(ops).contains(i) <==> i < ops.len() && merge_active(ops[i as int]),
    decreases ops.len(),
{
    if ops.len() > 0 {
        let prev = ops.drop_last();
        lemma_active_in_range(prev);
        let a = active_merges(prev);
        let all = active_merges(ops);
        assert forall|i: usize| #[trigger]
            all.contains(i) <==> i < ops.len() && merge_active(ops[i as int]) by {
            assert(i < prev.len() ==> prev[i as int] == ops[i as int]);
            if a.contains(i) {
                let k = choose|k: int| 0 <= k < a.len() && a[k] == i;
                assert(all[k] == i);
            }
            if merge_active(ops.last()) {
                assert(all[a.len() as int] == (ops.len() - 1) as usize);
            }
            if all.contains(i) && !a.contains(i) {
                let k = choose|k: int| 0 <= k < all.len() && all[k] == i;
                if k < a.len() {
                    assert(a[k] == i);
                }
            }
        }
    }
}

/// Every index of the visible merges is one of the operations'.
pub proof fn law_visible_merges_in_range(ops: Seq<MergeOperation>, now: i64)
    requires
        ops.len() <= usize::MAX,
    ensures
        forall|k: int|
            0 <= k < visible_merges(ops, now).len() ==> (#[trigger] visible_merges(ops, now)[k])
                < ops.len(),
{
    broadcast use group_to_multiset_ensures;

    let found = recent_merges(ops, now, ops.len());
    let sorted = sort::stable_sorted(found);
    sort::lemma_stable_sorted(found);
    lemma_recent_in_range(ops, now, ops.len());
    lemma_active_in_range(ops);
    let v = visible_merges(ops, now);
    assert forall|k: int| 0 <= k < v.len() implies (#[trigger] v[k]) < ops.len() by {
        let a = active_merges(ops);
        if k < a.len() {
            assert(a.contains(a[k]));
        } else {
            let e = sorted[k - a.len()];
            assert(sorted.contains(e));
            assert(sorted.to_multiset().count(e) > 0);
            assert(found.contains(e));
        }
    }
}

/// An active merge is always shown, and a failed one that a later completion
/// of the same merge has made good never is.
pub proof fn law_merge_queue(ops: Seq<MergeOperation>, now: i64, i: usize, j: int)
    requires
        i < ops.len() <= usize::MAX,
    ensures
        merge_active(ops[i as int]) ==> visible_merges(ops, now).contains(i),
        ops[i as int].status@ == "failed"@ && 0 <= j < ops.len() && supersedes(
            ops[j],
            ops[i as int],
        ) ==> !visible_merges(ops, now).contains(i),
{
    broadcast use group_to_multiset_ensures;

    let found = recent_merges(ops, now, ops.len());
    let sorted = sort::stable_sorted(found);
    sort::lemma_stable_sorted(found);
    lemma_recent_in_range(ops, now, ops.len());
    lemma_active_in_range(ops);
    let a = active_merges(ops);
    let v = visible_merges(ops, now);
    if merge_active(ops[i as int]) {
        assert(a.contains(i));
        let k = choose|k: int| 0 <= k < a.len() && a[k] == i;
        assert(v[k] == i);
    }
    if ops[i as int].status@ == "failed"@ && 0 <= j < ops.len() && supersedes(ops[j], ops[i as int])
        && v.contains(i) {
        let k = choose|k: int| 0 <= k < v.len() && v[k] == i;
        if k < a.len() {
            assert(a.contains(i));
            assert(merge_active(ops[i as int]));
            reveal_strlit("failed");
            reveal_strlit("queued");
            reveal_strlit("claimed");
            reveal_strlit("executing");
            assert("failed"@[0] == 'f' && "queued"@[0] == 'q' && "claimed"@[0] == 'c'
                && "executing"@[0] == 'e');
        } else {
            let e = sorted[k - a.len()];
            assert(sorted.contains(e));
            assert(sorted.to_multiset().count(e) > 0);
            assert(found.contains(e));
        }
    }
}

fn is_merge_active(op: &MergeOperation) -> (r: bool)
    ensures
        r == merge_active(*op),
{
    str_eq(op.status.as_str(), "queued") || str_eq(op.status.as_str(), "claimed") || str_eq(
        op.status.as_str(),
        "executing",
    )
}

fn finish_of(op: &MergeOperation) -> (r: i64)
    ensures
        r == merge_finish(*op),
{
    match op.finished_at {
        Some(t) => t,
        None => op.queued_at,
    }
}

fn is_superseded(ops: &[MergeOperation], op: &MergeOperation) -> (r: bool)
    ensures
        r == exists|j: int| 0 <= j < ops@.len() && supersedes(#[trigger] ops@[j], *op),
{
    let mut j: usize = 0;
    while j < ops.len()
        invariant
            j <= ops@.len(),
            forall|k: int| 0 <= k < j ==> !supersedes(#[trigger] ops@[k], *op),
        decreases ops@.len() - j,
    {
        if str_eq(ops[j].status.as_str(), "completed") && str_eq(
            ops[j].thread_id.as_str(),
            op.thread_id.as_str(),
        ) && str_eq(ops[j].target_branch.as_str(), op.target_branch.as_str()) && finish_of(&ops[j])
            >= finish_of(op) {
            assert(supersedes(ops@[j as int], *op));
            return true;
        }
        j += 1;
    }
    false
}

fn is_merge_recent(ops: &[MergeOperation], op: &MergeOperation, now_unix: i64) -> (r: bool)
    ensures
        r == merge_recent(ops@, *op, now_unix),
{
    let age: i128 = now_unix as i128 - finish_of(op) as i128;
    if str_eq(op.status.as_str(), "failed") {
        age < MERGE_FAILED_WINDOW_SECS as i128 && !is_superseded(ops, op)
    } else if str_eq(op.status.as_str(), "completed") || str_eq(op.status.as_str(), "cancelled") {
        age < MERGE_TERMINAL_WINDOW_SECS as i128
    } else {
        false
    }
}

/// The indices of the merges that the queue shows.
pub fn visible_merge_indices(ops: &[MergeOperation], now_unix: i64) -> (r: Vec<usize>)
    ensures
        r@ == visible_merges(ops@, now_unix),
        forall|k: int| 0 <= k < r@.len() ==> (#[trigger] r@[k]) < ops@.len(),
{
    let mut out: Vec<usize> = Vec::new();
    let mut recent: Vec<NewestFirst> = Vec::new();
    let mut i: usize = 0;
    while i < ops.len()
        invariant
            i <= ops@.len(),
            out@ == active_merges(ops@.take(i as int)),
            recent@ == recent_merges(ops@, now_unix, i as nat),
        decreases ops@.len() - i,
    {
        assert(ops@.take(i + 1).drop_last() =~= ops@.take(i as int));
        assert(ops@.take(i + 1).last() == ops@[i as int]);
        if is_merge_active(&ops[i]) {
            out.push(i);
        } else if is_merge_recent(ops, &ops[i], now_unix) {
            recent.push(NewestFirst { at: finish_of(&ops[i]), idx: i });
        }
        i += 1;
    }
    assert(ops@.take(i as int) =~= ops@);
    let ghost found = recent@;
    assert(sort::views(found) =~= found);
    let sorted: Vec<NewestFirst> = stable_sort(recent);
    assert(sort::views(sorted@) =~= sorted@);
    let ghost order = sorted@.map_values(|e: NewestFirst| e.idx);
    let ghost active = out@;
    let mut j: usize = 0;
    assert(active + order.take(0) =~= active);
    while j < sorted.len() && j < MERGE_QUEUE_RECENT_LIMIT
        invariant
            j <= sorted@.len(),
            j <= MERGE_QUEUE_RECENT_LIMIT,
            order == sorted@.map_values(|e: NewestFirst| e.idx),
            out@ == active + order.take(j as int),
        decreases sorted@.len() - j,
    {
        out.push(sorted[j].idx);
        assert(out@ =~= active + order.take(j + 1));
        j += 1;
    }
    assert(j == sorted@.len() ==> order.take(j as int) =~= order);
    proof {
        law_visible_merges_in_range(ops@, now_unix);
    }
    out
}

/// The merges that the queue shows.
pub fn filter_merge_ops<'a>(ops: &'a [MergeOperation], now_unix: i64) -> (r: Vec<&'a MergeOperation>)
    ensures
        r@.len() == visible_merges(ops@, now_unix).len(),
        forall|k: int|
            0 <= k < r@.len() ==> *(#[trigger] r@[k]) == ops@[visible_merges(
                ops@,
                now_unix,
            )[k] as int],
{
    let idx: Vec<usize> = visible_merge_indices(ops, now_unix);
    let mut out: Vec<&'a MergeOperation> = Vec::new();
    let mut i: usize = 0;
    while i < idx.len()
        invariant
            i <= idx@.len(),
            idx@ == visible_merges(ops@, now_unix),
            forall|k: int| 0 <= k < idx@.len() ==> (#[trigger] idx@[k]) < ops@.len(),
            out@.len() == i,
            forall|k: int| 0 <= k < i ==> *(#[trigger] out@[k]) == ops@[idx@[k] as int],
        decreases idx@.len() - i,
    {
        out.push(&ops[idx[i]]);
        i += 1;
    }
    out
}

// ── Selectable entries ───────────────────────────────────────────────────────

/// Threads as entries.
pub open spec fn thread_targets(idx: Seq<usize>) -> Seq<OpsTarget> {
    idx.map_values(|i: usize| OpsTarget::Thread(i))
}

/// Batches as entries.
pub open spec fn batch_targets(b: Seq<BatchView>) -> Seq<OpsTarget> {
    b.map_values(|b: BatchView| OpsTarget::Batch(b.batch_id))
}

/// Merges as entries.
pub open spec fn merge_targets(ops: Seq<MergeOperation>, idx: Seq<usize>) -> Seq<OpsTarget> {
    idx.map_values(|i: usize| OpsTarget::MergeOp(ops[i as int].id@))
}

/// The selectable entries of the Ops list, top to bottom. Batches and merges
/// occur without a batch filter only, uncategorized threads with one only.
pub open spec fn ops_targets(
    rows: Seq<ThreadStatusView>,
    merge_ops: Seq<MergeOperation>,
    drill: Option<Seq<char>>,
    now: i64,
    stale_after: i64,
) -> Seq<OpsTarget> {
    let c = classified(rows, drill, now, stale_after);
    let limit = OPS_BATCH_SECTION_LIMIT as nat;
    thread_targets(c.running) + thread_targets(c.scheduled) + (if drill is None {
        batch_targets(capped(c.active_batches, limit))
    } else {
        seq![]
    }) + thread_targets(c.active_threads) + (if drill is Some {
        thread_targets(c.uncategorized)
    } else {
        seq![]
    }) + (if drill is None {
        merge_targets(merge_ops, visible_merges(merge_ops, now))
    } else {
        seq![]
    }) + thread_targets(capped(c.recently_completed, RECENTLY_COMPLETED_LIMIT as nat)) + (
    if drill is None {
        batch_targets(capped(c.batches, limit))
    } else {
        seq![]
    })
}

fn push_threads(out: &mut Vec<OpsSelectable>, idx: &Vec<usize>)
    ensures
        sort::views(final(out)@) == sort::views(old(out)@) + thread_targets(idx@),
{
    let ghost start = sort::views(out@);
    let ghost all = thread_targets(idx@);
    let mut i: usize = 0;
    assert(sort::views(out@) =~= start + all.take(0));
    while i < idx.len()
        invariant
            i <= idx@.len(),
            all == thread_targets(idx@),
            sort::views(out@) == start + all.take(i as int),
        decreases idx@.len() - i,
    {
        let ghost before = sort::views(out@);
        out.push(OpsSelectable::Thread(idx[i]));
        assert(sort::views(out@) =~= before.push(all[i as int]));
        assert(sort::views(out@) =~= start + all.take(i + 1));
        i += 1;
    }
    assert(all.take(i as int) =~= all);
}

fn push_batches(out: &mut Vec<OpsSelectable>, b: &Vec<BatchProgress>)
    ensures
        sort::views(final(out)@) == sort::views(old(out)@) + batch_targets(sort::views(b@)),
{
    let ghost start = sort::views(out@);
    let ghost all = batch_targets(sort::views(b@));
    let mut i: usize = 0;
    assert(sort::views(out@) =~= start + all.take(0));
    while i < b.len()
        invariant
            i <= b@.len(),
            all == batch_targets(sort::views(b@)),
            sort::views(out@) == start + all.take(i as int),
        decreases b@.len() - i,
    {
        let ghost before = sort::views(out@);
        out.push(OpsSelectable::Batch(b[i].batch_id.clone()));
        assert(sort::views(out@) =~= before.push(all[i as int]));
        assert(sort::views(out@) =~= start + all.take(i + 1));
        i += 1;
    }
    assert(all.take(i as int) =~= all);
}

fn push_merges(out: &mut Vec<OpsSelectable>, ops: &[MergeOperation], idx: &Vec<usize>)
    requires
        forall|k: int| 0 <= k < idx@.len() ==> (#[trigger] idx@[k]) < ops@.len(),
    ensures
        sort::views(final(out)@) == sort::views(old(out)@) + merge_targets(ops@, idx@),
{
    let ghost start = sort::views(out@);
    let ghost all = merge_targets(ops@, idx@);
    let mut i: usize = 0;
    assert(sort::views(out@) =~= start + all.take(0));
    while i < idx.len()
        invariant
            i <= idx@.len(),
            forall|k: int| 0 <= k < idx@.len() ==> (#[trigger] idx@[k]) < ops@.len(),
            all == merge_targets(ops@, idx@),
            sort::views(out@) == start + all.take(i as int),
        decreases idx@.len() - i,
    {
        let ghost before = sort::views(out@);
        out.push(OpsSelectable::MergeOp(ops[idx[i]].id.clone()));
        assert(sort::views(out@) =~= before.push(all[i as int]));
        assert(sort::views(out@) =~= start + all.take(i + 1));
        i += 1;
    }
    assert(all.take(i as int) =~= all);
}

/// The selectable entries of the Ops list, top to bottom.
pub fn ops_selectable_targets(
    rows: &[ThreadStatusView],
    merge_ops: &[MergeOperation],
    drill_batch: Option<&str>,
    now_unix: i64,
    stale_after_secs: i64,
) -> (r: Vec<OpsSelectable>)
    ensures
        sort::views(r@) == ops_targets(
            rows@,
            merge_ops@,
            drill_text(drill_batch),
            now_unix,
            stale_after_secs,
        ),
{
    let c: ClassifiedRows = classify_rows(rows, drill_batch, now_unix, stale_after_secs);
    let mut out: Vec<OpsSelectable> = Vec::new();
    let plain: bool = drill_batch.is_none();
    assert(sort::views(out@) + thread_targets(c.running@) =~= thread_targets(c.running@));
    push_threads(&mut out, &c.running);
    push_threads(&mut out, &c.scheduled);
    if plain {
        let shown: Vec<BatchProgress> = capped_batches(&c.active_batches);
        push_batches(&mut out, &shown);
    }
    assert(!plain ==> sort::views(out@) + Seq::<OpsTarget>::empty() =~= sort::views(out@));
    push_threads(&mut out, &c.active_threads);
    if !plain {
        push_threads(&mut out, &c.uncategorized);
    }
    assert(plain ==> sort::views(out@) + Seq::<OpsTarget>::empty() =~= sort::views(out@));
    if plain {
        let merges: Vec<usize> = visible_merge_indices(merge_ops, now_unix);
        push_merges(&mut out, merge_ops, &merges);
    }
    assert(!plain ==> sort::views(out@) + Seq::<OpsTarget>::empty() =~= sort::views(out@));
    let recent: Vec<usize> = capped_recently_completed(&c.recently_completed);
    push_threads(&mut out, &recent);
    if plain {
        let shown: Vec<BatchProgress> = capped_batches(&c.batches);
        push_batches(&mut out, &shown);
    }
    assert(!plain ==> sort::views(out@) + Seq::<OpsTarget>::empty() =~= sort::views(out@));
    out
}

/// The entry at position `selected`, if there is one.
pub fn ops_selected_target(
    rows: &[ThreadStatusView],
    merge_ops: &[MergeOperation],
    drill_batch: Option<&str>,
    selected: usize,
    now_unix: i64,
    stale_after_secs: i64,
) -> (r: Option<OpsSelectable>)
    ensures
        ({
            let t = ops_targets(
                rows@,
                merge_ops@,
                drill_text(drill_batch),
                now_unix,
                stale_after_secs,
            );
            match r {
                Some(x) => selected < t.len() && x@ == t[selected as int],
                None => selected >= t.len(),
            }
        }),
{
    let mut t: Vec<OpsSelectable> = ops_selectable_targets(
        rows,
        merge_ops,
        drill_batch,
        now_unix,
        stale_after_secs,
    );
    if selected < t.len() {
        let ghost all = t@;
        let x: OpsSelectable = t.swap_remove(selected);
        assert(sort::views(all)[selected as int] == x@);
        Some(x)
    } else {
        None
    }
}

/// How many entries can be selected.
pub fn ops_selectable_count(
    rows: &[ThreadStatusView],
    merge_ops: &[MergeOperation],
    drill_batch: Option<&str>,
    now_unix: i64,
    stale_after_secs: i64,
) -> (r: usize)
    ensures
        r == ops_targets(
            rows@,
            merge_ops@,
            drill_text(drill_batch),
            now_unix,
            stale_after_secs,
        ).len(),
{
    ops_selectable_targets(rows, merge_ops, drill_batch, now_unix, stale_after_secs).len()
}

// ── Laws of the sections ─────────────────────────────────────────────────────

/// A section's index list holds exactly the rows that pass the filter and stand
/// in that section, in increasing order.
pub proof fn lemma_section_rows(
    rows: Seq<ThreadStatusView>,
    drill: Option<Seq<char>>,
    now: i64,
    stale_after: i64,
    sec: Section,
)
    requires
        rows.len() <= usize::MAX,
    ensures
        forall|i: usize| #[trigger]
            section_rows(rows, drill, now, stale_after, sec).contains(i) <==> i < rows.len()
                && in_drill(rows[i as int], drill) && section_of(rows[i as int], now, stale_after)
                == sec,
        forall|a: int, b: int|
            0 <= a < b < section_rows(rows, drill, now, stale_after, sec).len() ==> (
            #[trigger] section_rows(rows, drill, now, stale_after, sec)[a]) < (
            #[trigger] section_rows(rows, drill, now, stale_after, sec)[b]),
    decreases rows.len(),
{
    if rows.len() > 0 {
        let prev = rows.drop_last();
        lemma_section_rows(prev, drill, now, stale_after, sec);
        let p = section_rows(prev, drill, now, stale_after, sec);
        let all = section_rows(rows, drill, now, stale_after, sec);
        let hit = in_drill(rows.last(), drill) && section_of(rows.last(), now, stale_after) == sec;
        assert forall|i: usize| #[trigger]
            all.contains(i) <==> i < rows.len() && in_drill(rows[i as int], drill) && section_of(
                rows[i as int],
                now,
                stale_after,
            ) == sec by {
            assert(i < prev.len() ==> prev[i as int] == rows[i as int]);
            if p.contains(i) {
                let k = choose|k: int| 0 <= k < p.len() && p[k] == i;
                assert(all[k] == i);
            }
            if hit {
                assert(all[p.len() as int] == (rows.len() - 1) as usize);
            }
            if all.contains(i) && !p.contains(i) {
                let k = choose|k: int| 0 <= k < all.len() && all[k] == i;
                if k < p.len() {
                    assert(p[k] == i);
                }
            }
        }
        assert forall|a: int, b: int| 0 <= a < b < all.len() implies (#[trigger] all[a]) < (
        #[trigger] all[b]) by {
            assert(p.contains(p[a]));
            if b < p.len() {
                assert(p[a] < p[b]);
            }
        }
    }
}

/// Sorting by time keeps exactly the indices.
pub proof fn lemma_by_updated(rows: Seq<ThreadStatusView>, idx: Seq<usize>)
    ensures
        by_updated(rows, idx).len() == idx.len(),
        forall|i: usize| #[trigger] by_updated(rows, idx).contains(i) <==> idx.contains(i),
        forall|a: int, b: int|
            0 <= a < b < by_updated(rows, idx).len() ==> updated_at(
                rows,
                #[trigger] by_updated(rows, idx)[a],
            ) >= updated_at(rows, #[trigger] by_updated(rows, idx)[b]),
{
    broadcast use group_to_multiset_ensures;

    let keyed = idx.map_values(|i: usize| NewestFirst { at: updated_at(rows, i), idx: i });
    let sorted = sort::stable_sorted(keyed);
    sort::lemma_stable_sorted(keyed);
    let out = by_updated(rows, idx);
    assert forall|k: int| 0 <= k < sorted.len() implies idx.contains((#[trigger] sorted[k]).idx)
        && sorted[k].at == updated_at(rows, sorted[k].idx) by {
        assert(sorted.contains(sorted[k]));
        assert(keyed.to_multiset().count(sorted[k]) > 0);
        let w = choose|w: int| 0 <= w < keyed.len() && keyed[w] == sorted[k];
        assert(idx[w] == sorted[k].idx);
    }
    assert forall|i: usize| #[trigger] out.contains(i) <==> idx.contains(i) by {
        if out.contains(i) {
            let k = choose|k: int| 0 <= k < out.len() && out[k] == i;
            assert(idx.contains(sorted[k].idx));
        }
        if idx.contains(i) {
            let w = choose|w: int| 0 <= w < idx.len() && idx[w] == i;
            let e = keyed[w];
            assert(keyed.contains(e));
            assert(sorted.to_multiset().count(e) > 0);
            assert(sorted.contains(e));
            let k = choose|k: int| 0 <= k < sorted.len() && sorted[k] == e;
            assert(out[k] == i);
        }
    }
    assert forall|a: int, b: int| 0 <= a < b < out.len() implies updated_at(rows, #[trigger] out[a])
        >= updated_at(rows, #[trigger] out[b]) by {
        assert(!sorted[b].before(sorted[a]));
        assert(out[a] == sorted[a].idx && out[b] == sorted[b].idx);
    }
}

/// A row that passes the filter stands in exactly one section, a row that does
/// not in none. Queued rows count as running, so nothing is ever left for the
/// scheduled section.
pub proof fn law_sections_partition(
    rows: Seq<ThreadStatusView>,
    drill: Option<Seq<char>>,
    now: i64,
    stale_after: i64,
    i: usize,
)
    requires
        i < rows.len() <= usize::MAX,
    ensures
        ({
            let c = classified(rows, drill, now, stale_after);
            let sec = section_of(rows[i as int], now, stale_after);
            let shown = in_drill(rows[i as int], drill);
            &&& c.running.contains(i) <==> shown && sec == Section::Running
            &&& c.active_threads.contains(i) <==> shown && sec == Section::ActiveThreads
            &&& c.recently_completed.contains(i) <==> shown && sec == Section::RecentlyCompleted
            &&& c.uncategorized.contains(i) <==> shown && sec == Section::Uncategorized
            &&& sec != Section::Scheduled
            &&& c.scheduled.len() == 0
        }),
{
    lemma_section_rows(rows, drill, now, stale_after, Section::Running);
    lemma_section_rows(rows, drill, now, stale_after, Section::ActiveThreads);
    lemma_section_rows(rows, drill, now, stale_after, Section::RecentlyCompleted);
    lemma_section_rows(rows, drill, now, stale_after, Section::Uncategorized);
    lemma_by_updated(rows, section_rows(rows, drill, now, stale_after, Section::Running));
    lemma_by_updated(rows, section_rows(rows, drill, now, stale_after, Section::ActiveThreads));
    lemma_by_updated(rows, section_rows(rows, drill, now, stale_after, Section::RecentlyCompleted));
    lemma_by_updated(rows, section_rows(rows, drill, now, stale_after, Section::Uncategorized));
    lemma_scheduled_empty(rows, drill, now, stale_after);
}

/// The scheduled section is empty.
pub proof fn lemma_scheduled_empty(
    rows: Seq<ThreadStatusView>,
    drill: Option<Seq<char>>,
    now: i64,
    stale_after: i64,
)
    ensures
        classified(rows, drill, now, stale_after).scheduled.len() == 0,
{
    lemma_nothing_scheduled(rows, drill, now, stale_after);
    sort::lemma_stable_sorted(
        Seq::<usize>::empty().map_values(
            |i: usize| SoonestFirst { at: eligible_at(rows, i), idx: i },
        ),
    );
    assert(section_rows(rows, drill, now, stale_after, Section::Scheduled) =~= Seq::<usize>::empty());
}

proof fn lemma_nothing_scheduled(
    rows: Seq<ThreadStatusView>,
    drill: Option<Seq<char>>,
    now: i64,
    stale_after: i64,
)
    ensures
        section_rows(rows, drill, now, stale_after, Section::Scheduled).len() == 0,
    decreases rows.len(),
{
    if rows.len() > 0 {
        lemma_nothing_scheduled(rows.drop_last(), drill, now, stale_after);
    }
}

/// With a batch filter the list holds threads only.
pub proof fn law_drill_shows_threads_only(
    rows: Seq<ThreadStatusView>,
    merge_ops: Seq<MergeOperation>,
    batch: Seq<char>,
    now: i64,
    stale_after: i64,
    k: int,
)
    requires
        0 <= k < ops_targets(rows, merge_ops, Some(batch), now, stale_after).len(),
    ensures
        ops_targets(rows, merge_ops, Some(batch), now, stale_after)[k] is Thread,
{
}

/// Every merge entry comes before every recently completed thread.
pub proof fn law_merges_before_completed(
    rows: Seq<ThreadStatusView>,
    merge_ops: Seq<MergeOperation>,
    now: i64,
    stale_after: i64,
    a: int,
    b: int,
)
    requires
        rows.len() <= usize::MAX,
        0 <= a < ops_targets(rows, merge_ops, None, now, stale_after).len(),
        0 <= b < ops_targets(rows, merge_ops, None, now, stale_after).len(),
        ops_targets(rows, merge_ops, None, now, stale_after)[a] is MergeOp,
        ops_targets(rows, merge_ops, None, now, stale_after)[b] matches OpsTarget::Thread(i) && i
            < rows.len() && section_of(rows[i as int], now, stale_after)
            == Section::RecentlyCompleted,
    ensures
        a < b,
{
    let t = ops_targets(rows, merge_ops, None, now, stale_after);
    let c = classified(rows, None, now, stale_after);
    let limit = OPS_BATCH_SECTION_LIMIT as nat;
    let head = thread_targets(c.running) + thread_targets(c.scheduled) + batch_targets(
        capped(c.active_batches, limit),
    ) + thread_targets(c.active_threads);
    let i = t[b]->Thread_0;
    law_sections_partition(rows, None, now, stale_after, i);
    let s1 = thread_targets(c.running).len() as int;
    let s2 = s1 + thread_targets(c.scheduled).len();
    let s3 = s2 + batch_targets(capped(c.active_batches, limit)).len();
    let s4 = s3 + thread_targets(c.active_threads).len();
    if b < s1 {
        assert(c.running[b] == i);
        assert(c.running.contains(i));
    } else if s3 <= b < s4 {
        assert(c.active_threads[b - s3] == i);
        assert(c.active_threads.contains(i));
    }
}

// ── Footer counts ────────────────────────────────────────────────────────────

/// How many rows of `rows` are running or waiting, stale, and scheduled.
pub open spec fn footer_row_counts(
    rows: Seq<ThreadStatusView>,
    now: i64,
    stale_after: i64,
) -> (nat, nat, nat)
    decreases rows.len(),
{
    if rows.len() == 0 {
        (0, 0, 0)
    } else {
        let (a, s, l) = footer_row_counts(rows.drop_last(), now, stale_after);
        let t = rows.last();
        (
            a + if counts_active(t, now, stale_after) { 1nat } else { 0nat },
            s + if stale_active(t, now, stale_after) { 1nat } else { 0nat },
            l + if scheduled_for_later(t, now) { 1nat } else { 0nat },
        )
    }
}

/// The sums of the failed and of the completed thread counts.
pub open spec fn footer_thread_counts(counts: Seq<(String, i64)>) -> (int, int)
    decreases counts.len(),
{
    if counts.len() == 0 {
        (0, 0)
    } else {
        let (f, c) = footer_thread_counts(counts.drop_last());
        let (status, n) = counts.last();
        if status@ == "Failed"@ || status@ == "failed"@ {
            (f + n, c)
        } else if status@ == "Completed"@ || status@ == "completed"@ {
            (f, c + n)
        } else {
            (f, c)
        }
    }
}

/// The nearest 64-bit value.
pub open spec fn clamp_i64(n: int) -> i64 {
    if n > i64::MAX {
        i64::MAX
    } else if n < i64::MIN {
        i64::MIN
    } else {
        n as i64
    }
}

fn to_i64(n: i128) -> (r: i64)
    ensures
        r == clamp_i64(n as int),
{
    if n > i64::MAX as i128 {
        i64::MAX
    } else if n < i64::MIN as i128 {
        i64::MIN
    } else {
        n as i64
    }
}

/// Active, failed, completed, stale and scheduled counts.
pub open spec fn footer_of(data: ActivityData, now: i64, stale_after: i64) -> (
    i64,
    i64,
    i64,
    i64,
    i64,
) {
    let r = footer_row_counts(data.rows@, now, stale_after);
    let c = footer_thread_counts(data.thread_counts@);
    (
        clamp_i64(r.0 as int),
        clamp_i64(c.0),
        clamp_i64(c.1),
        clamp_i64(r.1 as int),
        clamp_i64(r.2 as int),
    )
}

/// Active, failed, completed, stale and scheduled counts. Sums beyond 64 bits
/// stop at the limit.
pub fn footer_counts(data: &ActivityData, now_unix: i64, stale_after_secs: i64) -> (r: (
    i64,
    i64,
    i64,
    i64,
    i64,
))
    ensures
        r == footer_of(*data, now_unix, stale_after_secs),
{
    let mut active: usize = 0;
    let mut stale: usize = 0;
    let mut later: usize = 0;
    let mut i: usize = 0;
    while i < data.rows.len()
        invariant
            i <= data.rows@.len(),
            active <= i,
            stale <= i,
            later <= i,
            (active as nat, stale as nat, later as nat) == footer_row_counts(
                data.rows@.take(i as int),
                now_unix,
                stale_after_secs,
            ),
        decreases data.rows@.len() - i,
    {
        let ghost next = data.rows@.take(i + 1);
        assert(next.drop_last() =~= data.rows@.take(i as int));
        assert(next.last() == data.rows@[i as int]);
        let row: &ThreadStatusView = &data.rows[i];
        if is_running_now(row) || is_active_waiting(row, now_unix, stale_after_secs) {
            active += 1;
        }
        if is_stale_active(row, now_unix, stale_after_secs) {
            stale += 1;
        }
        if is_scheduled(row, now_unix) {
            later += 1;
        }
        i += 1;
    }
    assert(data.rows@.take(i as int) =~= data.rows@);
    let mut failed: i128 = 0;
    let mut completed: i128 = 0;
    let mut j: usize = 0;
    while j < data.thread_counts.len()
        invariant
            j <= data.thread_counts@.len(),
            -(j as int) * 9223372036854775808 <= failed <= j as int * 9223372036854775808,
            -(j as int) * 9223372036854775808 <= completed <= j as int * 9223372036854775808,
            (failed as int, completed as int) == footer_thread_counts(
                data.thread_counts@.take(j as int),
            ),
        decreases data.thread_counts@.len() - j,
    {
        let ghost next = data.thread_counts@.take(j + 1);
        assert(next.drop_last() =~= data.thread_counts@.take(j as int));
        assert(next.last() == data.thread_counts@[j as int]);
        let status: &str = data.thread_counts[j].0.as_str();
        let n: i64 = data.thread_counts[j].1;
        if str_eq(status, "Failed") || str_eq(status, "failed") {
            failed += n as i128;
        } else if str_eq(status, "Completed") || str_eq(status, "completed") {
            completed += n as i128;
        }
        j += 1;
    }
    assert(data.thread_counts@.take(j as int) =~= data.thread_counts@);
    (
        to_i64(active as i128),
        to_i64(failed),
        to_i64(completed),
        to_i64(stale as i128),
        to_i64(later as i128),
    )
}

// ── What the merge queue shows ───────────────────────────────────────────────

/// A finished merge is a candidate for the queue if and only if it failed within
/// the last half hour and every completed merge of its thread into its target
/// finished before it, or it was completed or cancelled within the last ten
/// minutes. Where the time of its end is unknown, that of its queueing counts.
pub proof fn law_recent_merges_are_those_of_the_window(
    ops: Seq<MergeOperation>,
    now: i64,
    i: usize,
    end: i64,
)
    requires
        i < ops.len() <= usize::MAX,
        ops[i as int].finished_at matches Some(t) ==> end == t,
        ops[i as int].finished_at is None ==> end == ops[i as int].queued_at,
    ensures
        recent_merges(ops, now, ops.len()).contains(NewestFirst { at: end, idx: i }) <==> {
            let op = ops[i as int];
            ||| {
                &&& op.status@ == "failed"@
                &&& now - end < 1800
                &&& forall|j: int|
                    0 <= j < ops.len() && (#[trigger] ops[j]).status@ == "completed"@
                        && ops[j].thread_id@ == op.thread_id@ && ops[j].target_branch@
                        == op.target_branch@ ==> match ops[j].finished_at {
                        Some(t) => t < end,
                        None => ops[j].queued_at < end,
                    }
            }
            ||| (op.status@ == "completed"@ || op.status@ == "cancelled"@) && now - end < 600
        },
        forall|e: NewestFirst| #[trigger]
            recent_merges(ops, now, ops.len()).contains(e) && e.idx == i ==> e.at == end,
{
    let op = ops[i as int];
    lemma_recent_in_range(ops, now, ops.len());
    reveal_strlit("failed");
    reveal_strlit("queued");
    reveal_strlit("claimed");
    reveal_strlit("executing");
    reveal_strlit("completed");
    reveal_strlit("cancelled");
    assert("failed"@[0] == 'f' && "queued"@[0] == 'q' && "executing"@[0] == 'e');
    assert("claimed"@.len() == 7 && "completed"@.len() == 9 && "cancelled"@.len() == 9);
    assert("completed"@[1] == 'o' && "cancelled"@[1] == 'a' && "claimed"@[0] == 'c'
        && "completed"@[0] == 'c' && "cancelled"@[0] == 'c');
    assert(end == merge_finish(op));
    let e = NewestFirst { at: end, idx: i };
    if merge_recent(ops, op, now) && op.status@ == "failed"@ {
        assert forall|j: int|
            0 <= j < ops.len() && (#[trigger] ops[j]).status@ == "completed"@ && ops[j].thread_id@
                == op.thread_id@ && ops[j].target_branch@ == op.target_branch@ implies match ops[j].finished_at {
            Some(t) => t < end,
            None => ops[j].queued_at < end,
        } by {
            assert(!supersedes(ops[j], op));
        }
    }
    if op.status@ == "failed"@ && !merge_recent(ops, op, now) && now - end < 1800 {
        let j = choose|j: int| 0 <= j < ops.len() && supersedes(#[trigger] ops[j], op);
        assert(ops[j].status@ == "completed"@);
    }
}

/// The queue shows first every merge that is queued, claimed or executing, in the
/// order in which they stand, and nothing else among them; then at most five
/// finished ones, the latest first.
pub proof fn law_merge_queue_order(ops: Seq<MergeOperation>, now: i64)
    requires
        ops.len() <= usize::MAX,
    ensures
        ({
            let v = visible_merges(ops, now);
            let n = active_merges(ops).len();
            &&& n <= v.len() <= n + 5
            &&& forall|k: int|
                0 <= k < n ==> (#[trigger] v[k]) < ops.len() && (ops[v[k] as int].status@
                    == "queued"@ || ops[v[k] as int].status@ == "claimed"@ || ops[v[k] as int].status@
                    == "executing"@)
            &&& forall|j: int, k: int| 0 <= j < k < n ==> (#[trigger] v[j]) < (#[trigger] v[k])
            &&& forall|i: int|
                0 <= i < ops.len() && ((#[trigger] ops[i]).status@ == "queued"@ || ops[i].status@
                    == "claimed"@ || ops[i].status@ == "executing"@) ==> v.take(n as int).contains(
                    i as usize,
                )
            &&& forall|k: int|
                n <= k < v.len() ==> (#[trigger] v[k]) < ops.len() && !(ops[v[k] as int].status@
                    == "queued"@ || ops[v[k] as int].status@ == "claimed"@ || ops[v[k] as int].status@
                    == "executing"@)
            &&& forall|j: int, k: int|
                n <= j < k < v.len() ==> match ops[(#[trigger] v[j]) as int].finished_at {
                    Some(t) => t,
                    None => ops[v[j] as int].queued_at,
                } >= match ops[(#[trigger] v[k]) as int].finished_at {
                    Some(t) => t,
                    None => ops[v[k] as int].queued_at,
                }
        }),
{
    let found = recent_merges(ops, now, ops.len());
    let sorted = sort::stable_sorted(found);
    sort::lemma_stable_sorted(found);
    sort::lemma_sorted_members(found);
    lemma_recent_in_range(ops, now, ops.len());
    lemma_active_in_range(ops);
    lemma_active_ascending(ops);
    let a = active_merges(ops);
    let v = visible_merges(ops, now);
    let n = a.len();
    assert(v.take(n as int) =~= a);
    assert forall|k: int| 0 <= k < n implies (#[trigger] v[k]) < ops.len() && merge_active(
        ops[v[k] as int],
    ) by {
        assert(a.contains(a[k]));
    }
    assert forall|k: int| n <= k < v.len() implies v[k] == sorted[k - n].idx && v[k] < ops.len()
        && !merge_active(ops[v[k] as int]) && sorted[k - n].at == merge_finish(
        ops[(#[trigger] v[k]) as int],
    ) by {
        assert(found.contains(sorted[k - n]));
    }
    assert forall|j: int, k: int| n <= j < k < v.len() implies merge_finish(
        ops[(#[trigger] v[j]) as int],
    ) >= merge_finish(ops[(#[trigger] v[k]) as int]) by {
        assert(!sorted[k - n].before(sorted[j - n]));
    }
}

proof fn lemma_active_ascending(ops: Seq<MergeOperation>)
    requires
        ops.len() <= usize::MAX,
    ensures
        forall|j: int, k: int|
            0 <= j < k < active_merges(ops).len() ==> (#[trigger] active_merges(ops)[j]) < (
            #[trigger] active_merges(ops)[k]),
    decreases ops.len(),
{
    if ops.len() > 0 {
        let prev = ops.drop_last();
        lemma_active_ascending(prev);
        lemma_active_in_range(prev);
        let a = active_merges(prev);
        assert forall|j: int| 0 <= j < a.len() implies (#[trigger] a[j]) < prev.len() by {
            assert(a.contains(a[j]));
        }
    }
}

/// A finished merge that is a candidate is shown, unless five candidates are
/// shown none of which finished before it.
pub proof fn law_recent_merge_is_shown(ops: Seq<MergeOperation>, now: i64, i: usize, end: i64)
    requires
        i < ops.len() <= usize::MAX,
        recent_merges(ops, now, ops.len()).contains(NewestFirst { at: end, idx: i }),
        !visible_merges(ops, now).contains(i),
    ensures
        ({
            let v = visible_merges(ops, now);
            let n = active_merges(ops).len();
            &&& v.len() == n + 5
            &&& forall|k: int|
                n <= k < v.len() ==> match ops[(#[trigger] v[k]) as int].finished_at {
                    Some(t) => t >= end,
                    None => ops[v[k] as int].queued_at >= end,
                }
        }),
{
    let found = recent_merges(ops, now, ops.len());
    let sorted = sort::stable_sorted(found);
    sort::lemma_stable_sorted(found);
    sort::lemma_sorted_members(found);
    lemma_recent_in_range(ops, now, ops.len());
    let n = active_merges(ops).len();
    let v = visible_merges(ops, now);
    let e = NewestFirst { at: end, idx: i };
    assert(sorted.contains(e));
    let p = choose|p: int| 0 <= p < sorted.len() && sorted[p] == e;
    if p < 5 {
        assert(v[n + p] == i);
    }
    assert forall|k: int| n <= k < v.len() implies merge_finish(ops[(#[trigger] v[k]) as int])
        >= end by {
        assert(v[k] == sorted[k - n].idx);
        assert(found.contains(sorted[k - n]));
        assert(!sorted[p].before(sorted[k - n]));
    }
}

/// A failed merge whose end lies less than half an hour back, where every
/// completed merge of the same thread into the same target finished strictly
/// before it, is shown while fewer than five finished merges are shown or one
/// that is shown finished earlier.
pub proof fn law_new_failure_is_shown(ops: Seq<MergeOperation>, now: i64, i: usize, end: i64)
    requires
        i < ops.len() <= usize::MAX,
        ops[i as int].status@ == "failed"@,
        ops[i as int].finished_at == Some(end),
        now - end < MERGE_FAILED_WINDOW_SECS,
        forall|j: int|
            0 <= j < ops.len() && (#[trigger] ops[j]).status@ == "completed"@ && ops[j].thread_id@
                == ops[i as int].thread_id@ && ops[j].target_branch@ == ops[i as int].target_branch@
                ==> match ops[j].finished_at {
                Some(t) => t < end,
                None => ops[j].queued_at < end,
            },
        ({
            let v = visible_merges(ops, now);
            let n = active_merges(ops).len();
            v.len() < n + MERGE_QUEUE_RECENT_LIMIT || exists|k: int|
                n <= k < v.len() && match ops[(#[trigger] v[k]) as int].finished_at {
                    Some(t) => t < end,
                    None => ops[v[k] as int].queued_at < end,
                }
        }),
    ensures
        visible_merges(ops, now).contains(i),
{
    law_recent_merges_are_those_of_the_window(ops, now, i, end);
    if !visible_merges(ops, now).contains(i) {
        law_recent_merge_is_shown(ops, now, i, end);
    }
}

// ── What stands in which section ─────────────────────────────────────────────

/// A row that passes the filter stands with the running ones if and only if its
/// latest execution is queued, picked up or executing; with the active ones if it
/// is active, not running and was touched within the time of staleness; with the
/// completed ones if neither holds and the thread or its execution is completed;
/// and with the others if nothing of this holds. A row of another batch than the
/// filter's stands nowhere.
pub proof fn law_section_by_status(
    rows: Seq<ThreadStatusView>,
    drill: Option<Seq<char>>,
    now: i64,
    stale_after: i64,
    i: usize,
)
    requires
        i < rows.len() <= usize::MAX,
    ensures
        ({
            let c = classified(rows, drill, now, stale_after);
            let t = rows[i as int];
            let shown = drill is None || (t.batch_id is Some && t.batch_id->0@ == drill->0);
            let running = t.execution_status is Some && (t.execution_status->0@ == "queued"@
                || t.execution_status->0@ == "picked_up"@ || t.execution_status->0@ == "executing"@);
            let idle = if now > t.thread_updated_at {
                now - t.thread_updated_at
            } else {
                0
            };
            let active = t.thread_status@ == "Active"@ && !running && idle < stale_after;
            let done = t.thread_status@ == "Completed"@ || (t.execution_status is Some
                && t.execution_status->0@ == "completed"@);
            &&& c.running.contains(i) <==> shown && running
            &&& c.active_threads.contains(i) <==> shown && active
            &&& c.recently_completed.contains(i) <==> shown && !running && !active && done
            &&& c.uncategorized.contains(i) <==> shown && !running && !active && !done
        }),
{
    law_sections_partition(rows, drill, now, stale_after, i);
}

/// In each section the row that was touched last comes first, and every row is
/// one of the rows.
pub proof fn law_sections_newest_first(
    rows: Seq<ThreadStatusView>,
    drill: Option<Seq<char>>,
    now: i64,
    stale_after: i64,
    a: int,
    b: int,
)
    requires
        rows.len() <= usize::MAX,
        0 <= a < b,
    ensures
        ({
            let c = classified(rows, drill, now, stale_after);
            &&& b < c.running.len() ==> c.running[a] < rows.len() && c.running[b] < rows.len()
                && rows[c.running[a] as int].thread_updated_at
                >= rows[c.running[b] as int].thread_updated_at
            &&& b < c.active_threads.len() ==> c.active_threads[a] < rows.len()
                && c.active_threads[b] < rows.len()
                && rows[c.active_threads[a] as int].thread_updated_at
                >= rows[c.active_threads[b] as int].thread_updated_at
            &&& b < c.recently_completed.len() ==> c.recently_completed[a] < rows.len()
                && c.recently_completed[b] < rows.len()
                && rows[c.recently_completed[a] as int].thread_updated_at
                >= rows[c.recently_completed[b] as int].thread_updated_at
            &&& b < c.uncategorized.len() ==> c.uncategorized[a] < rows.len() && c.uncategorized[b]
                < rows.len() && rows[c.uncategorized[a] as int].thread_updated_at
                >= rows[c.uncategorized[b] as int].thread_updated_at
        }),
{
    lemma_section_newest_first(rows, drill, now, stale_after, Section::Running, a, b);
    lemma_section_newest_first(rows, drill, now, stale_after, Section::ActiveThreads, a, b);
    lemma_section_newest_first(rows, drill, now, stale_after, Section::RecentlyCompleted, a, b);
    lemma_section_newest_first(rows, drill, now, stale_after, Section::Uncategorized, a, b);
}

proof fn lemma_section_newest_first(
    rows: Seq<ThreadStatusView>,
    drill: Option<Seq<char>>,
    now: i64,
    stale_after: i64,
    sec: Section,
    a: int,
    b: int,
)
    requires
        rows.len() <= usize::MAX,
        0 <= a < b,
    ensures
        ({
            let s = by_updated(rows, section_rows(rows, drill, now, stale_after, sec));
            b < s.len() ==> s[a] < rows.len() && s[b] < rows.len()
                && rows[s[a] as int].thread_updated_at >= rows[s[b] as int].thread_updated_at
        }),
{
    let idx = section_rows(rows, drill, now, stale_after, sec);
    let s = by_updated(rows, idx);
    lemma_section_rows(rows, drill, now, stale_after, sec);
    lemma_by_updated(rows, idx);
    if b < s.len() {
        assert(s.contains(s[a]) && s.contains(s[b]));
        assert(idx.contains(s[a]) && idx.contains(s[b]));
    }
}

/// Rows that are waiting for their time come in the order of their times.
pub proof fn law_soonest_first(rows: Seq<ThreadStatusView>, idx: Seq<usize>, a: int, b: int)
    requires
        0 <= a < b < idx.len(),
        forall|k: int| 0 <= k < idx.len() ==> (#[trigger] idx[k]) < rows.len(),
    ensures
        by_eligible(rows, idx).len() == idx.len(),
        by_eligible(rows, idx)[a] < rows.len(),
        by_eligible(rows, idx)[b] < rows.len(),
        rows[by_eligible(rows, idx)[b] as int].eligible_at matches Some(late) ==> (
        rows[by_eligible(rows, idx)[a] as int].eligible_at matches Some(soon) && soon <= late || late
            == i64::MAX),
{
    let keyed = idx.map_values(|i: usize| SoonestFirst { at: eligible_at(rows, i), idx: i });
    let sorted = sort::stable_sorted(keyed);
    sort::lemma_stable_sorted(keyed);
    sort::lemma_sorted_members(keyed);
    assert(!sorted[b].before(sorted[a]));
    assert(keyed.contains(sorted[a]) && keyed.contains(sorted[b]));
    let x = choose|x: int| 0 <= x < keyed.len() && keyed[x] == sorted[a];
    let y = choose|y: int| 0 <= y < keyed.len() && keyed[y] == sorted[b];
    assert(idx[x] < rows.len() && idx[y] < rows.len());
}

/// How a batch's progress grows by one more row: a row of the batch adds one to
/// the total, one to the completed if the thread or its execution is completed,
/// one to the failed if the thread failed or its execution failed, timed out or
/// crashed, and one to the active if it runs or is active and not stale. A row of
/// another batch, or of none, changes nothing.
pub proof fn law_batch_counts_each_row(
    rows: Seq<ThreadStatusView>,
    t: ThreadStatusView,
    id: Seq<char>,
    now: i64,
    stale_after: i64,
)
    ensures
        ({
            let before = tally(rows, id, now, stale_after);
            let after = tally(rows.push(t), id, now, stale_after);
            let status = t.execution_status->0@;
            let has = t.execution_status is Some;
            let mine = t.batch_id is Some && t.batch_id->0@ == id && id.len() > 0;
            let running = has && (status == "queued"@ || status == "picked_up"@ || status
                == "executing"@);
            let idle = if now > t.thread_updated_at {
                now - t.thread_updated_at
            } else {
                0
            };
            let active = running || (t.thread_status@ == "Active"@ && idle < stale_after);
            let done = t.thread_status@ == "Completed"@ || (has && status == "completed"@);
            let bad = t.thread_status@ == "Failed"@ || (has && (status == "failed"@ || status
                == "timed_out"@ || status == "crashed"@));
            &&& !mine ==> after == before
            &&& mine ==> {
                &&& after.total == before.total + 1
                &&& done ==> after.completed == before.completed + 1
                &&& !done ==> after.completed == before.completed
                &&& bad ==> after.failed == before.failed + 1
                &&& !bad ==> after.failed == before.failed
                &&& active ==> after.active == before.active + 1
                &&& !active ==> after.active == before.active
                &&& active ==> (after.oldest_active_updated_at matches Some(o) && o
                    <= t.thread_updated_at && (before.oldest_active_updated_at matches Some(p)
                    ==> o <= p) && (o == t.thread_updated_at || before.oldest_active_updated_at
                    == Some(o)))
                &&& !active ==> after.oldest_active_updated_at == before.oldest_active_updated_at
                &&& after.latest_updated_at >= before.latest_updated_at
                &&& after.latest_updated_at >= t.thread_updated_at
                &&& after.latest_updated_at == before.latest_updated_at || after.latest_updated_at
                    == t.thread_updated_at
            }
        }),
        tally(Seq::empty(), id, now, stale_after).total == 0,
        tally(Seq::empty(), id, now, stale_after).completed == 0,
        tally(Seq::empty(), id, now, stale_after).failed == 0,
        tally(Seq::empty(), id, now, stale_after).active == 0,
        tally(Seq::empty(), id, now, stale_after).latest_updated_at == 0,
{
    assert(rows.push(t).drop_last() =~= rows);
    assert(rows.push(t).last() == t);
}

/// The list of batches holds every batch of the rows once, under its id, the one
/// that was touched last first; the list of active ones holds exactly those of
/// them that have an active row.
pub proof fn law_batches_listed(rows: Seq<ThreadStatusView>, now: i64, stale_after: i64)
    ensures
        ({
            let c = classified(rows, None, now, stale_after);
            &&& forall|i: int|
                0 <= i < rows.len() && (#[trigger] rows[i]).batch_id is Some
                    && rows[i].batch_id->0@.len() > 0 ==> c.batches.contains(
                    tally(rows, rows[i].batch_id->0@, now, stale_after),
                )
            &&& forall|k: int|
                0 <= k < c.batches.len() ==> (#[trigger] c.batches[k]).total > 0 && c.batches[k]
                    == tally(rows, c.batches[k].batch_id, now, stale_after)
            &&& forall|j: int, k: int|
                0 <= j < k < c.batches.len() ==> (#[trigger] c.batches[j]).latest_updated_at >= (
                #[trigger] c.batches[k]).latest_updated_at
            &&& forall|b: BatchView| #[trigger]
                c.active_batches.contains(b) <==> c.batches.contains(b) && b.active > 0
            &&& c.active_batches.len() <= c.batches.len()
        }),
{
    let c = classified(rows, None, now, stale_after);
    let ids = batch_ids(rows);
    let all = tallies(rows, now, stale_after);
    sort::lemma_stable_sorted(all);
    sort::lemma_sorted_members(all);
    lemma_batch_ids(rows);
    assert(c.batches == sort::stable_sorted(all));
    assert forall|i: int|
        0 <= i < rows.len() && (#[trigger] rows[i]).batch_id is Some && rows[i].batch_id->0@.len()
            > 0 implies c.batches.contains(
        tally(rows, rows[i].batch_id->0@, now, stale_after),
    ) by {
        let id = rows[i].batch_id->0@;
        assert(batch_of(rows[i]) == Some(id));
        assert(ids.contains(id));
        let w = choose|w: int| 0 <= w < ids.len() && ids[w] == id;
        assert(all[w] == tally(rows, id, now, stale_after));
        assert(all.contains(all[w]));
    }
    assert forall|k: int| 0 <= k < c.batches.len() implies (#[trigger] c.batches[k]).total > 0
        && c.batches[k] == tally(rows, c.batches[k].batch_id, now, stale_after) by {
        assert(all.contains(c.batches[k]));
        let w = choose|w: int| 0 <= w < all.len() && all[w] == c.batches[k];
        law_tally_counts(rows, ids[w], now, stale_after);
        assert(ids.contains(ids[w]));
        lemma_tally_occurs(rows, ids[w], now, stale_after);
    }
    assert forall|j: int, k: int| 0 <= j < k < c.batches.len() implies (
    #[trigger] c.batches[j]).latest_updated_at >= (#[trigger] c.batches[k]).latest_updated_at by {
        assert(!c.batches[k].before(c.batches[j]));
    }
    lemma_busy_batches(c.batches);
}

proof fn lemma_tally_occurs(rows: Seq<ThreadStatusView>, id: Seq<char>, now: i64, stale_after: i64)
    requires
        batch_ids(rows).contains(id),
    ensures
        tally(rows, id, now, stale_after).total > 0,
    decreases rows.len(),
{
    if rows.len() > 0 {
        let prev = rows.drop_last();
        if batch_of(rows.last()) != Some(id) {
            let ids = batch_ids(rows);
            let k = choose|k: int| 0 <= k < ids.len() && ids[k] == id;
            assert(batch_ids(prev)[k] == id);
            lemma_tally_occurs(prev, id, now, stale_after);
        }
    }
}

proof fn lemma_busy_batches(b: Seq<BatchView>)
    ensures
        forall|x: BatchView| #[trigger] busy_batches(b).contains(x) <==> b.contains(x) && x.active > 0,
        busy_batches(b).len() <= b.len(),
    decreases b.len(),
{
    if b.len() > 0 {
        let prev = b.drop_last();
        lemma_busy_batches(prev);
        let p = busy_batches(prev);
        let all = busy_batches(b);
        assert forall|x: BatchView| #[trigger] all.contains(x) <==> b.contains(x) && x.active > 0 by {
            if all.contains(x) {
                let k = choose|k: int| 0 <= k < all.len() && all[k] == x;
                if k < p.len() {
                    assert(p.contains(p[k]));
                    let w = choose|w: int| 0 <= w < prev.len() && prev[w] == x;
                    assert(b[w] == x);
                } else {
                    assert(b[b.len() - 1] == x);
                }
            }
            if b.contains(x) && x.active > 0 {
                let w = choose|w: int| 0 <= w < b.len() && b[w] == x;
                if w < prev.len() {
                    assert(prev[w] == x);
                    assert(p.contains(x));
                    let k = choose|k: int| 0 <= k < p.len() && p[k] == x;
                    assert(all[k] == x);
                } else {
                    assert(all[p.len() as int] == x);
                }
            }
        }
    }
}

// ── What can be selected ─────────────────────────────────────────────────────

/// Every running and every active thread that passes the filter can be selected.
/// With a filter, so can every other thread of the batch, the completed ones up to
/// twelve; without one, no thread that is neither running, active nor completed.
pub proof fn law_threads_selectable(
    rows: Seq<ThreadStatusView>,
    merge_ops: Seq<MergeOperation>,
    drill: Option<Seq<char>>,
    now: i64,
    stale_after: i64,
    i: usize,
)
    requires
        i < rows.len() <= usize::MAX,
    ensures
        ({
            let c = classified(rows, drill, now, stale_after);
            let t = ops_targets(rows, merge_ops, drill, now, stale_after);
            &&& c.running.contains(i) || c.active_threads.contains(i) ==> t.contains(
                OpsTarget::Thread(i),
            )
            &&& c.uncategorized.contains(i) && drill is Some ==> t.contains(OpsTarget::Thread(i))
            &&& c.uncategorized.contains(i) && drill is None ==> !t.contains(OpsTarget::Thread(i))
            &&& c.recently_completed.contains(i) && c.recently_completed.len() <= 12 ==> t.contains(
                OpsTarget::Thread(i),
            )
            &&& t.contains(OpsTarget::Thread(i)) ==> drill is None || (rows[i as int].batch_id is Some
                && rows[i as int].batch_id->0@ == drill->0)
        }),
{
    let c = classified(rows, drill, now, stale_after);
    let t = ops_targets(rows, merge_ops, drill, now, stale_after);
    let limit = OPS_BATCH_SECTION_LIMIT as nat;
    let target = OpsTarget::Thread(i);
    let n1 = c.running.len() as int;
    let n2 = n1 + c.scheduled.len();
    let n3 = n2 + if drill is None {
        capped(c.active_batches, limit).len() as int
    } else {
        0
    };
    let n4 = n3 + c.active_threads.len();
    let n5 = n4 + if drill is Some {
        c.uncategorized.len() as int
    } else {
        0
    };
    let n6 = n5 + if drill is None {
        visible_merges(merge_ops, now).len() as int
    } else {
        0
    };
    let recent = capped(c.recently_completed, RECENTLY_COMPLETED_LIMIT as nat);
    let n7 = n6 + recent.len();
    law_sections_partition(rows, drill, now, stale_after, i);
    if c.running.contains(i) {
        let k = choose|k: int| 0 <= k < c.running.len() && c.running[k] == i;
        assert(t[k] == target);
    }
    if c.active_threads.contains(i) {
        let k = choose|k: int| 0 <= k < c.active_threads.len() && c.active_threads[k] == i;
        assert(t[n3 + k] == target);
    }
    if drill is Some && c.uncategorized.contains(i) {
        let k = choose|k: int| 0 <= k < c.uncategorized.len() && c.uncategorized[k] == i;
        assert(t[n4 + k] == target);
    }
    if c.recently_completed.contains(i) && c.recently_completed.len() <= 12 {
        let k = choose|k: int| 0 <= k < c.recently_completed.len() && c.recently_completed[k] == i;
        assert(t[n6 + k] == target);
    }
    if t.contains(target) {
        let p = choose|p: int| 0 <= p < t.len() && t[p] == target;
        if p < n1 {
            assert(c.running[p] == i);
        } else if p < n3 {
        } else if p < n4 {
            assert(c.active_threads[p - n3] == i);
        } else if p < n5 {
            assert(c.uncategorized[p - n4] == i);
        } else if p < n6 {
        } else if p < n7 {
            assert(c.recently_completed[p - n6] == i);
        }
        assert(c.running.contains(i) || c.active_threads.contains(i) || (drill is Some
            && c.uncategorized.contains(i)) || c.recently_completed.contains(i));
    }
}

/// The order of the entries without a filter: running threads, then active ones,
/// the merges, and the completed ones last, at most twelve of them. Merges stand
/// for the merges of the queue, in its order.
pub proof fn law_selectable_order(
    rows: Seq<ThreadStatusView>,
    merge_ops: Seq<MergeOperation>,
    now: i64,
    stale_after: i64,
)
    requires
        rows.len() <= usize::MAX,
    ensures
        ({
            let c = classified(rows, None, now, stale_after);
            let t = ops_targets(rows, merge_ops, None, now, stale_after);
            let m = visible_merges(merge_ops, now);
            let batches = if c.active_batches.len() <= 10 {
                c.active_batches.len() as int
            } else {
                10
            };
            let completed = if c.recently_completed.len() <= 12 {
                c.recently_completed.len() as int
            } else {
                12
            };
            let all = if c.batches.len() <= 10 {
                c.batches.len() as int
            } else {
                10
            };
            let a = c.running.len() as int;
            let b = a + batches;
            let d = b + c.active_threads.len();
            let e = d + m.len();
            let f = e + completed;
            &&& t.len() == f + all
            &&& forall|k: int| 0 <= k < a ==> #[trigger] t[k] == OpsTarget::Thread(c.running[k])
            &&& forall|k: int|
                a <= k < b ==> #[trigger] t[k] == OpsTarget::Batch(c.active_batches[k - a].batch_id)
            &&& forall|k: int|
                b <= k < d ==> #[trigger] t[k] == OpsTarget::Thread(c.active_threads[k - b])
            &&& forall|k: int|
                d <= k < e ==> #[trigger] t[k] == OpsTarget::MergeOp(merge_ops[m[k - d] as int].id@)
            &&& forall|k: int|
                e <= k < f ==> #[trigger] t[k] == OpsTarget::Thread(c.recently_completed[k - e])
            &&& forall|k: int|
                f <= k < t.len() ==> #[trigger] t[k] == OpsTarget::Batch(c.batches[k - f].batch_id)
        }),
{
    lemma_scheduled_empty(rows, None, now, stale_after);
}

/// How the footer counts grow by one more row.
pub proof fn law_footer_counts_each_row(
    rows: Seq<ThreadStatusView>,
    t: ThreadStatusView,
    now: i64,
    stale_after: i64,
)
    ensures
        ({
            let before = footer_row_counts(rows, now, stale_after);
            let after = footer_row_counts(rows.push(t), now, stale_after);
            let status = t.execution_status->0@;
            let has = t.execution_status is Some;
            let running = has && (status == "queued"@ || status == "picked_up"@ || status
                == "executing"@);
            let idle = if now > t.thread_updated_at {
                now - t.thread_updated_at
            } else {
                0
            };
            let open = t.thread_status@ == "Active"@ && !running;
            &&& after.0 - before.0 == if running || (open && idle < stale_after) {
                1int
            } else {
                0
            }
            &&& after.1 - before.1 == if open && idle >= stale_after {
                1int
            } else {
                0
            }
            &&& after.2 - before.2 == if has && status == "queued"@ && t.eligible_at is Some
                && t.eligible_at->0 > now {
                1int
            } else {
                0
            }
        }),
        footer_row_counts(Seq::empty(), now, stale_after) == (0nat, 0nat, 0nat),
{
    assert(rows.push(t).drop_last() =~= rows);
    assert(rows.push(t).last() == t);
}

/// The footer's failed and completed numbers are the sums of the counts of those
/// statuses.
pub proof fn law_footer_sums(counts: Seq<(String, i64)>, status: String, n: i64)
    ensures
        ({
            let before = footer_thread_counts(counts);
            let after = footer_thread_counts(counts.push((status, n)));
            let failed = status@ == "Failed"@ || status@ == "failed"@;
            let completed = status@ == "Completed"@ || status@ == "completed"@;
            &&& failed ==> after == (before.0 + n, before.1)
            &&& completed ==> after == (before.0, before.1 + n)
            &&& !failed && !completed ==> after == before
        }),
        footer_thread_counts(Seq::empty()) == (0int, 0int),
{
    reveal_strlit("Failed");
    reveal_strlit("failed");
    reveal_strlit("Completed");
    reveal_strlit("completed");
    assert("Failed"@.len() == 6 && "failed"@.len() == 6 && "Completed"@.len() == 9
        && "completed"@.len() == 9);
    assert(counts.push((status, n)).drop_last() =~= counts);
    assert(counts.push((status, n)).last() == (status, n));
}

/// A sum that no count can hold is told as the nearest that can.
pub proof fn law_sums_are_kept_within_range(n: int)
    ensures
        i64::MIN <= n <= i64::MAX ==> clamp_i64(n) == n,
        n > i64::MAX ==> clamp_i64(n) == i64::MAX,
        n < i64::MIN ==> clamp_i64(n) == i64::MIN,
{
}

} // verus!
