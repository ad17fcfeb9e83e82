//! History tab: executions grouped by batch, newest first.
use crate::dashboard::theme::{
    exec_status_color, ACCENT, FAILURE, SUCCESS_DIM, TEXT_DIM, TEXT_MUTED, TEXT_NORMAL,
};
use crate::dashboard::theme;
use crate::dashboard::views::activity;
use crate::dashboard::views::ops_list;
use crate::dashboard::views::{format_duration_ms, humanize_exec_status, truncate};
use crate::dashboard::views;
use crate::sort::{stable_sort, Order, Ranked};
use crate::sort;
use crate::store::ExecutionRow;
use crate::style::{fg, plain, Line, RowView, TableRow};
use crate::style;
use crate::text::{cat, cat3, i64_text, less, str_eq, usize_text};
use crate::text;
use vstd::prelude::*;
use vstd::seq_lib::*;

verus! {

/// The group key of executions without a batch.
pub const HISTORY_UNBATCHED_KEY: &'static str = "__UNBATCHED__";

/// A selectable entry of the History table.
#[derive(Debug, Clone, PartialEq, Eq)]
pub enum HistorySelectable {
    Batch(String),
    Execution(usize),
}

/// What an entry stands for.
pub enum HistoryTarget {
    Batch(Seq<char>),
    Execution(usize),
}

impl View for HistorySelectable {
    type V = HistoryTarget;

    open spec fn view(&self) -> HistoryTarget {
        match self {
            HistorySelectable::Batch(k) => HistoryTarget::Batch(k@),
            HistorySelectable::Execution(i) => HistoryTarget::Execution(*i),
        }
    }
}

/// The group key of a batch id.
pub fn history_batch_key(batch_id: Option<&str>) -> (r: String)
    ensures
        r@ == match batch_id {
            Some(b) => b@,
            None => HISTORY_UNBATCHED_KEY@,
        },
{
    match batch_id {
        Some(b) => b.to_owned(),
        None => HISTORY_UNBATCHED_KEY.to_owned(),
    }
}

/// The label of a group.
pub open spec fn group_label(key: Seq<char>) -> Seq<char> {
    if key == HISTORY_UNBATCHED_KEY@ {
        "Unbatched"@
    } else {
        key
    }
}

/// The label of a group.
pub fn history_batch_display(batch_key: &str) -> (r: String)
    ensures
        r@ == group_label(batch_key@),
{
    if str_eq(batch_key, HISTORY_UNBATCHED_KEY) {
        "Unbatched".to_owned()
    } else {
        batch_key.to_owned()
    }
}

// ── Order within a group ─────────────────────────────────────────────────────

/// An execution's index with what it is ordered by.
pub struct ExecRank<'a> {
    pub queued_at: i64,
    pub id: &'a str,
    pub idx: usize,
}

/// What an execution is ordered by.
pub struct ExecKey {
    pub queued_at: i64,
    pub id: Seq<char>,
    pub idx: usize,
}

impl<'a> View for ExecRank<'a> {
    type V = ExecKey;

    open spec fn view(&self) -> ExecKey {
        ExecKey { queued_at: self.queued_at, id: self.id@, idx: self.idx }
    }
}

/// The latest queued comes first; of equally late ones the greater id.
impl Order for ExecKey {
    open spec fn before(self, other: Self) -> bool {
        self.queued_at > other.queued_at || (self.queued_at == other.queued_at && text::text_less(
            other.id,
            self.id,
        ))
    }

    proof fn before_asymmetric(a: Self, b: Self) {
        if text::text_less(a.id, b.id) && text::text_less(b.id, a.id) {
            text::lemma_less_transitive(a.id, b.id, a.id);
            text::lemma_less_irreflexive(a.id);
        }
    }

    proof fn not_before_transitive(a: Self, b: Self, c: Self) {
        if c.before(a) && a.queued_at == b.queued_at && b.queued_at == c.queued_at {
            text::lemma_less_total(a.id, b.id);
            text::lemma_less_total(b.id, c.id);
            if text::text_less(b.id, a.id) && text::text_less(c.id, b.id) {
                text::lemma_less_transitive(c.id, b.id, a.id);
                text::lemma_less_transitive(a.id, c.id, a.id);
                text::lemma_less_irreflexive(a.id);
            }
        }
    }
}

impl<'a> Ranked for ExecRank<'a> {
    fn is_before(&self, other: &Self) -> (r: bool) {
        self.queued_at > other.queued_at || (self.queued_at == other.queued_at && less(
            other.id,
            self.id,
        ))
    }
}

/// The key of the execution at `i`.
pub open spec fn exec_key(execs: Seq<ExecutionRow>, i: usize) -> ExecKey {
    ExecKey { queued_at: execs[i as int].queued_at, id: execs[i as int].id@, idx: i }
}

/// `idx` with the latest queued first; ties in reverse order of their ids.
pub open spec fn newest_executions(execs: Seq<ExecutionRow>, idx: Seq<usize>) -> Seq<usize> {
    sort::stable_sorted(idx.map_values(|i: usize| exec_key(execs, i))).map_values(|e: ExecKey| e.idx)
}

/// Puts the latest queued first; ties go in reverse order of their ids.
pub fn sort_execution_indices_desc(executions: &[ExecutionRow], indices: &mut Vec<usize>)
    requires
        forall|k: int| 0 <= k < old(indices)@.len() ==> (#[trigger] old(indices)@[k])
            < executions@.len(),
    ensures
        final(indices)@ == newest_executions(executions@, old(indices)@),
        final(indices)@.len() == old(indices)@.len(),
{
    let ghost input = indices@;
    let ghost want = input.map_values(|i: usize| exec_key(executions@, i));
    let mut keyed: Vec<ExecRank> = Vec::new();
    let mut i: usize = 0;
    assert(sort::views(keyed@) =~= want.take(0));
    while i < indices.len()
        invariant
            i <= indices@.len(),
            indices@ == input,
            forall|k: int| 0 <= k < input.len() ==> (#[trigger] input[k]) < executions@.len(),
            want == input.map_values(|i: usize| exec_key(executions@, i)),
            sort::views(keyed@) == want.take(i as int),
        decreases indices@.len() - i,
    {
        let k: usize = indices[i];
        let e: &ExecutionRow = &executions[k];
        let ghost before = sort::views(keyed@);
        let rank: ExecRank = ExecRank { queued_at: e.queued_at, id: e.id.as_str(), idx: k };
        keyed.push(rank);
        assert(sort::views(keyed@) =~= before.push(rank@));
        assert(sort::views(keyed@) =~= want.take(i + 1));
        i += 1;
    }
    assert(want.take(i as int) =~= want);
    let sorted: Vec<ExecRank> = stable_sort(keyed);
    let ghost order = sort::views(sorted@).map_values(|e: ExecKey| e.idx);
    let mut out: Vec<usize> = Vec::new();
    let mut j: usize = 0;
    while j < sorted.len()
        invariant
            j <= sorted@.len(),
            order == sort::views(sorted@).map_values(|e: ExecKey| e.idx),
            out@ == order.take(j as int),
        decreases sorted@.len() - j,
    {
        out.push(sorted[j].idx);
        assert(out@ =~= order.take(j + 1));
        j += 1;
    }
    assert(order.take(j as int) =~= order);
    *indices = out;
}

// ── Groups ───────────────────────────────────────────────────────────────────

/// The group key of an execution.
pub open spec fn key_of(e: ExecutionRow) -> Seq<char> {
    text::text_or(e.batch_id, HISTORY_UNBATCHED_KEY@)
}

/// Whether the batch filter lets an execution through.
pub open spec fn passes(e: ExecutionRow, drill: Option<Seq<char>>) -> bool {
    drill is Some ==> drill == Some(key_of(e))
}

/// The keys that occur, each once, as they first occur.
pub open spec fn group_keys(execs: Seq<ExecutionRow>, drill: Option<Seq<char>>) -> Seq<Seq<char>>
    decreases execs.len(),
{
    if execs.len() == 0 {
        seq![]
    } else {
        let keys = group_keys(execs.drop_last(), drill);
        let e = execs.last();
        if passes(e, drill) && !keys.contains(key_of(e)) {
            keys.push(key_of(e))
        } else {
            keys
        }
    }
}

/// The indices of the executions of a group, in order.
pub open spec fn group_rows(execs: Seq<ExecutionRow>, key: Seq<char>) -> Seq<usize>
    decreases execs.len(),
{
    if execs.len() == 0 {
        seq![]
    } else {
        let rows = group_rows(execs.drop_last(), key);
        if key_of(execs.last()) == key {
            rows.push((execs.len() - 1) as usize)
        } else {
            rows
        }
    }
}

/// When the latest execution of a group was queued.
pub open spec fn group_latest(execs: Seq<ExecutionRow>, key: Seq<char>) -> Option<i64>
    decreases execs.len(),
{
    if execs.len() == 0 {
        None
    } else {
        let t = group_latest(execs.drop_last(), key);
        let e = execs.last();
        if key_of(e) == key {
            match t {
                Some(x) if x >= e.queued_at => Some(x),
                _ => Some(e.queued_at),
            }
        } else {
            t
        }
    }
}

/// A group under construction.
struct Gathered {
    key: String,
    latest: i64,
    rows: Vec<usize>,
}

/// A group with all its rows.
pub struct GroupView {
    pub key: Seq<char>,
    pub latest: i64,
    pub rows: Seq<usize>,
}

impl View for Gathered {
    type V = GroupView;

    closed spec fn view(&self) -> GroupView {
        GroupView { key: self.key@, latest: self.latest, rows: self.rows@ }
    }
}

/// Executions without a batch come first, then the latest group; of equally late
/// ones the smaller key.
impl Order for GroupView {
    open spec fn before(self, other: Self) -> bool {
        let u = HISTORY_UNBATCHED_KEY@;
        if self.key == u && other.key != u {
            true
        } else if other.key == u && self.key != u {
            false
        } else {
            self.latest > other.latest || (self.latest == other.latest && text::text_less(
                self.key,
                other.key,
            ))
        }
    }

    proof fn before_asymmetric(a: Self, b: Self) {
        if text::text_less(a.key, b.key) && text::text_less(b.key, a.key) {
            text::lemma_less_transitive(a.key, b.key, a.key);
            text::lemma_less_irreflexive(a.key);
        }
    }

    proof fn not_before_transitive(a: Self, b: Self, c: Self) {
        if c.before(a) && a.latest == b.latest && b.latest == c.latest {
            text::lemma_less_total(a.key, b.key);
            text::lemma_less_total(b.key, c.key);
            if text::text_less(a.key, b.key) && text::text_less(b.key, c.key) {
                text::lemma_less_transitive(a.key, b.key, c.key);
                if text::text_less(c.key, a.key) {
                    text::lemma_less_transitive(c.key, a.key, c.key);
                    text::lemma_less_irreflexive(c.key);
                }
            }
        }
    }
}

impl Ranked for Gathered {
    fn is_before(&self, other: &Self) -> (r: bool) {
        let a: bool = str_eq(self.key.as_str(), HISTORY_UNBATCHED_KEY);
        let b: bool = str_eq(other.key.as_str(), HISTORY_UNBATCHED_KEY);
        if a && !b {
            true
        } else if b && !a {
            false
        } else {
            self.latest > other.latest || (self.latest == other.latest && less(
                self.key.as_str(),
                other.key.as_str(),
            ))
        }
    }
}

/// The group of a key with all its rows.
pub open spec fn gathered(execs: Seq<ExecutionRow>, key: Seq<char>) -> GroupView {
    GroupView {
        key,
        latest: match group_latest(execs, key) {
            Some(t) => t,
            None => 0,
        },
        rows: group_rows(execs, key),
    }
}

/// The groups as they first occur.
pub open spec fn gathered_groups(execs: Seq<ExecutionRow>, drill: Option<Seq<char>>) -> Seq<
    GroupView,
> {
    group_keys(execs, drill).map_values(|k: Seq<char>| gathered(execs, k))
}

/// A group as it is shown.
#[derive(Debug, Clone)]
pub struct BatchGroup {
    pub key: String,
    pub label: String,
    pub indices: Vec<usize>,
    pub hidden_count: usize,
}

/// What a shown group says.
pub struct BatchGroupView {
    pub key: Seq<char>,
    pub label: Seq<char>,
    pub indices: Seq<usize>,
    pub hidden_count: nat,
}

impl View for BatchGroup {
    type V = BatchGroupView;

    open spec fn view(&self) -> BatchGroupView {
        BatchGroupView {
            key: self.key@,
            label: self.label@,
            indices: self.indices@,
            hidden_count: self.hidden_count as nat,
        }
    }
}

/// A group cut to its newest `limit` executions, at least one.
pub open spec fn shown_group(execs: Seq<ExecutionRow>, g: GroupView, limit: nat) -> BatchGroupView {
    let keep: nat = if limit == 0 {
        1
    } else {
        limit
    };
    BatchGroupView {
        key: g.key,
        label: group_label(g.key),
        indices: activity::capped(newest_executions(execs, g.rows), keep),
        hidden_count: if g.rows.len() > keep {
            (g.rows.len() - keep) as nat
        } else {
            0
        },
    }
}

/// The groups as they are shown.
pub open spec fn history_groups(
    execs: Seq<ExecutionRow>,
    drill: Option<Seq<char>>,
    limit: nat,
) -> Seq<BatchGroupView> {
    sort::stable_sorted(gathered_groups(execs, drill)).map_values(
        |g: GroupView| shown_group(execs, g, limit),
    )
}

proof fn lemma_group_rows(execs: Seq<ExecutionRow>, key: Seq<char>)
    requires
        execs.len() <= usize::MAX,
    ensures
        forall|i: usize| #[trigger]
            group_rows(execs, key).contains(i) <==> i < execs.len() && key_of(execs[i as int])
                == key,
        forall|a: int, b: int|
            0 <= a < b < group_rows(execs, key).len() ==> (#[trigger] group_rows(execs, key)[a]) < (
            #[trigger] group_rows(execs, key)[b]),
    decreases execs.len(),
{
    if execs.len() > 0 {
        let prev = execs.drop_last();
        lemma_group_rows(prev, key);
        let p = group_rows(prev, key);
        let all = group_rows(execs, key);
        assert forall|i: usize| #[trigger]
            all.contains(i) <==> i < execs.len() && key_of(execs[i as int]) == key by {
            assert(i < prev.len() ==> prev[i as int] == execs[i as int]);
            if p.contains(i) {
                let k = choose|k: int| 0 <= k < p.len() && p[k] == i;
                assert(all[k] == i);
            }
            if key_of(execs.last()) == key {
                assert(all[p.len() as int] == (execs.len() - 1) as usize);
            }
            if all.contains(i) && !p.contains(i) {
                let k = choose|k: int| 0 <= k < all.len() && all[k] == i;
                if k < p.len() {
                    assert(p[k] == i);
                }
            }
        }
        assert forall|a: int, b: int| 0 <= a < b < all.len() implies (#[trigger] all[a]) < (
        #[trigger] all[b]) by {
            assert(p.contains(p[a]));
            if b < p.len() {
                assert(p[a] < p[b]);
            }
        }
    }
}

proof fn lemma_group_keys(execs: Seq<ExecutionRow>, drill: Option<Seq<char>>)
    ensures
        group_keys(execs, drill).no_duplicates(),
        forall|key: Seq<char>| #[trigger]
            group_keys(execs, drill).contains(key) <==> exists|i: int|
                0 <= i < execs.len() && passes(execs[i], drill) && #[trigger] key_of(execs[i])
                    == key,
    decreases execs.len(),
{
    if execs.len() > 0 {
        let prev = execs.drop_last();
        lemma_group_keys(prev, drill);
        let p = group_keys(prev, drill);
        let all = group_keys(execs, drill);
        assert forall|key: Seq<char>| #[trigger]
            all.contains(key) <==> exists|i: int|
                0 <= i < execs.len() && passes(execs[i], drill) && #[trigger] key_of(execs[i])
                    == key by {
            if all.contains(key) {
                if p.contains(key) {
                    let i = choose|i: int|
                        0 <= i < prev.len() && passes(prev[i], drill) && #[trigger] key_of(prev[i])
                            == key;
                    assert(key_of(execs[i]) == key);
                } else {
                    assert(key_of(execs[execs.len() - 1]) == key);
                }
            }
            if exists|i: int|
                0 <= i < execs.len() && passes(execs[i], drill) && #[trigger] key_of(execs[i])
                    == key {
                let i = choose|i: int|
                    0 <= i < execs.len() && passes(execs[i], drill) && #[trigger] key_of(execs[i])
                        == key;
                if i < prev.len() {
                    assert(key_of(prev[i]) == key);
                    assert(p.contains(key));
                }
                if p.contains(key) {
                    let k = choose|k: int| 0 <= k < p.len() && p[k] == key;
                    assert(all[k] == key);
                } else {
                    assert(all[p.len() as int] == key);
                }
            }
        }
    }
}

/// A group of which no execution has been seen has neither rows nor a time.
proof fn lemma_group_absent(execs: Seq<ExecutionRow>, key: Seq<char>)
    requires
        forall|i: int| 0 <= i < execs.len() ==> key_of(#[trigger] execs[i]) != key,
    ensures
        group_rows(execs, key) == Seq::<usize>::empty(),
        group_latest(execs, key) is None,
    decreases execs.len(),
{
    if execs.len() > 0 {
        assert(execs[execs.len() - 1] == execs.last());
        assert forall|i: int| 0 <= i < execs.drop_last().len() implies key_of(
            #[trigger] execs.drop_last()[i],
        ) != key by {
            assert(execs[i] == execs.drop_last()[i]);
        }
        lemma_group_absent(execs.drop_last(), key);
    }
}

/// A group of which an execution has been seen has a time.
proof fn lemma_group_present(execs: Seq<ExecutionRow>, key: Seq<char>, i: int)
    requires
        0 <= i < execs.len(),
        key_of(execs[i]) == key,
    ensures
        group_latest(execs, key) is Some,
    decreases execs.len(),
{
    if i < execs.len() - 1 {
        assert(execs.drop_last()[i] == execs[i]);
        lemma_group_present(execs.drop_last(), key, i);
    }
}

/// A further execution changes its own group only.
proof fn lemma_gather_step(execs: Seq<ExecutionRow>, drill: Option<Seq<char>>)
    requires
        execs.len() > 0,
    ensures
        !passes(execs.last(), drill) ==> gathered_groups(execs, drill) == gathered_groups(
            execs.drop_last(),
            drill,
        ),
        forall|k: int|
            0 <= k < group_keys(execs.drop_last(), drill).len() && passes(execs.last(), drill)
                && key_of(execs.last()) == group_keys(execs.drop_last(), drill)[k]
                ==> gathered_groups(execs, drill) == #[trigger] gathered_groups(
                execs.drop_last(),
                drill,
            ).update(k, gathered(execs, key_of(execs.last()))),
        passes(execs.last(), drill) && !group_keys(execs.drop_last(), drill).contains(
            key_of(execs.last()),
        ) ==> gathered_groups(execs, drill) == gathered_groups(execs.drop_last(), drill).push(
            gathered(execs, key_of(execs.last())),
        ),
{
    let prev = execs.drop_last();
    let keys = group_keys(prev, drill);
    let old_g = gathered_groups(prev, drill);
    let new_g = gathered_groups(execs, drill);
    let e = execs.last();
    lemma_group_keys(prev, drill);
    if !passes(e, drill) {
        assert forall|k: int| 0 <= k < keys.len() implies keys[k] != key_of(e) by {
            assert(keys.contains(keys[k]));
        }
        assert(new_g =~= old_g);
    } else if keys.contains(key_of(e)) {
        assert forall|k: int| 0 <= k < keys.len() && key_of(e) == keys[k] implies new_g
            == #[trigger] old_g.update(k, gathered(execs, key_of(e))) by {
            assert(new_g =~= old_g.update(k, gathered(execs, key_of(e))));
        }
    } else {
        assert forall|k: int| 0 <= k < keys.len() implies keys[k] != key_of(e) by {
            assert(keys.contains(keys[k]));
        }
        assert(new_g =~= old_g.push(gathered(execs, key_of(e))));
    }
}

/// The order keeps exactly the groups, each with the rows of its key.
proof fn lemma_sorted_groups(execs: Seq<ExecutionRow>, drill: Option<Seq<char>>)
    ensures
        forall|k: int|
            0 <= k < sort::stable_sorted(gathered_groups(execs, drill)).len() ==> (
            #[trigger] sort::stable_sorted(gathered_groups(execs, drill))[k]) == gathered(
                execs,
                sort::stable_sorted(gathered_groups(execs, drill))[k].key,
            ) && group_keys(execs, drill).contains(
                sort::stable_sorted(gathered_groups(execs, drill))[k].key,
            ),
        sort::stable_sorted(gathered_groups(execs, drill)).len() == group_keys(execs, drill).len(),
{
    broadcast use group_to_multiset_ensures;

    let all = gathered_groups(execs, drill);
    let sorted = sort::stable_sorted(all);
    sort::lemma_stable_sorted(all);
    assert forall|k: int| 0 <= k < sorted.len() implies (#[trigger] sorted[k]) == gathered(
        execs,
        sorted[k].key,
    ) && group_keys(execs, drill).contains(sorted[k].key) by {
        assert(sorted.contains(sorted[k]));
        assert(all.to_multiset().count(sorted[k]) > 0);
        let w = choose|w: int| 0 <= w < all.len() && all[w] == sorted[k];
        assert(all[w] == gathered(execs, group_keys(execs, drill)[w]));
    }
}

/// Sorting executions keeps exactly the indices.
proof fn lemma_newest_in_range(execs: Seq<ExecutionRow>, idx: Seq<usize>)
    ensures
        newest_executions(execs, idx).len() == idx.len(),
        forall|i: usize| #[trigger] newest_executions(execs, idx).contains(i) <==> idx.contains(i),
        forall|k: int|
            0 <= k < idx.len() ==> idx.contains(#[trigger] newest_executions(execs, idx)[k]),
{
    broadcast use group_to_multiset_ensures;

    let keyed = idx.map_values(|i: usize| exec_key(execs, i));
    let sorted = sort::stable_sorted(keyed);
    sort::lemma_stable_sorted(keyed);
    let out = newest_executions(execs, idx);
    assert forall|k: int| 0 <= k < sorted.len() implies idx.contains((#[trigger] sorted[k]).idx) by {
        assert(sorted.contains(sorted[k]));
        assert(keyed.to_multiset().count(sorted[k]) > 0);
        let w = choose|w: int| 0 <= w < keyed.len() && keyed[w] == sorted[k];
        assert(idx[w] == sorted[k].idx);
    }
    assert forall|k: int| 0 <= k < idx.len() implies idx.contains(#[trigger] out[k]) by {
        assert(out[k] == sorted[k].idx);
    }
    assert forall|i: usize| #[trigger] out.contains(i) <==> idx.contains(i) by {
        if out.contains(i) {
            let k = choose|k: int| 0 <= k < out.len() && out[k] == i;
            assert(idx.contains(out[k]));
        }
        if idx.contains(i) {
            let w = choose|w: int| 0 <= w < idx.len() && idx[w] == i;
            let e = keyed[w];
            assert(keyed.contains(e));
            assert(sorted.to_multiset().count(e) > 0);
            assert(sorted.contains(e));
            let k = choose|k: int| 0 <= k < sorted.len() && sorted[k] == e;
            assert(out[k] == i);
        }
    }
}

fn find_group(out: &Vec<Gathered>, key: &str) -> (r: usize)
    ensures
        r <= out@.len(),
        r < out@.len() ==> out@[r as int].key@ == key@,
        forall|k: int| 0 <= k < r ==> (#[trigger] out@[k]).key@ != key@,
{
    let mut i: usize = 0;
    while i < out.len()
        invariant
            i <= out@.len(),
            forall|k: int| 0 <= k < i ==> (#[trigger] out@[k]).key@ != key@,
        decreases out@.len() - i,
    {
        if str_eq(out[i].key.as_str(), key) {
            return i;
        }
        i += 1;
    }
    i
}

fn copy_indices(v: &Vec<usize>, n: usize) -> (r: Vec<usize>)
    requires
        n <= v@.len(),
    ensures
        r@ == v@.take(n as int),
{
    let mut out: Vec<usize> = Vec::new();
    let mut i: usize = 0;
    while i < n
        invariant
            i <= n <= v@.len(),
            out@ == v@.take(i as int),
        decreases n - i,
    {
        out.push(v[i]);
        i += 1;
    }
    out
}

fn gather(executions: &[ExecutionRow], drill_batch: Option<&str>) -> (r: Vec<Gathered>)
    ensures
        sort::views(r@) == gathered_groups(executions@, activity::drill_text(drill_batch)),
{
    let ghost drill = activity::drill_text(drill_batch);
    let mut out: Vec<Gathered> = Vec::new();
    let mut i: usize = 0;
    assert(sort::views(out@) =~= gathered_groups(executions@.take(0), drill));
    while i < executions.len()
        invariant
            i <= executions@.len(),
            drill == activity::drill_text(drill_batch),
            sort::views(out@) == gathered_groups(executions@.take(i as int), drill),
        decreases executions@.len() - i,
    {
        let ghost prev = executions@.take(i as int);
        let ghost next = executions@.take(i + 1);
        let ghost before = sort::views(out@);
        let e: &ExecutionRow = &executions[i];
        assert(next.drop_last() =~= prev);
        assert(next.last() == *e);
        let batch: Option<&str> = match &e.batch_id {
            Some(b) => Some(b.as_str()),
            None => None,
        };
        let owned: String = history_batch_key(batch);
        let key: &str = owned.as_str();
        let pass: bool = match drill_batch {
            Some(d) => str_eq(d, key),
            None => true,
        };
        proof {
            lemma_gather_step(next, drill);
            lemma_group_keys(prev, drill);
            assert(before.len() == out@.len() && before.len() == group_keys(prev, drill).len());
            assert forall|k: int| 0 <= k < out@.len() implies (#[trigger] out@[k]).key@
                == group_keys(prev, drill)[k] && out@[k]@ == gathered(
                prev,
                group_keys(prev, drill)[k],
            ) by {
                assert(before[k] == out@[k]@);
            }
        }
        if pass {
            let k: usize = find_group(&out, key);
            if k < out.len() {
                proof {
                    assert(group_keys(prev, drill).contains(key@));
                    let w = choose|w: int|
                        0 <= w < prev.len() && passes(prev[w], drill) && #[trigger] key_of(prev[w])
                            == key@;
                    lemma_group_present(prev, key@, w);
                }
                let mut rows: Vec<usize> = copy_indices(&out[k].rows, out[k].rows.len());
                rows.push(i);
                let latest: i64 = if out[k].latest >= e.queued_at {
                    out[k].latest
                } else {
                    e.queued_at
                };
                let g: Gathered = Gathered { key: key.to_owned(), latest, rows };
                proof {
                    assert(out@[k as int]@ == gathered(prev, key@));
                    assert(out@[k as int].rows@ == group_rows(prev, key@));
                    assert(rows@ =~= group_rows(prev, key@).push(i));
                    assert(g@ == gathered(next, key@));
                    assert(gathered_groups(next, drill) == before.update(k as int, g@));
                }
                out.set(k, g);
                assert(sort::views(out@) =~= before.update(k as int, g@));
            } else {
                proof {
                    if group_keys(prev, drill).contains(key@) {
                        let w = choose|w: int|
                            0 <= w < group_keys(prev, drill).len() && group_keys(prev, drill)[w]
                                == key@;
                        assert(out@[w].key@ == key@);
                    }
                    assert forall|w: int| 0 <= w < prev.len() implies key_of(#[trigger] prev[w])
                        != key@ by {
                        if key_of(prev[w]) == key@ {
                            assert(passes(prev[w], drill));
                            assert(group_keys(prev, drill).contains(key@));
                        }
                    }
                    lemma_group_absent(prev, key@);
                }
                let mut rows: Vec<usize> = Vec::new();
                rows.push(i);
                let g: Gathered = Gathered { key: key.to_owned(), latest: e.queued_at, rows };
                proof {
                    assert(rows@ =~= group_rows(prev, key@).push(i));
                    assert(g@ == gathered(next, key@));
                }
                out.push(g);
                assert(sort::views(out@) =~= before.push(g@));
            }
        }
        i += 1;
    }
    assert(executions@.take(i as int) =~= executions@);
    out
}

/// The groups as they are shown: `per_group_limit` executions each, at least one.
pub fn group_execution_indices_by_batch(
    executions: &[ExecutionRow],
    drill_batch: Option<&str>,
    per_group_limit: usize,
) -> (r: Vec<BatchGroup>)
    ensures
        sort::views(r@) == history_groups(
            executions@,
            activity::drill_text(drill_batch),
            per_group_limit as nat,
        ),
        forall|k: int, j: int|
            0 <= k < r@.len() && 0 <= j < r@[k].indices@.len() ==> (
            #[trigger] r@[k].indices@[j]) < executions@.len(),
{
    let ghost drill = activity::drill_text(drill_batch);
    let n: usize = executions.len();
    let found: Vec<Gathered> = gather(executions, drill_batch);
    let sorted: Vec<Gathered> = stable_sort(found);
    let keep: usize = if per_group_limit == 0 {
        1
    } else {
        per_group_limit
    };
    let ghost all = sort::views(sorted@);
    let ghost want = history_groups(executions@, drill, per_group_limit as nat);
    proof {
        lemma_sorted_groups(executions@, drill);
    }
    let mut out: Vec<BatchGroup> = Vec::new();
    let mut i: usize = 0;
    assert(sort::views(out@) =~= want.take(0));
    while i < sorted.len()
        invariant
            i <= sorted@.len(),
            n == executions@.len(),
            all == sort::views(sorted@),
            all == sort::stable_sorted(gathered_groups(executions@, drill)),
            want == history_groups(executions@, drill, per_group_limit as nat),
            keep == if per_group_limit == 0 {
                1usize
            } else {
                per_group_limit
            },
            forall|k: int|
                0 <= k < all.len() ==> (#[trigger] all[k]).rows == group_rows(
                    executions@,
                    all[k].key,
                ),
            sort::views(out@) == want.take(i as int),
            forall|k: int, j: int|
                0 <= k < out@.len() && 0 <= j < out@[k].indices@.len() ==> (
                #[trigger] out@[k].indices@[j]) < executions@.len(),
        decreases sorted@.len() - i,
    {
        let ghost before = sort::views(out@);
        let ghost g = all[i as int];
        assert(g == sorted@[i as int]@);
        let mut indices: Vec<usize> = copy_indices(&sorted[i].rows, sorted[i].rows.len());
        proof {
            assert(indices@ =~= g.rows);
            lemma_group_rows(executions@, g.key);
            assert forall|k: int| 0 <= k < indices@.len() implies (#[trigger] indices@[k])
                < executions@.len() by {
                assert(group_rows(executions@, g.key).contains(indices@[k]));
            }
        }
        sort_execution_indices_desc(executions, &mut indices);
        proof {
            lemma_newest_in_range(executions@, g.rows);
        }
        let len: usize = indices.len();
        let hidden: usize = len.saturating_sub(keep);
        let shown: Vec<usize> = if len > keep {
            copy_indices(&indices, keep)
        } else {
            indices
        };
        let group: BatchGroup = BatchGroup {
            key: sorted[i].key.clone(),
            label: history_batch_display(sorted[i].key.as_str()),
            indices: shown,
            hidden_count: hidden,
        };
        assert(group@ == shown_group(executions@, g, per_group_limit as nat));
        out.push(group);
        assert(sort::views(out@) =~= before.push(group@));
        assert(sort::views(out@) =~= want.take(i + 1));
        i += 1;
    }
    assert(want.take(i as int) =~= want);
    out
}

// ── Selectable entries ───────────────────────────────────────────────────────

/// Executions as entries.
pub open spec fn execution_targets(idx: Seq<usize>) -> Seq<HistoryTarget> {
    idx.map_values(|i: usize| HistoryTarget::Execution(i))
}

/// The entries of the groups: each group's header, unless the table is filtered,
/// and then its executions.
pub open spec fn group_targets(groups: Seq<BatchGroupView>, with_headers: bool) -> Seq<
    HistoryTarget,
>
    decreases groups.len(),
{
    if groups.len() == 0 {
        seq![]
    } else {
        let rest = group_targets(groups.drop_last(), with_headers);
        let g = groups.last();
        (if with_headers {
            rest.push(HistoryTarget::Batch(g.key))
        } else {
            rest
        }) + execution_targets(g.indices)
    }
}

/// The selectable entries of the History table, top to bottom.
pub open spec fn history_targets(
    execs: Seq<ExecutionRow>,
    drill: Option<Seq<char>>,
    limit: nat,
) -> Seq<HistoryTarget> {
    group_targets(history_groups(execs, drill, limit), drill is None)
}

fn push_executions(out: &mut Vec<HistorySelectable>, idx: &Vec<usize>)
    ensures
        sort::views(final(out)@) == sort::views(old(out)@) + execution_targets(idx@),
{
    let ghost start = sort::views(out@);
    let ghost all = execution_targets(idx@);
    let mut i: usize = 0;
    assert(sort::views(out@) =~= start + all.take(0));
    while i < idx.len()
        invariant
            i <= idx@.len(),
            all == execution_targets(idx@),
            sort::views(out@) == start + all.take(i as int),
        decreases idx@.len() - i,
    {
        let ghost before = sort::views(out@);
        out.push(HistorySelectable::Execution(idx[i]));
        assert(sort::views(out@) =~= before.push(all[i as int]));
        assert(sort::views(out@) =~= start + all.take(i + 1));
        i += 1;
    }
    assert(all.take(i as int) =~= all);
}

/// The selectable entries of the History table, top to bottom.
pub fn history_selectable_targets(
    executions: &[ExecutionRow],
    drill_batch: Option<&str>,
    per_group_limit: usize,
) -> (r: Vec<HistorySelectable>)
    ensures
        sort::views(r@) == history_targets(executions@, activity::drill_text(drill_batch), per_group_limit as nat),
{
    let groups: Vec<BatchGroup> = group_execution_indices_by_batch(
        executions,
        drill_batch,
        per_group_limit,
    );
    let headers: bool = drill_batch.is_none();
    let ghost all = sort::views(groups@);
    let mut out: Vec<HistorySelectable> = Vec::new();
    let mut i: usize = 0;
    assert(sort::views(out@) =~= group_targets(all.take(0), headers));
    while i < groups.len()
        invariant
            i <= groups@.len(),
            all == sort::views(groups@),
            sort::views(out@) == group_targets(all.take(i as int), headers),
        decreases groups@.len() - i,
    {
        assert(all.take(i + 1).drop_last() =~= all.take(i as int));
        assert(all.take(i + 1).last() == groups@[i as int]@);
        if headers {
            let ghost before = sort::views(out@);
            out.push(HistorySelectable::Batch(groups[i].key.clone()));
            assert(sort::views(out@) =~= before.push(HistoryTarget::Batch(groups@[i as int].key@)));
        }
        push_executions(&mut out, &groups[i].indices);
        i += 1;
    }
    assert(all.take(i as int) =~= all);
    out
}

/// How many entries can be selected.
pub fn history_selectable_count(
    executions: &[ExecutionRow],
    drill_batch: Option<&str>,
    per_group_limit: usize,
) -> (r: usize)
    ensures
        r == history_targets(executions@, activity::drill_text(drill_batch), per_group_limit as nat).len(),
{
    history_selectable_targets(executions, drill_batch, per_group_limit).len()
}

/// The entry at position `selected`, if there is one.
pub fn history_selected_target(
    executions: &[ExecutionRow],
    drill_batch: Option<&str>,
    selected: usize,
    per_group_limit: usize,
) -> (r: Option<HistorySelectable>)
    ensures
        ({
            let t = history_targets(executions@, activity::drill_text(drill_batch), per_group_limit as nat);
            match r {
                Some(x) => selected < t.len() && x@ == t[selected as int],
                None => selected >= t.len(),
            }
        }),
{
    let mut t: Vec<HistorySelectable> = history_selectable_targets(
        executions,
        drill_batch,
        per_group_limit,
    );
    if selected < t.len() {
        let ghost all = t@;
        let x: HistorySelectable = t.swap_remove(selected);
        assert(sort::views(all)[selected as int] == x@);
        Some(x)
    } else {
        None
    }
}

// ── Laws ─────────────────────────────────────────────────────────────────────

/// Every execution that passes the filter has a group of its batch, and no batch
/// has two.
pub proof fn law_one_group_per_batch(
    execs: Seq<ExecutionRow>,
    drill: Option<Seq<char>>,
    limit: nat,
)
    ensures
        forall|i: int|
            0 <= i < execs.len() && passes(#[trigger] execs[i], drill) ==> exists|k: int|
                0 <= k < history_groups(execs, drill, limit).len() && (#[trigger] history_groups(
                    execs,
                    drill,
                    limit,
                )[k]).key == key_of(execs[i]),
        forall|k: int, l: int|
            0 <= k < l < history_groups(execs, drill, limit).len() ==> (#[trigger] history_groups(
                execs,
                drill,
                limit,
            )[k]).key != (#[trigger] history_groups(execs, drill, limit)[l]).key,
{
    broadcast use group_to_multiset_ensures;

    let keys = group_keys(execs, drill);
    let all = gathered_groups(execs, drill);
    let sorted = sort::stable_sorted(all);
    let groups = history_groups(execs, drill, limit);
    lemma_group_keys(execs, drill);
    lemma_sorted_groups(execs, drill);
    sort::lemma_stable_sorted(all);
    assert(all.no_duplicates());
    all.lemma_multiset_has_no_duplicates();
    sorted.lemma_multiset_has_no_duplicates_conv();
    assert forall|k: int, l: int| 0 <= k < l < groups.len() implies (#[trigger] groups[k]).key != (
    #[trigger] groups[l]).key by {
        assert(groups[k].key == sorted[k].key);
        assert(groups[l].key == sorted[l].key);
        assert(sorted[k] != sorted[l]);
    }
    assert forall|i: int| 0 <= i < execs.len() && passes(#[trigger] execs[i], drill) implies exists|
        k: int,
    |
        0 <= k < groups.len() && (#[trigger] groups[k]).key == key_of(execs[i]) by {
        assert(keys.contains(key_of(execs[i])));
        let w = choose|w: int| 0 <= w < keys.len() && keys[w] == key_of(execs[i]);
        assert(all[w].key == key_of(execs[i]));
        assert(all.contains(all[w]));
        assert(sorted.to_multiset().count(all[w]) > 0);
        let k = choose|k: int| 0 <= k < sorted.len() && sorted[k] == all[w];
        assert(groups[k].key == key_of(execs[i]));
    }
}

/// Every shown index of a group is that of an execution of the group's batch
/// that passes the filter, and shown and hidden executions add up to all of the
/// batch's.
pub proof fn law_groups_partition(
    execs: Seq<ExecutionRow>,
    drill: Option<Seq<char>>,
    limit: nat,
    k: int,
)
    requires
        execs.len() <= usize::MAX,
        0 <= k < history_groups(execs, drill, limit).len(),
    ensures
        ({
            let g = history_groups(execs, drill, limit)[k];
            &&& group_keys(execs, drill).contains(g.key)
            &&& g.label == group_label(g.key)
            &&& g.indices.len() + g.hidden_count == group_rows(execs, g.key).len()
            &&& forall|j: int|
                0 <= j < g.indices.len() ==> (#[trigger] g.indices[j]) < execs.len() && key_of(
                    execs[g.indices[j] as int],
                ) == g.key && passes(execs[g.indices[j] as int], drill)
        }),
        history_groups(execs, drill, limit).len() == group_keys(execs, drill).len(),
{
    lemma_sorted_groups(execs, drill);
    let gv = sort::stable_sorted(gathered_groups(execs, drill))[k];
    lemma_group_rows(execs, gv.key);
    lemma_newest_in_range(execs, gv.rows);
    lemma_group_keys(execs, drill);
    let g = history_groups(execs, drill, limit)[k];
    assert(g == shown_group(execs, gv, limit));
    let w = choose|w: int|
        0 <= w < execs.len() && passes(execs[w], drill) && #[trigger] key_of(execs[w]) == gv.key;
    assert forall|j: int| 0 <= j < g.indices.len() implies (#[trigger] g.indices[j]) < execs.len()
        && key_of(execs[g.indices[j] as int]) == g.key && passes(
        execs[g.indices[j] as int],
        drill,
    ) by {
        assert(g.indices[j] == newest_executions(execs, gv.rows)[j]);
        assert(gv.rows.contains(g.indices[j]));
    }
}

/// With the batch of an execution as the filter, the one group is that batch's,
/// as it stands among all groups.
proof fn lemma_drill_group(execs: Seq<ExecutionRow>, key: Seq<char>, limit: nat, i: int)
    requires
        0 <= i < execs.len(),
        key_of(execs[i]) == key,
    ensures
        history_groups(execs, Some(key), limit) == seq![
            shown_group(execs, gathered(execs, key), limit),
        ],
{
    let keys = group_keys(execs, Some(key));
    lemma_group_keys(execs, Some(key));
    assert(passes(execs[i], Some(key)));
    assert(keys.contains(key));
    assert forall|k: int| 0 <= k < keys.len() implies keys[k] == key by {
        assert(keys.contains(keys[k]));
        let w = choose|w: int|
            0 <= w < execs.len() && passes(execs[w], Some(key)) && #[trigger] key_of(execs[w])
                == keys[k];
        assert(key_of(execs[w]) == key);
    }
    if keys.len() > 1 {
        assert(keys[0] == keys[1]);
    }
    lemma_sorted_groups(execs, Some(key));
    let g = sort::stable_sorted(gathered_groups(execs, Some(key)))[0];
    assert(keys.contains(g.key));
    assert(history_groups(execs, Some(key), limit) =~= seq![
        shown_group(execs, gathered(execs, key), limit),
    ]);
}

/// Whether `part` stands in the list directly behind the entry at `at`, with
/// nothing after it but the next header.
pub open spec fn stands_behind(all: Seq<HistoryTarget>, at: int, part: Seq<HistoryTarget>) -> bool {
    let end = at + 1 + part.len();
    &&& end <= all.len()
    &&& all.subrange(at + 1, end) == part
    &&& end == all.len() || all[end] is Batch
}

/// Behind a header stand the executions of its group.
proof fn lemma_behind_header(groups: Seq<BatchGroupView>, at: int, key: Seq<char>) -> (k: int)
    requires
        0 <= at < group_targets(groups, true).len(),
        group_targets(groups, true)[at] == HistoryTarget::Batch(key),
    ensures
        0 <= k < groups.len(),
        groups[k].key == key,
        stands_behind(group_targets(groups, true), at, execution_targets(groups[k].indices)),
    decreases groups.len(),
{
    let all = group_targets(groups, true);
    let rest = group_targets(groups.drop_last(), true);
    let last = groups.last();
    let shown = execution_targets(last.indices);
    assert(all == rest.push(HistoryTarget::Batch(last.key)) + shown);
    if at < rest.len() {
        assert(all[at] == rest[at]);
        let k = lemma_behind_header(groups.drop_last(), at, key);
        let part = execution_targets(groups[k].indices);
        let end = at + 1 + part.len();
        assert(all.subrange(at + 1, end) =~= rest.subrange(at + 1, end));
        assert(all[rest.len() as int] is Batch);
        k
    } else {
        if at > rest.len() {
            assert(all[at] == shown[at - rest.len() - 1]);
        }
        assert(all.subrange(at + 1, all.len() as int) =~= shown);
        groups.len() - 1
    }
}

/// Opening a batch shows what stands under its header in the unfiltered list:
/// exactly the executions directly behind the header, in the same order.
pub proof fn law_drill_shows_its_batch(
    execs: Seq<ExecutionRow>,
    limit: nat,
    at: int,
    key: Seq<char>,
)
    requires
        0 <= at < history_targets(execs, None, limit).len(),
        history_targets(execs, None, limit)[at] == HistoryTarget::Batch(key),
    ensures
        stands_behind(
            history_targets(execs, None, limit),
            at,
            history_targets(execs, Some(key), limit),
        ),
        forall|j: int|
            0 <= j < history_targets(execs, Some(key), limit).len() ==> (
            #[trigger] history_targets(execs, Some(key), limit)[j]) is Execution,
{
    let groups = history_groups(execs, None, limit);
    let k = lemma_behind_header(groups, at, key);
    lemma_sorted_groups(execs, None);
    lemma_group_keys(execs, None);
    let g = sort::stable_sorted(gathered_groups(execs, None))[k];
    assert(groups[k] == shown_group(execs, g, limit));
    assert(g == gathered(execs, key));
    assert(group_keys(execs, None).contains(key));
    let i = choose|i: int|
        0 <= i < execs.len() && passes(execs[i], None) && #[trigger] key_of(execs[i]) == key;
    lemma_drill_group(execs, key, limit, i);
    let drilled = history_groups(execs, Some(key), limit);
    assert(drilled.drop_last() =~= seq![]);
    assert(group_targets(drilled.drop_last(), false) =~= seq![]);
    assert(history_targets(execs, Some(key), limit) =~= execution_targets(groups[k].indices));
}

/// With a batch filter and a limit that cuts nothing, every execution of the
/// batch is shown and no other.
pub proof fn law_drill_shows_whole_batch(
    execs: Seq<ExecutionRow>,
    key: Seq<char>,
    limit: nat,
    i: int,
)
    requires
        execs.len() <= usize::MAX,
        0 <= i < execs.len(),
        key_of(execs[i]) == key,
        group_rows(execs, key).len() <= limit,
    ensures
        ({
            let groups = history_groups(execs, Some(key), limit);
            &&& groups.len() == 1
            &&& groups[0].key == key
            &&& groups[0].hidden_count == 0
            &&& forall|j: usize|
                #![trigger groups[0].indices.contains(j)]
                groups[0].indices.contains(j) <==> j < execs.len() && key_of(execs[j as int])
                    == key
        }),
{
    lemma_drill_group(execs, key, limit, i);
    let g = gathered(execs, key);
    lemma_group_rows(execs, key);
    lemma_newest_in_range(execs, g.rows);
    let groups = history_groups(execs, Some(key), limit);
    assert forall|j: usize|
        #![trigger groups[0].indices.contains(j)]
        groups[0].indices.contains(j) <==> j < execs.len() && key_of(execs[j as int]) == key by {
        assert(newest_executions(execs, g.rows).contains(j) <==> g.rows.contains(j));
        assert(g.rows.contains(j) <==> j < execs.len() && key_of(execs[j as int]) == key);
    }
}

/// Executions without a batch stand first whenever there are any.
pub proof fn law_unbatched_first(execs: Seq<ExecutionRow>, drill: Option<Seq<char>>, limit: nat, k: int)
    requires
        0 <= k < history_groups(execs, drill, limit).len(),
        history_groups(execs, drill, limit)[k].key == HISTORY_UNBATCHED_KEY@,
    ensures
        history_groups(execs, drill, limit)[0].key == HISTORY_UNBATCHED_KEY@,
{
    sort::lemma_stable_sorted(gathered_groups(execs, drill));
    let sorted = sort::stable_sorted(gathered_groups(execs, drill));
    if k > 0 {
        assert(!sorted[k].before(sorted[0]));
    }
}

/// Within a group no execution follows one that was queued earlier.
pub proof fn law_group_newest_first(
    execs: Seq<ExecutionRow>,
    drill: Option<Seq<char>>,
    limit: nat,
    k: int,
    a: int,
    b: int,
)
    requires
        execs.len() <= usize::MAX,
        0 <= k < history_groups(execs, drill, limit).len(),
        0 <= a < b < history_groups(execs, drill, limit)[k].indices.len(),
    ensures
        execs[history_groups(execs, drill, limit)[k].indices[a] as int].queued_at
            >= execs[history_groups(execs, drill, limit)[k].indices[b] as int].queued_at,
{
    broadcast use group_to_multiset_ensures;

    let gv = sort::stable_sorted(gathered_groups(execs, drill))[k];
    let keyed = gv.rows.map_values(|i: usize| exec_key(execs, i));
    let sorted = sort::stable_sorted(keyed);
    sort::lemma_stable_sorted(keyed);
    assert(!sorted[b].before(sorted[a]));
    assert forall|j: int| 0 <= j < sorted.len() implies (#[trigger] sorted[j]) == exec_key(
        execs,
        sorted[j].idx,
    ) by {
        assert(sorted.contains(sorted[j]));
        assert(keyed.to_multiset().count(sorted[j]) > 0);
        let w = choose|w: int| 0 <= w < keyed.len() && keyed[w] == sorted[j];
        assert(keyed[w] == exec_key(execs, gv.rows[w]));
    }
    assert(sorted[a] == exec_key(execs, sorted[a].idx));
    assert(sorted[b] == exec_key(execs, sorted[b].idx));
}

// ── Table ────────────────────────────────────────────────────────────────────

/// A table under construction: its rows, for each selectable slot the index of
/// its row, and what each slot stands for.
pub struct HistoryAcc {
    pub rows: Seq<RowView>,
    pub sel: Seq<usize>,
    pub targets: Seq<HistoryTarget>,
}

/// With one more row that cannot be selected.
pub open spec fn plus_row(a: HistoryAcc, row: RowView) -> HistoryAcc {
    HistoryAcc { rows: a.rows.push(row), sel: a.sel, targets: a.targets }
}

/// With one more selectable row.
pub open spec fn plus_entry(a: HistoryAcc, row: RowView, target: HistoryTarget) -> HistoryAcc {
    HistoryAcc {
        rows: a.rows.push(row),
        sel: a.sel.push(a.rows.len() as usize),
        targets: a.targets.push(target),
    }
}

/// The header row of a group.
pub open spec fn group_row(g: BatchGroupView) -> RowView {
    RowView {
        cells: seq![
            style::sp(" Batch "@ + g.label + " "@, fg(ACCENT).bold()),
            style::sp(
                if g.hidden_count > 0 {
                    " … +"@ + text::dec(g.hidden_count) + " more"@
                } else {
                    ""@
                },
                fg(TEXT_DIM),
            ),
            style::sp(""@, plain()),
            style::sp(""@, plain()),
            style::sp(""@, plain()),
            style::sp(""@, plain()),
            style::sp(""@, plain()),
        ],
        style: fg(ACCENT),
    }
}

/// The row of an execution: agent, thread, status, whether it is linked to a
/// dispatch, duration, exit code and error.
pub open spec fn execution_row(e: ExecutionRow) -> RowView {
    RowView {
        cells: seq![
            style::sp(" "@ + e.agent_alias@, fg(TEXT_NORMAL)),
            style::sp(views::truncated(e.thread_id@, 16), fg(TEXT_NORMAL)),
            style::sp(views::exec_label(e.status@), fg(theme::exec_color(e.status@))),
            if e.dispatch_message_id is Some {
                style::sp("L"@, fg(SUCCESS_DIM))
            } else {
                style::sp("U"@, fg(FAILURE))
            },
            style::sp(
                match e.duration_ms {
                    Some(ms) => views::duration_ms_text(ms as int),
                    None => "-"@,
                },
                fg(TEXT_NORMAL),
            ),
            style::sp(
                match e.exit_code {
                    Some(c) => text::dec_int(c as int),
                    None => "-"@,
                },
                fg(TEXT_NORMAL),
            ),
            style::sp(
                match e.error_detail {
                    Some(s) => views::truncated(s@, 40),
                    None => "-"@,
                },
                fg(TEXT_NORMAL),
            ),
        ],
        style: plain(),
    }
}

/// An empty row.
pub open spec fn blank_row() -> RowView {
    RowView {
        cells: seq![
            style::sp(""@, plain()),
            style::sp(""@, plain()),
            style::sp(""@, plain()),
            style::sp(""@, plain()),
            style::sp(""@, plain()),
            style::sp(""@, plain()),
            style::sp(""@, plain()),
        ],
        style: plain(),
    }
}

/// With the rows of a group's executions.
pub open spec fn plus_executions(a: HistoryAcc, execs: Seq<ExecutionRow>, idx: Seq<usize>) -> HistoryAcc
    decreases idx.len(),
{
    if idx.len() == 0 {
        a
    } else {
        plus_entry(
            plus_executions(a, execs, idx.drop_last()),
            execution_row(execs[idx.last() as int]),
            HistoryTarget::Execution(idx.last()),
        )
    }
}

/// The rows of the groups; a header can be selected unless the table is filtered.
pub open spec fn history_acc(
    execs: Seq<ExecutionRow>,
    groups: Seq<BatchGroupView>,
    with_headers: bool,
) -> HistoryAcc
    decreases groups.len(),
{
    if groups.len() == 0 {
        HistoryAcc { rows: seq![], sel: seq![], targets: seq![] }
    } else {
        let a = history_acc(execs, groups.drop_last(), with_headers);
        let g = groups.last();
        let b = if with_headers {
            plus_entry(a, group_row(g), HistoryTarget::Batch(g.key))
        } else {
            plus_row(a, group_row(g))
        };
        plus_row(plus_executions(b, execs, g.indices), blank_row())
    }
}

proof fn lemma_plus_executions(a: HistoryAcc, execs: Seq<ExecutionRow>, idx: Seq<usize>)
    ensures
        plus_executions(a, execs, idx).targets == a.targets + execution_targets(idx),
        plus_executions(a, execs, idx).sel.len() == a.sel.len() + idx.len(),
    decreases idx.len(),
{
    if idx.len() == 0 {
        assert(a.targets + execution_targets(idx) =~= a.targets);
    } else {
        lemma_plus_executions(a, execs, idx.drop_last());
        assert(execution_targets(idx) =~= execution_targets(idx.drop_last()).push(
            HistoryTarget::Execution(idx.last()),
        ));
        assert(a.targets + execution_targets(idx) =~= (a.targets + execution_targets(
            idx.drop_last(),
        )).push(HistoryTarget::Execution(idx.last())));
    }
}

/// The slots of the table are the selectable entries, one for one and in order.
pub proof fn law_history_slots_are_targets(
    execs: Seq<ExecutionRow>,
    groups: Seq<BatchGroupView>,
    with_headers: bool,
)
    ensures
        history_acc(execs, groups, with_headers).targets == group_targets(groups, with_headers),
        history_acc(execs, groups, with_headers).sel.len() == group_targets(
            groups,
            with_headers,
        ).len(),
    decreases groups.len(),
{
    if groups.len() > 0 {
        law_history_slots_are_targets(execs, groups.drop_last(), with_headers);
        let a = history_acc(execs, groups.drop_last(), with_headers);
        let g = groups.last();
        let b = if with_headers {
            plus_entry(a, group_row(g), HistoryTarget::Batch(g.key))
        } else {
            plus_row(a, group_row(g))
        };
        lemma_plus_executions(b, execs, g.indices);
    }
}

/// The History table.
pub struct HistoryTable {
    pub rows: Vec<TableRow>,
    /// For each selectable slot, the index of its row.
    pub selectable_to_row: Vec<usize>,
    /// The slot that is drawn as selected.
    pub selected: usize,
    /// The row of that slot; the first row where nothing can be selected.
    pub selected_row: usize,
}

fn group_row_of(g: &BatchGroup) -> (r: TableRow)
    ensures
        r@ == group_row(g@),
{
    let mut cells: Line = Line::new();
    cells.put_string(cat3(" Batch ", g.label.as_str(), " "), fg(ACCENT).bold());
    let hidden: String = if g.hidden_count > 0 {
        let n: String = usize_text(g.hidden_count);
        cat3(" … +", n.as_str(), " more")
    } else {
        "".to_owned()
    };
    cells.put_string(hidden, fg(TEXT_DIM));
    cells.put("", plain());
    cells.put("", plain());
    cells.put("", plain());
    cells.put("", plain());
    cells.put("", plain());
    let row: TableRow = TableRow { cells, style: fg(ACCENT) };
    assert(row@.cells =~= group_row(g@).cells);
    row
}

fn execution_row_of(e: &ExecutionRow) -> (r: TableRow)
    ensures
        r@ == execution_row(*e),
{
    let mut cells: Line = Line::new();
    cells.put_string(cat(" ", e.agent_alias.as_str()), fg(TEXT_NORMAL));
    cells.put_string(truncate(e.thread_id.as_str(), 16), fg(TEXT_NORMAL));
    cells.put(humanize_exec_status(e.status.as_str()), fg(exec_status_color(e.status.as_str())));
    if e.dispatch_message_id.is_some() {
        cells.put("L", fg(SUCCESS_DIM));
    } else {
        cells.put("U", fg(FAILURE));
    }
    let duration: String = match e.duration_ms {
        Some(ms) => format_duration_ms(ms),
        None => "-".to_owned(),
    };
    cells.put_string(duration, fg(TEXT_NORMAL));
    let exit: String = match e.exit_code {
        Some(c) => i64_text(c as i64),
        None => "-".to_owned(),
    };
    cells.put_string(exit, fg(TEXT_NORMAL));
    let error: String = match &e.error_detail {
        Some(s) => truncate(s.as_str(), 40),
        None => "-".to_owned(),
    };
    cells.put_string(error, fg(TEXT_NORMAL));
    let row: TableRow = TableRow { cells, style: plain() };
    assert(row@.cells =~= execution_row(*e).cells);
    row
}

fn blank_row_of() -> (r: TableRow)
    ensures
        r@ == blank_row(),
{
    let mut cells: Line = Line::new();
    cells.put("", plain());
    cells.put("", plain());
    cells.put("", plain());
    cells.put("", plain());
    cells.put("", plain());
    cells.put("", plain());
    cells.put("", plain());
    let row: TableRow = TableRow { cells, style: plain() };
    assert(row@.cells =~= blank_row().cells);
    row
}

fn push_row(rows: &mut Vec<TableRow>, row: TableRow)
    ensures
        sort::views(final(rows)@) == sort::views(old(rows)@).push(row@),
        final(rows)@.len() == old(rows)@.len() + 1,
{
    let ghost before = sort::views(rows@);
    rows.push(row);
    assert(sort::views(rows@) =~= before.push(row@));
}

/// The History table of `executions`; `selected` is the requested slot.
pub fn build_history_table(
    executions: &[ExecutionRow],
    drill_batch: Option<&str>,
    selected: usize,
    per_group_limit: usize,
) -> (r: HistoryTable)
    ensures
        ({
            let groups = history_groups(
                executions@,
                activity::drill_text(drill_batch),
                per_group_limit as nat,
            );
            let a = history_acc(executions@, groups, drill_batch is None);
            let count = history_targets(
                executions@,
                activity::drill_text(drill_batch),
                per_group_limit as nat,
            ).len();
            &&& sort::views(r.rows@) == a.rows
            &&& r.selectable_to_row@ == a.sel
            &&& r.selected as nat == ops_list::slot_for(selected, count)
            &&& r.selected_row == if r.selected < a.sel.len() {
                a.sel[r.selected as int]
            } else {
                0
            }
        }),
{
    let groups: Vec<BatchGroup> = group_execution_indices_by_batch(
        executions,
        drill_batch,
        per_group_limit,
    );
    let headers: bool = drill_batch.is_none();
    let ghost all = sort::views(groups@);
    let mut rows: Vec<TableRow> = Vec::new();
    let mut sel: Vec<usize> = Vec::new();
    let mut i: usize = 0;
    assert(sort::views(rows@) =~= history_acc(executions@, all.take(0), headers).rows);
    while i < groups.len()
        invariant
            i <= groups@.len(),
            all == sort::views(groups@),
            forall|k: int, j: int|
                0 <= k < groups@.len() && 0 <= j < groups@[k].indices@.len() ==> (
                #[trigger] groups@[k].indices@[j]) < executions@.len(),
            sort::views(rows@) == history_acc(executions@, all.take(i as int), headers).rows,
            sel@ == history_acc(executions@, all.take(i as int), headers).sel,
        decreases groups@.len() - i,
    {
        let g: &BatchGroup = &groups[i];
        let ghost a = history_acc(executions@, all.take(i as int), headers);
        assert(all.take(i + 1).drop_last() =~= all.take(i as int));
        assert(all.take(i + 1).last() == g@);
        assert(sort::views(rows@).len() == rows@.len());
        if headers {
            sel.push(rows.len());
        }
        push_row(&mut rows, group_row_of(g));
        let ghost b = if headers {
            plus_entry(a, group_row(g@), HistoryTarget::Batch(g.key@))
        } else {
            plus_row(a, group_row(g@))
        };
        let mut j: usize = 0;
        assert(g.indices@.take(0) =~= Seq::<usize>::empty());
        while j < g.indices.len()
            invariant
                i < groups@.len(),
                *g == groups@[i as int],
                j <= g.indices@.len(),
                forall|k: int, j: int|
                    0 <= k < groups@.len() && 0 <= j < groups@[k].indices@.len() ==> (
                    #[trigger] groups@[k].indices@[j]) < executions@.len(),
                sort::views(rows@) == plus_executions(
                    b,
                    executions@,
                    g.indices@.take(j as int),
                ).rows,
                sel@ == plus_executions(b, executions@, g.indices@.take(j as int)).sel,
            decreases g.indices@.len() - j,
        {
            assert(g.indices@.take(j + 1).drop_last() =~= g.indices@.take(j as int));
            assert(sort::views(rows@).len() == rows@.len());
            assert(groups@[i as int].indices@[j as int] < executions@.len());
            let e: &ExecutionRow = &executions[g.indices[j]];
            sel.push(rows.len());
            push_row(&mut rows, execution_row_of(e));
            j += 1;
        }
        assert(g.indices@.take(j as int) =~= g.indices@);
        push_row(&mut rows, blank_row_of());
        i += 1;
    }
    assert(all.take(i as int) =~= all);
    proof {
        law_history_slots_are_targets(executions@, all, headers);
    }
    let count: usize = sel.len();
    let slot: usize = if count == 0 {
        0
    } else if selected < count {
        selected
    } else {
        count - 1
    };
    let selected_row: usize = if slot < sel.len() {
        sel[slot]
    } else {
        0
    };
    HistoryTable { rows, selectable_to_row: sel, selected: slot, selected_row }
}

/// The banner that names the batch filter.
pub fn history_filter_banner(batch: &str) -> (r: Line)
    ensures
        r@ == seq![
            style::sp(" "@, plain()),
            style::sp("Filter: batch "@ + group_label(batch@), fg(TEXT_MUTED).bold()),
            style::sp("  "@, plain()),
            style::sp("x"@, fg(ACCENT).bold()),
            style::sp("/"@, plain()),
            style::sp("Esc"@, fg(ACCENT).bold()),
            style::sp(": back"@, plain()),
        ],
{
    let mut line: Line = Line::new();
    line.put(" ", plain());
    let name: String = history_batch_display(batch);
    line.put_string(cat("Filter: batch ", name.as_str()), fg(TEXT_MUTED).bold());
    line.put("  ", plain());
    line.put("x", fg(ACCENT).bold());
    line.put("/", plain());
    line.put("Esc", fg(ACCENT).bold());
    line.put(": back", plain());
    line
}

// ── Laws of the table ────────────────────────────────────────────────────────

/// The group of an execution is its batch; executions without one stand together.
pub proof fn law_group_of_an_execution(e: ExecutionRow, drill: Seq<char>)
    ensures
        e.batch_id matches Some(b) ==> key_of(e) == b@,
        e.batch_id is None ==> key_of(e) == "__UNBATCHED__"@,
        passes(e, None),
        e.batch_id matches Some(b) ==> (passes(e, Some(drill)) <==> b@ == drill),
        group_label("__UNBATCHED__"@) == "Unbatched"@,
        drill != "__UNBATCHED__"@ ==> group_label(drill) == drill,
{
}

/// One execution more is the last row of its group, and its time counts there if
/// it is the latest; no other group changes.
pub proof fn law_one_execution_more(execs: Seq<ExecutionRow>, e: ExecutionRow, key: Seq<char>)
    requires
        execs.len() < usize::MAX,
    ensures
        key_of(e) == key ==> {
            &&& group_rows(execs.push(e), key) == group_rows(execs, key).push(
                execs.len() as usize,
            )
            &&& group_latest(execs.push(e), key) is Some
            &&& group_latest(execs.push(e), key)->0 >= e.queued_at
            &&& group_latest(execs, key) is None ==> group_latest(execs.push(e), key) == Some(
                e.queued_at,
            )
            &&& group_latest(execs, key) matches Some(t) ==> group_latest(execs.push(e), key)->0
                >= t && (group_latest(execs.push(e), key) == Some(t) || group_latest(
                execs.push(e),
                key,
            ) == Some(e.queued_at))
        },
        key_of(e) != key ==> group_rows(execs.push(e), key) == group_rows(execs, key)
            && group_latest(execs.push(e), key) == group_latest(execs, key),
{
    assert(execs.push(e).drop_last() =~= execs);
}

/// Of two groups with a batch, the one with the latest execution comes first, and
/// of two as late the one whose name comes first. Those without a batch come
/// before all.
pub proof fn law_groups_latest_first(a: GroupView, b: GroupView)
    ensures
        a.key == "__UNBATCHED__"@ && b.key != "__UNBATCHED__"@ ==> a.before(b) && !b.before(a),
        a.key != "__UNBATCHED__"@ && b.key != "__UNBATCHED__"@ && a.latest > b.latest ==> a.before(
            b,
        ) && !b.before(a),
        a.key != "__UNBATCHED__"@ && b.key != "__UNBATCHED__"@ && a.latest == b.latest
            && text::text_less(a.key, b.key) ==> a.before(b) && !b.before(a),
{
    if a.before(b) {
        GroupView::before_asymmetric(a, b);
    }
}

/// Of two executions the one that was queued later comes first, and of two queued
/// together the one with the later name.
pub proof fn law_executions_latest_first(a: ExecKey, b: ExecKey)
    ensures
        a.queued_at > b.queued_at ==> a.before(b) && !b.before(a),
        a.queued_at == b.queued_at && text::text_less(b.id, a.id) ==> a.before(b) && !b.before(a),
{
    if a.before(b) {
        ExecKey::before_asymmetric(a, b);
    }
}

/// A group shows as many executions as it may, one at least, and counts those
/// that it does not show.
pub proof fn law_group_shows_as_many_as_it_may(
    execs: Seq<ExecutionRow>,
    g: GroupView,
    limit: nat,
)
    requires
        limit >= 1,
    ensures
        shown_group(execs, g, limit).key == g.key,
        g.rows.len() <= limit ==> shown_group(execs, g, limit).indices.len() == g.rows.len()
            && shown_group(execs, g, limit).hidden_count == 0,
        g.rows.len() > limit ==> shown_group(execs, g, limit).indices.len() == limit
            && shown_group(execs, g, limit).hidden_count == g.rows.len() - limit,
        shown_group(execs, g, 0) == shown_group(execs, g, 1),
{
    lemma_newest_in_range(execs, g.rows);
}

/// One group more adds its header, where there are headers, and its executions.
pub proof fn law_targets_of_one_group_more(groups: Seq<BatchGroupView>, g: BatchGroupView, i: int)
    ensures
        group_targets(groups.push(g), true).len() == group_targets(groups, true).len() + 1
            + g.indices.len(),
        group_targets(groups.push(g), true)[group_targets(groups, true).len() as int]
            == HistoryTarget::Batch(g.key),
        0 <= i < g.indices.len() ==> group_targets(groups.push(g), true)[group_targets(
            groups,
            true,
        ).len() + 1 + i] == HistoryTarget::Execution(g.indices[i]),
        group_targets(groups.push(g), false).len() == group_targets(groups, false).len()
            + g.indices.len(),
        0 <= i < g.indices.len() ==> group_targets(groups.push(g), false)[group_targets(
            groups,
            false,
        ).len() + i] == HistoryTarget::Execution(g.indices[i]),
        group_targets(Seq::empty(), true).len() == 0,
{
    assert(groups.push(g).drop_last() =~= groups);
}

/// The columns of an execution: its agent, thread, state, whether it is linked to
/// a message, its duration, exit code and error.
pub proof fn law_execution_columns(e: ExecutionRow)
    ensures
        ({
            let c = execution_row(e).cells;
            &&& c.len() == 7
            &&& c[0].text == " "@ + e.agent_alias@
            &&& e.thread_id@.len() <= 16 ==> c[1].text == e.thread_id@
            &&& c[2].text == views::exec_label(e.status@)
            &&& c[2].style.fg == Some(theme::exec_color(e.status@))
            &&& c[3].text == "L"@ <==> e.dispatch_message_id is Some
            &&& c[3].text == "U"@ <==> e.dispatch_message_id is None
            &&& e.duration_ms matches Some(ms) ==> c[4].text == views::duration_ms_text(ms as int)
            &&& e.duration_ms is None ==> c[4].text == "-"@
            &&& e.exit_code matches Some(x) ==> c[5].text == text::dec_int(x as int)
            &&& e.exit_code is None ==> c[5].text == "-"@
            &&& e.error_detail matches Some(d) ==> (d@.len() <= 40 ==> c[6].text == d@)
            &&& e.error_detail is None ==> c[6].text == "-"@
        }),
{
    reveal_strlit("L");
    reveal_strlit("U");
    assert("L"@[0] == 'L' && "U"@[0] == 'U');
}

/// The header of a group names it and tells how many executions it does not show.
pub proof fn law_group_header(g: BatchGroupView)
    ensures
        group_row(g).cells[0].text == " Batch "@ + g.label + " "@,
        g.hidden_count > 0 ==> group_row(g).cells[1].text == " … +"@ + text::dec(g.hidden_count)
            + " more"@,
        g.hidden_count == 0 ==> group_row(g).cells[1].text == ""@,
{
}

/// The table draws each group by its header, its executions and a blank row; the
/// row of a selectable entry is the one that shows it.
pub proof fn law_table_of_one_group_more(
    execs: Seq<ExecutionRow>,
    groups: Seq<BatchGroupView>,
    g: BatchGroupView,
    with_headers: bool,
    i: int,
)
    requires
        history_acc(execs, groups, with_headers).rows.len() + g.indices.len() + 2 <= usize::MAX,
    ensures
        ({
            let a = history_acc(execs, groups, with_headers);
            let b = history_acc(execs, groups.push(g), with_headers);
            &&& b.rows.len() == a.rows.len() + g.indices.len() + 2
            &&& b.rows.take(a.rows.len() as int) == a.rows
            &&& b.rows[a.rows.len() as int] == group_row(g)
            &&& b.rows.last() == blank_row()
            &&& 0 <= i < g.indices.len() ==> b.rows[a.rows.len() + 1 + i] == execution_row(
                execs[g.indices[i] as int],
            )
            &&& with_headers ==> b.sel[a.sel.len() as int] == a.rows.len()
            &&& 0 <= i < g.indices.len() && with_headers ==> b.sel[a.sel.len() + 1 + i]
                == a.rows.len() + 1 + i
            &&& 0 <= i < g.indices.len() && !with_headers ==> b.sel[a.sel.len() + i]
                == a.rows.len() + 1 + i
        }),
{
    assert(groups.push(g).drop_last() =~= groups);
    let a = history_acc(execs, groups, with_headers);
    let h = if with_headers {
        plus_entry(a, group_row(g), HistoryTarget::Batch(g.key))
    } else {
        plus_row(a, group_row(g))
    };
    lemma_rows_of_executions(h, execs, g.indices);
    let c = plus_executions(h, execs, g.indices);
    let b = history_acc(execs, groups.push(g), with_headers);
    assert(b.rows == c.rows.push(blank_row()));
    assert(b.sel == c.sel);
    assert forall|j: int| 0 <= j < a.rows.len() implies b.rows[j] == a.rows[j] by {
        assert(c.rows[j] == c.rows.take(h.rows.len() as int)[j]);
    }
    assert(b.rows.take(a.rows.len() as int) =~= a.rows);
    assert(c.rows[a.rows.len() as int] == c.rows.take(h.rows.len() as int)[a.rows.len() as int]);
    if with_headers {
        assert(c.sel[a.sel.len() as int] == c.sel.take(h.sel.len() as int)[a.sel.len() as int]);
    }
}

proof fn lemma_rows_of_executions(a: HistoryAcc, execs: Seq<ExecutionRow>, idx: Seq<usize>)
    requires
        a.rows.len() + idx.len() <= usize::MAX,
    ensures
        ({
            let b = plus_executions(a, execs, idx);
            &&& b.rows.len() == a.rows.len() + idx.len()
            &&& b.sel.len() == a.sel.len() + idx.len()
            &&& b.rows.take(a.rows.len() as int) == a.rows
            &&& b.sel.take(a.sel.len() as int) == a.sel
            &&& forall|i: int|
                0 <= i < idx.len() ==> #[trigger] b.rows[a.rows.len() + i] == execution_row(
                    execs[idx[i] as int],
                )
            &&& forall|i: int|
                0 <= i < idx.len() ==> #[trigger] b.sel[a.sel.len() + i] == a.rows.len() + i
        }),
    decreases idx.len(),
{
    let b = plus_executions(a, execs, idx);
    if idx.len() == 0 {
        assert(b.rows.take(a.rows.len() as int) =~= a.rows);
        assert(b.sel.take(a.sel.len() as int) =~= a.sel);
    } else {
        lemma_rows_of_executions(a, execs, idx.drop_last());
        let c = plus_executions(a, execs, idx.drop_last());
        assert(b.rows.take(a.rows.len() as int) =~= c.rows.take(a.rows.len() as int));
        assert(b.sel.take(a.sel.len() as int) =~= c.sel.take(a.sel.len() as int));
        assert forall|i: int| 0 <= i < idx.len() implies #[trigger] b.rows[a.rows.len() + i]
            == execution_row(execs[idx[i] as int]) by {
            if i < idx.len() - 1 {
                assert(b.rows[a.rows.len() + i] == c.rows[a.rows.len() + i]);
                assert(idx.drop_last()[i] == idx[i]);
            }
        }
        assert forall|i: int| 0 <= i < idx.len() implies #[trigger] b.sel[a.sel.len() + i]
            == a.rows.len() + i by {
            if i < idx.len() - 1 {
                assert(b.sel[a.sel.len() + i] == c.sel[a.sel.len() + i]);
            }
        }
    }
}

} // verus!
