//! Ops tab: the whole list, its scroll position and its click geometry.
use crate::dashboard::geometry::{OpsClickCache, Rect};
use crate::dashboard::geometry;
use crate::dashboard::progress::ProgressSummaries;
use crate::dashboard::theme::{ACCENT, FAILURE, SUCCESS_DIM, TEXT_BRIGHT, TEXT_DIM, TEXT_MUTED};
use crate::dashboard::views::activity::{
    capped_batches, capped_recently_completed, classify_rows, ops_selectable_count,
    visible_merge_indices, ActivityData, BatchProgress, BatchView, Classified, ClassifiedRows,
    OpsTarget, Section, OPS_BATCH_SECTION_LIMIT, RECENTLY_COMPLETED_LIMIT,
};
use crate::dashboard::views::activity;
use crate::dashboard::views::ops_lines::{
    compute_scroll, make_batch_detail_line, make_batch_line, make_merge_op_detail_line,
    make_merge_op_line, make_progress_line, make_scheduled_detail_line, make_thread_detail_line,
    make_thread_line,
};
use crate::dashboard::views::ops_lines;
use crate::dashboard::views::truncate;
use crate::dashboard::views;
use crate::sort;
use crate::store::{MergeOperation, ThreadStatusView};
use crate::style::{fg, no_lines, plain, push_line, Color, Line, SpanView};
use crate::style;
use crate::text::{cat, cat3, str_eq, usize_text};
use crate::text;
use vstd::prelude::*;

verus! {

/// The lines of a list item.
pub type ItemView = Seq<Seq<SpanView>>;

/// A list under construction: its items, for each selectable slot the index of
/// its item, and what each slot stands for.
pub struct OpsAcc {
    pub items: Seq<ItemView>,
    pub sel: Seq<usize>,
    pub targets: Seq<OpsTarget>,
}

/// With one more item that cannot be selected.
pub open spec fn add_item(a: OpsAcc, item: ItemView) -> OpsAcc {
    OpsAcc { items: a.items.push(item), sel: a.sel, targets: a.targets }
}

/// With one more selectable item.
pub open spec fn add_entry(a: OpsAcc, item: ItemView, target: OpsTarget) -> OpsAcc {
    OpsAcc {
        items: a.items.push(item),
        sel: a.sel.push(a.items.len() as usize),
        targets: a.targets.push(target),
    }
}

/// With `n` more selectable items; the one that takes slot `slot` is drawn as selected.
pub open spec fn add_entries(
    a: OpsAcc,
    n: nat,
    item: spec_fn(int, bool) -> ItemView,
    target: spec_fn(int) -> OpsTarget,
    slot: nat,
) -> OpsAcc
    decreases n,
{
    if n == 0 {
        a
    } else {
        let b = add_entries(a, (n - 1) as nat, item, target, slot);
        add_entry(b, item(n - 1, b.sel.len() == slot), target(n - 1))
    }
}

/// An empty item.
pub open spec fn blank() -> ItemView {
    seq![seq![style::sp(""@, plain())]]
}

/// A single dimmed line.
pub open spec fn note(text: Seq<char>) -> ItemView {
    seq![seq![style::sp(text, fg(TEXT_DIM))]]
}

/// A section's title with its count.
pub open spec fn header(title: Seq<char>, count: nat, color: Color) -> ItemView {
    seq![
        seq![
            style::sp(" "@, plain()),
            style::sp(title, fg(TEXT_BRIGHT).bold()),
            style::sp(" "@, plain()),
            style::sp("("@ + text::dec(count) + ")"@, fg(color).bold()),
        ],
    ]
}

/// A first line, and a second one where the entry is selected.
pub open spec fn with_detail(first: Seq<SpanView>, selected: bool, detail: Seq<SpanView>) -> ItemView {
    if selected {
        seq![first, detail]
    } else {
        seq![first]
    }
}

/// What the list is drawn from.
pub struct OpsScene {
    pub rows: Seq<ThreadStatusView>,
    pub merge_ops: Seq<MergeOperation>,
    pub drill: Option<Seq<char>>,
    pub summaries: ProgressSummaries,
    pub now: i64,
    pub stale_after: i64,
    pub width: nat,
    pub slot: nat,
}

/// The item of a running thread: its progress below where there is one,
/// otherwise the detail line where it is selected.
pub open spec fn running_item(s: OpsScene, i: usize, selected: bool) -> ItemView {
    let row = s.rows[i as int];
    let first = ops_lines::thread_line(row, selected, s.now, s.width);
    let summary = match row.execution_id {
        Some(id) if activity::running_now(row) => s.summaries.shown(id@),
        _ => None,
    };
    match summary {
        Some(p) => seq![first, ops_lines::progress_line(p.0, selected, s.width)],
        None => with_detail(first, selected, ops_lines::thread_detail(row, s.width)),
    }
}

/// The item of a thread.
pub open spec fn thread_item(s: OpsScene, i: usize, selected: bool) -> ItemView {
    let row = s.rows[i as int];
    with_detail(
        ops_lines::thread_line(row, selected, s.now, s.width),
        selected,
        ops_lines::thread_detail(row, s.width),
    )
}

/// The item of a scheduled thread.
pub open spec fn scheduled_item(s: OpsScene, i: usize, selected: bool) -> ItemView {
    let row = s.rows[i as int];
    with_detail(
        ops_lines::thread_line(row, selected, s.now, s.width),
        selected,
        ops_lines::hinted(ops_lines::scheduled_text(row, s.now), s.width, "[c]"@, " conversation"@),
    )
}

/// The item of a batch.
pub open spec fn batch_item(
    s: OpsScene,
    b: BatchView,
    marker: Seq<char>,
    color: Color,
    selected: bool,
) -> ItemView {
    with_detail(
        ops_lines::batch_line(b, selected, s.now, marker, color, s.width),
        selected,
        ops_lines::batch_detail(b),
    )
}

/// The item of a merge.
pub open spec fn merge_item(s: OpsScene, i: usize, selected: bool) -> ItemView {
    let op = s.merge_ops[i as int];
    with_detail(
        ops_lines::merge_line(op, selected, s.now, s.width),
        selected,
        ops_lines::merge_detail_line(op, s.width),
    )
}

/// The items of threads.
pub open spec fn thread_items(s: OpsScene, idx: Seq<usize>) -> spec_fn(int, bool) -> ItemView {
    |k: int, selected: bool| thread_item(s, idx[k], selected)
}

/// The items of running threads.
pub open spec fn running_items(s: OpsScene, idx: Seq<usize>) -> spec_fn(int, bool) -> ItemView {
    |k: int, selected: bool| running_item(s, idx[k], selected)
}

/// The items of scheduled threads.
pub open spec fn scheduled_items(s: OpsScene, idx: Seq<usize>) -> spec_fn(int, bool) -> ItemView {
    |k: int, selected: bool| scheduled_item(s, idx[k], selected)
}

/// The items of batches.
pub open spec fn batch_items(
    s: OpsScene,
    b: Seq<BatchView>,
    marker: Seq<char>,
    color: Color,
) -> spec_fn(int, bool) -> ItemView {
    |k: int, selected: bool| batch_item(s, b[k], marker, color, selected)
}

/// The items of merges.
pub open spec fn merge_items(s: OpsScene, idx: Seq<usize>) -> spec_fn(int, bool) -> ItemView {
    |k: int, selected: bool| merge_item(s, idx[k], selected)
}

/// What a sequence of entries stands for, by position.
pub open spec fn nth_target(t: Seq<OpsTarget>) -> spec_fn(int) -> OpsTarget {
    |k: int| t[k]
}

/// A blank item where `cond`.
pub open spec fn gap_if(a: OpsAcc, cond: bool) -> OpsAcc {
    if cond {
        add_item(a, blank())
    } else {
        a
    }
}

/// The sections of active work that are not empty, with gaps between them.
pub open spec fn active_sections(a: OpsAcc, s: OpsScene, c: Classified) -> OpsAcc {
    let has_running = c.running.len() > 0;
    let has_scheduled = c.scheduled.len() > 0;
    let has_batches = s.drill is None && c.active_batches.len() > 0;
    let a1 = if has_running {
        add_entries(
            add_item(a, header("Running"@, c.running.len(), ACCENT)),
            c.running.len(),
            running_items(s, c.running),
            nth_target(activity::thread_targets(c.running)),
            s.slot,
        )
    } else {
        a
    };
    let a2 = if has_scheduled {
        add_entries(
            add_item(
                gap_if(a1, has_running),
                header("Scheduled"@, c.scheduled.len(), TEXT_MUTED),
            ),
            c.scheduled.len(),
            scheduled_items(s, c.scheduled),
            nth_target(activity::thread_targets(c.scheduled)),
            s.slot,
        )
    } else {
        a1
    };
    let a3 = if has_batches {
        let shown = activity::capped(c.active_batches, OPS_BATCH_SECTION_LIMIT as nat);
        add_entries(
            add_item(
                gap_if(a2, has_running || has_scheduled),
                header("Active Batches"@, c.active_batches.len(), ACCENT),
            ),
            shown.len(),
            batch_items(s, shown, "A"@, ACCENT),
            nth_target(activity::batch_targets(shown)),
            s.slot,
        )
    } else {
        a2
    };
    if c.active_threads.len() > 0 {
        add_entries(
            add_item(
                gap_if(a3, has_running || has_scheduled || has_batches),
                header("Active Threads"@, c.active_threads.len(), ACCENT),
            ),
            c.active_threads.len(),
            thread_items(s, c.active_threads),
            nth_target(activity::thread_targets(c.active_threads)),
            s.slot,
        )
    } else {
        a3
    }
}

/// A gap, a title and the threads below it, or `none`.
pub open spec fn thread_section(
    a: OpsAcc,
    s: OpsScene,
    title: Seq<char>,
    color: Color,
    idx: Seq<usize>,
) -> OpsAcc {
    let b = add_item(add_item(a, blank()), header(title, idx.len(), color));
    if idx.len() == 0 {
        add_item(b, note("  none"@))
    } else {
        add_entries(b, idx.len(), thread_items(s, idx), nth_target(activity::thread_targets(idx)), s.slot)
    }
}

/// Whether one of the merges failed.
pub open spec fn any_failed(ops: Seq<MergeOperation>, idx: Seq<usize>) -> bool {
    exists|k: int| 0 <= k < idx.len() && ops[(#[trigger] idx[k]) as int].status@ == "failed"@
}

/// The merge queue, where it holds anything.
pub open spec fn merge_section(a: OpsAcc, s: OpsScene, idx: Seq<usize>) -> OpsAcc {
    if idx.len() == 0 {
        a
    } else {
        let color = if any_failed(s.merge_ops, idx) {
            FAILURE
        } else {
            ACCENT
        };
        add_entries(
            add_item(add_item(a, blank()), header("Merge Queue"@, idx.len(), color)),
            idx.len(),
            merge_items(s, idx),
            nth_target(activity::merge_targets(s.merge_ops, idx)),
            s.slot,
        )
    }
}

/// All batches.
pub open spec fn batch_section(a: OpsAcc, s: OpsScene, b: Seq<BatchView>) -> OpsAcc {
    let h = add_item(add_item(a, blank()), header("Batches"@, b.len(), TEXT_MUTED));
    if b.len() == 0 {
        add_item(h, note("  none"@))
    } else {
        let shown = activity::capped(b, OPS_BATCH_SECTION_LIMIT as nat);
        add_entries(
            h,
            shown.len(),
            batch_items(s, shown, "B"@, TEXT_MUTED),
            nth_target(activity::batch_targets(shown)),
            s.slot,
        )
    }
}

/// The line that names the batch filter.
pub open spec fn filter_item(batch: Seq<char>) -> ItemView {
    seq![
        seq![
            style::sp(" "@, plain()),
            style::sp("Filter: batch "@ + views::truncated(batch, 22), fg(ACCENT).bold()),
            style::sp("  "@, plain()),
            style::sp("x"@, fg(ACCENT).bold()),
            style::sp("/"@, plain()),
            style::sp("Esc"@, fg(ACCENT).bold()),
            style::sp(": back"@, plain()),
        ],
    ]
}

/// The whole list.
pub open spec fn ops_acc(s: OpsScene) -> OpsAcc {
    let c = activity::classified(s.rows, s.drill, s.now, s.stale_after);
    let a0 = OpsAcc { items: seq![], sel: seq![], targets: seq![] };
    let a1 = match s.drill {
        Some(batch) => add_item(add_item(a0, filter_item(batch)), blank()),
        None => a0,
    };
    let idle = c.running.len() == 0 && c.scheduled.len() == 0 && (s.drill is Some
        || c.active_batches.len() == 0) && c.active_threads.len() == 0;
    let a2 = if idle {
        add_item(a1, note("  no active work"@))
    } else {
        active_sections(a1, s, c)
    };
    let a3 = if s.drill is Some {
        thread_section(a2, s, "Other"@, TEXT_DIM, c.uncategorized)
    } else {
        merge_section(a2, s, activity::visible_merges(s.merge_ops, s.now))
    };
    let a4 = thread_section(
        a3,
        s,
        "Recently Completed"@,
        SUCCESS_DIM,
        activity::capped(c.recently_completed, RECENTLY_COMPLETED_LIMIT as nat),
    );
    if s.drill is None {
        batch_section(a4, s, c.batches)
    } else {
        a4
    }
}

// ── Laws ─────────────────────────────────────────────────────────────────────

/// What entries add: their targets, in order; and slots and targets stay in step.
pub proof fn lemma_add_entries(
    a: OpsAcc,
    n: nat,
    item: spec_fn(int, bool) -> ItemView,
    target: spec_fn(int) -> OpsTarget,
    slot: nat,
)
    ensures
        add_entries(a, n, item, target, slot).targets == a.targets + Seq::new(n, target),
        add_entries(a, n, item, target, slot).sel.len() == a.sel.len() + n,
        add_entries(a, n, item, target, slot).items.len() == a.items.len() + n,
    decreases n,
{
    if n == 0 {
        assert(a.targets + Seq::new(0, target) =~= a.targets);
    } else {
        lemma_add_entries(a, (n - 1) as nat, item, target, slot);
        assert(Seq::new(n, target) =~= Seq::new((n - 1) as nat, target).push(target(n - 1)));
        assert(a.targets + Seq::new(n, target) =~= (a.targets + Seq::new(
            (n - 1) as nat,
            target,
        )).push(target(n - 1)));
    }
}

/// `add_entries` over a sequence of targets appends that sequence.
proof fn lemma_add_targets(
    a: OpsAcc,
    item: spec_fn(int, bool) -> ItemView,
    t: Seq<OpsTarget>,
    slot: nat,
)
    ensures
        add_entries(a, t.len(), item, nth_target(t), slot).targets == a.targets + t,
        add_entries(a, t.len(), item, nth_target(t), slot).sel.len() == a.sel.len() + t.len(),
{
    lemma_add_entries(a, t.len(), item, nth_target(t), slot);
    assert(Seq::new(t.len(), nth_target(t)) =~= t);
}

/// The slots of the list are the selectable entries, one for one and in order:
/// what is drawn as the k-th selectable row is what acting on row k acts on.
pub proof fn law_slots_are_targets(s: OpsScene)
    ensures
        ops_acc(s).targets == activity::ops_targets(s.rows, s.merge_ops, s.drill, s.now, s.stale_after),
        ops_acc(s).sel.len() == ops_acc(s).targets.len(),
{
    let c = activity::classified(s.rows, s.drill, s.now, s.stale_after);
    let a0 = OpsAcc { items: seq![], sel: seq![], targets: seq![] };
    let a1 = match s.drill {
        Some(batch) => add_item(add_item(a0, filter_item(batch)), blank()),
        None => a0,
    };
    let idle = c.running.len() == 0 && c.scheduled.len() == 0 && (s.drill is Some
        || c.active_batches.len() == 0) && c.active_threads.len() == 0;
    let limit = OPS_BATCH_SECTION_LIMIT as nat;
    let ab = activity::capped(c.active_batches, limit);
    let t1 = activity::thread_targets(c.running);
    let t2 = activity::thread_targets(c.scheduled);
    let t3 = if s.drill is None {
        activity::batch_targets(ab)
    } else {
        seq![]
    };
    let t4 = activity::thread_targets(c.active_threads);
    let a2 = if idle {
        add_item(a1, note("  no active work"@))
    } else {
        active_sections(a1, s, c)
    };
    assert(a2.targets == t1 + t2 + t3 + t4 && a2.sel.len() == a2.targets.len()) by {
        if idle {
            assert(t1 + t2 + t3 + t4 =~= Seq::<OpsTarget>::empty());
        } else {
            lemma_active_sections(a1, s, c);
            assert(a1.targets + t1 + t2 + t3 + t4 =~= t1 + t2 + t3 + t4);
        }
    }
    let head = t1 + t2 + t3 + t4;
    let other = activity::thread_targets(c.uncategorized);
    let vm = activity::visible_merges(s.merge_ops, s.now);
    let merges = activity::merge_targets(s.merge_ops, vm);
    let a3 = if s.drill is Some {
        thread_section(a2, s, "Other"@, TEXT_DIM, c.uncategorized)
    } else {
        merge_section(a2, s, vm)
    };
    if s.drill is Some {
        lemma_thread_section(a2, s, "Other"@, TEXT_DIM, c.uncategorized);
        assert(a3.targets == head + other);
    } else {
        let color = if any_failed(s.merge_ops, vm) {
            FAILURE
        } else {
            ACCENT
        };
        if vm.len() == 0 {
            assert(head + merges =~= head);
        } else {
            lemma_add_targets(
                add_item(add_item(a2, blank()), header("Merge Queue"@, vm.len(), color)),
                merge_items(s, vm),
                merges,
                s.slot,
            );
        }
        assert(a3.targets == head + merges);
    }
    assert(a3.sel.len() == a3.targets.len());
    let recent = activity::capped(c.recently_completed, RECENTLY_COMPLETED_LIMIT as nat);
    let a4 = thread_section(a3, s, "Recently Completed"@, SUCCESS_DIM, recent);
    lemma_thread_section(a3, s, "Recently Completed"@, SUCCESS_DIM, recent);
    let bs = activity::capped(c.batches, limit);
    if s.drill is None {
        let h = add_item(
            add_item(a4, blank()),
            header("Batches"@, c.batches.len(), TEXT_MUTED),
        );
        if c.batches.len() == 0 {
            assert(a4.targets + activity::batch_targets(bs) =~= a4.targets);
        } else {
            lemma_add_targets(h, batch_items(s, bs, "B"@, TEXT_MUTED), activity::batch_targets(bs), s.slot);
        }
    }
    let want = activity::ops_targets(s.rows, s.merge_ops, s.drill, s.now, s.stale_after);
    let e = Seq::<OpsTarget>::empty();
    if s.drill is None {
        assert(head + e =~= head);
        assert(want == head + e + merges + activity::thread_targets(recent) + activity::batch_targets(bs));
    } else {
        assert(head + other + e =~= head + other);
        assert(want =~= head + other + e + activity::thread_targets(recent) + e);
        assert(want =~= head + other + activity::thread_targets(recent));
    }
}

proof fn lemma_thread_section(
    a: OpsAcc,
    s: OpsScene,
    title: Seq<char>,
    color: Color,
    idx: Seq<usize>,
)
    ensures
        thread_section(a, s, title, color, idx).targets == a.targets + activity::thread_targets(idx),
        thread_section(a, s, title, color, idx).sel.len() == a.sel.len() + idx.len(),
{
    let b = add_item(add_item(a, blank()), header(title, idx.len(), color));
    if idx.len() == 0 {
        assert(a.targets + activity::thread_targets(idx) =~= a.targets);
    } else {
        lemma_add_targets(b, thread_items(s, idx), activity::thread_targets(idx), s.slot);
    }
}

proof fn lemma_active_sections(a: OpsAcc, s: OpsScene, c: Classified)
    requires
        a.sel.len() == a.targets.len(),
    ensures
        ({
            let t3 = if s.drill is None {
                activity::batch_targets(activity::capped(c.active_batches, OPS_BATCH_SECTION_LIMIT as nat))
            } else {
                seq![]
            };
            active_sections(a, s, c).targets == a.targets + activity::thread_targets(c.running)
                + activity::thread_targets(c.scheduled) + t3 + activity::thread_targets(c.active_threads)
        }),
        active_sections(a, s, c).sel.len() == active_sections(a, s, c).targets.len(),
{
    let has_running = c.running.len() > 0;
    let has_scheduled = c.scheduled.len() > 0;
    let has_batches = s.drill is None && c.active_batches.len() > 0;
    let shown = activity::capped(c.active_batches, OPS_BATCH_SECTION_LIMIT as nat);
    let t1 = activity::thread_targets(c.running);
    let t2 = activity::thread_targets(c.scheduled);
    let t3 = if s.drill is None {
        activity::batch_targets(shown)
    } else {
        seq![]
    };
    let t4 = activity::thread_targets(c.active_threads);
    let h1 = add_item(a, header("Running"@, c.running.len(), ACCENT));
    lemma_add_targets(h1, running_items(s, c.running), t1, s.slot);
    let a1 = if has_running {
        add_entries(h1, c.running.len(), running_items(s, c.running), nth_target(t1), s.slot)
    } else {
        a
    };
    assert(a1.targets == a.targets + t1) by {
        if !has_running {
            assert(a.targets + t1 =~= a.targets);
        }
    }
    let h2 = add_item(
        gap_if(a1, has_running),
        header("Scheduled"@, c.scheduled.len(), TEXT_MUTED),
    );
    lemma_add_targets(h2, scheduled_items(s, c.scheduled), t2, s.slot);
    let a2 = if has_scheduled {
        add_entries(h2, c.scheduled.len(), scheduled_items(s, c.scheduled), nth_target(t2), s.slot)
    } else {
        a1
    };
    assert(a2.targets == a1.targets + t2) by {
        if !has_scheduled {
            assert(a1.targets + t2 =~= a1.targets);
        }
    }
    let h3 = add_item(
        gap_if(a2, has_running || has_scheduled),
        header("Active Batches"@, c.active_batches.len(), ACCENT),
    );
    lemma_add_targets(h3, batch_items(s, shown, "A"@, ACCENT), activity::batch_targets(shown), s.slot);
    let a3 = if has_batches {
        add_entries(
            h3,
            shown.len(),
            batch_items(s, shown, "A"@, ACCENT),
            nth_target(activity::batch_targets(shown)),
            s.slot,
        )
    } else {
        a2
    };
    assert(a3.targets == a2.targets + t3) by {
        if !has_batches {
            assert(a2.targets + t3 =~= a2.targets);
        }
    }
    let h4 = add_item(
        gap_if(a3, has_running || has_scheduled || has_batches),
        header("Active Threads"@, c.active_threads.len(), ACCENT),
    );
    lemma_add_targets(h4, thread_items(s, c.active_threads), t4, s.slot);
    assert(active_sections(a, s, c).targets == a3.targets + t4) by {
        if c.active_threads.len() == 0 {
            assert(a3.targets + t4 =~= a3.targets);
        }
    }
}

// ── Building the list ────────────────────────────────────────────────────────

/// The views of a sequence of items.
pub open spec fn items_view(v: Seq<Vec<Line>>) -> Seq<ItemView> {
    v.map_values(|i: Vec<Line>| style::lines_view(i@))
}

struct OpsBuilder {
    items: Vec<Vec<Line>>,
    sel: Vec<usize>,
    targets: Ghost<Seq<OpsTarget>>,
}

impl View for OpsBuilder {
    type V = OpsAcc;

    closed spec fn view(&self) -> OpsAcc {
        OpsAcc { items: items_view(self.items@), sel: self.sel@, targets: self.targets@ }
    }
}

impl OpsBuilder {
    fn add(&mut self, item: Vec<Line>)
        ensures
            final(self)@ == add_item(old(self)@, style::lines_view(item@)),
    {
        let ghost before = items_view(self.items@);
        self.items.push(item);
        assert(items_view(self.items@) =~= before.push(style::lines_view(item@)));
    }

    fn add_line(&mut self, line: Line)
        ensures
            final(self)@ == add_item(old(self)@, seq![line@]),
    {
        let mut item: Vec<Line> = no_lines();
        push_line(&mut item, line);
        self.add(item);
    }

    fn add_selectable(&mut self, item: Vec<Line>, target: Ghost<OpsTarget>)
        ensures
            final(self)@ == add_entry(old(self)@, style::lines_view(item@), target@),
    {
        let ghost before = items_view(self.items@);
        let ghost t = self.targets@;
        self.sel.push(self.items.len());
        self.items.push(item);
        self.targets = Ghost(t.push(target@));
        assert(items_view(self.items@) =~= before.push(style::lines_view(item@)));
    }

    fn add_blank(&mut self)
        ensures
            final(self)@ == add_item(old(self)@, blank()),
    {
        self.add_line(Line::of("", plain()));
    }

    fn add_note(&mut self, text: &str)
        ensures
            final(self)@ == add_item(old(self)@, note(text@)),
    {
        self.add_line(Line::of(text, fg(TEXT_DIM)));
    }

    fn add_header(&mut self, title: &str, count: usize, color: Color)
        ensures
            final(self)@ == add_item(old(self)@, header(title@, count as nat, color)),
    {
        let mut line: Line = Line::new();
        line.put(" ", plain());
        line.put(title, fg(TEXT_BRIGHT).bold());
        line.put(" ", plain());
        let n: String = usize_text(count);
        line.put_string(cat3("(", n.as_str(), ")"), fg(color).bold());
        assert(line@ =~= header(title@, count as nat, color)[0]);
        assert(seq![line@] =~= header(title@, count as nat, color));
        self.add_line(line);
    }

    fn add_gap_if(&mut self, cond: bool)
        ensures
            final(self)@ == gap_if(old(self)@, cond),
    {
        if cond {
            self.add_blank();
        }
    }
}

fn item_of(first: Line, selected: bool, detail: Option<Line>) -> (r: Vec<Line>)
    requires
        selected ==> detail is Some,
    ensures
        selected ==> style::lines_view(r@) == with_detail(first@, selected, detail->0@),
        !selected ==> style::lines_view(r@) == seq![first@],
{
    let mut item: Vec<Line> = no_lines();
    push_line(&mut item, first);
    if selected {
        if let Some(d) = detail {
            push_line(&mut item, d);
        }
    }
    item
}

/// What the builder functions share.
struct Stage<'a> {
    rows: &'a [ThreadStatusView],
    merge_ops: &'a [MergeOperation],
    summaries: &'a ProgressSummaries,
    now_unix: i64,
    width: usize,
    slot: usize,
}

/// The stage shows the scene.
spec fn stands_for(st: Stage, s: OpsScene) -> bool {
    st.rows@ == s.rows && st.merge_ops@ == s.merge_ops && *st.summaries == s.summaries
        && st.now_unix == s.now && st.width as nat == s.width && st.slot as nat == s.slot
}

fn add_threads(b: &mut OpsBuilder, st: &Stage, idx: &Vec<usize>, s: Ghost<OpsScene>)
    requires
        stands_for(*st, s@),
        forall|k: int| 0 <= k < idx@.len() ==> (#[trigger] idx@[k]) < st.rows@.len(),
    ensures
        final(b)@ == add_entries(
            old(b)@,
            idx@.len(),
            thread_items(s@, idx@),
            nth_target(activity::thread_targets(idx@)),
            st.slot as nat,
        ),
{
    let ghost start = b@;
    let mut i: usize = 0;
    while i < idx.len()
        invariant
            i <= idx@.len(),
            stands_for(*st, s@),
            forall|k: int| 0 <= k < idx@.len() ==> (#[trigger] idx@[k]) < st.rows@.len(),
            b@ == add_entries(
                start,
                i as nat,
                thread_items(s@, idx@),
                nth_target(activity::thread_targets(idx@)),
                st.slot as nat,
            ),
        decreases idx@.len() - i,
    {
        let selected: bool = b.sel.len() == st.slot;
        let row: &ThreadStatusView = &st.rows[idx[i]];
        let first: Line = make_thread_line(row, selected, st.now_unix, st.width);
        let detail: Option<Line> = if selected {
            Some(make_thread_detail_line(row, st.width))
        } else {
            None
        };
        let item: Vec<Line> = item_of(first, selected, detail);
        assert(style::lines_view(item@) == thread_item(s@, idx@[i as int], selected));
        assert(activity::thread_targets(idx@)[i as int] == OpsTarget::Thread(idx@[i as int]));
        b.add_selectable(item, Ghost(OpsTarget::Thread(idx@[i as int])));
        i += 1;
    }
}

fn add_running(b: &mut OpsBuilder, st: &Stage, idx: &Vec<usize>, s: Ghost<OpsScene>)
    requires
        stands_for(*st, s@),
        forall|k: int| 0 <= k < idx@.len() ==> (#[trigger] idx@[k]) < st.rows@.len(),
    ensures
        final(b)@ == add_entries(
            old(b)@,
            idx@.len(),
            running_items(s@, idx@),
            nth_target(activity::thread_targets(idx@)),
            st.slot as nat,
        ),
{
    let ghost start = b@;
    let mut i: usize = 0;
    while i < idx.len()
        invariant
            i <= idx@.len(),
            stands_for(*st, s@),
            forall|k: int| 0 <= k < idx@.len() ==> (#[trigger] idx@[k]) < st.rows@.len(),
            b@ == add_entries(
                start,
                i as nat,
                running_items(s@, idx@),
                nth_target(activity::thread_targets(idx@)),
                st.slot as nat,
            ),
        decreases idx@.len() - i,
    {
        let selected: bool = b.sel.len() == st.slot;
        let row: &ThreadStatusView = &st.rows[idx[i]];
        let first: Line = make_thread_line(row, selected, st.now_unix, st.width);
        let summary: Option<&str> = match &row.execution_id {
            Some(id) => if activity::is_running_now(row) {
                st.summaries.get_progress_summary(id.as_str())
            } else {
                None
            },
            None => None,
        };
        let item: Vec<Line> = match summary {
            Some(text) => {
                let mut item: Vec<Line> = no_lines();
                push_line(&mut item, first);
                push_line(&mut item, make_progress_line(text, selected, st.width));
                item
            },
            None => {
                let detail: Option<Line> = if selected {
                    Some(make_thread_detail_line(row, st.width))
                } else {
                    None
                };
                item_of(first, selected, detail)
            },
        };
        assert(style::lines_view(item@) == running_item(s@, idx@[i as int], selected));
        assert(activity::thread_targets(idx@)[i as int] == OpsTarget::Thread(idx@[i as int]));
        b.add_selectable(item, Ghost(OpsTarget::Thread(idx@[i as int])));
        i += 1;
    }
}

fn add_scheduled(b: &mut OpsBuilder, st: &Stage, idx: &Vec<usize>, s: Ghost<OpsScene>)
    requires
        stands_for(*st, s@),
        forall|k: int| 0 <= k < idx@.len() ==> (#[trigger] idx@[k]) < st.rows@.len(),
    ensures
        final(b)@ == add_entries(
            old(b)@,
            idx@.len(),
            scheduled_items(s@, idx@),
            nth_target(activity::thread_targets(idx@)),
            st.slot as nat,
        ),
{
    let ghost start = b@;
    let mut i: usize = 0;
    while i < idx.len()
        invariant
            i <= idx@.len(),
            stands_for(*st, s@),
            forall|k: int| 0 <= k < idx@.len() ==> (#[trigger] idx@[k]) < st.rows@.len(),
            b@ == add_entries(
                start,
                i as nat,
                scheduled_items(s@, idx@),
                nth_target(activity::thread_targets(idx@)),
                st.slot as nat,
            ),
        decreases idx@.len() - i,
    {
        let selected: bool = b.sel.len() == st.slot;
        let row: &ThreadStatusView = &st.rows[idx[i]];
        let first: Line = make_thread_line(row, selected, st.now_unix, st.width);
        let detail: Option<Line> = if selected {
            Some(make_scheduled_detail_line(row, st.now_unix, st.width))
        } else {
            None
        };
        let item: Vec<Line> = item_of(first, selected, detail);
        assert(style::lines_view(item@) == scheduled_item(s@, idx@[i as int], selected));
        assert(activity::thread_targets(idx@)[i as int] == OpsTarget::Thread(idx@[i as int]));
        b.add_selectable(item, Ghost(OpsTarget::Thread(idx@[i as int])));
        i += 1;
    }
}

fn add_batches(
    b: &mut OpsBuilder,
    st: &Stage,
    batches: &Vec<BatchProgress>,
    marker: &str,
    color: Color,
    s: Ghost<OpsScene>,
)
    requires
        stands_for(*st, s@),
    ensures
        final(b)@ == add_entries(
            old(b)@,
            batches@.len(),
            batch_items(s@, sort::views(batches@), marker@, color),
            nth_target(activity::batch_targets(sort::views(batches@))),
            st.slot as nat,
        ),
{
    let ghost start = b@;
    let ghost all = sort::views(batches@);
    let mut i: usize = 0;
    while i < batches.len()
        invariant
            i <= batches@.len(),
            stands_for(*st, s@),
            all == sort::views(batches@),
            b@ == add_entries(
                start,
                i as nat,
                batch_items(s@, all, marker@, color),
                nth_target(activity::batch_targets(all)),
                st.slot as nat,
            ),
        decreases batches@.len() - i,
    {
        let selected: bool = b.sel.len() == st.slot;
        let batch: &BatchProgress = &batches[i];
        let first: Line = make_batch_line(batch, selected, st.now_unix, marker, color, st.width);
        let detail: Option<Line> = if selected {
            Some(make_batch_detail_line(batch))
        } else {
            None
        };
        let item: Vec<Line> = item_of(first, selected, detail);
        assert(all[i as int] == batch@);
        assert(style::lines_view(item@) == batch_item(s@, all[i as int], marker@, color, selected));
        assert(activity::batch_targets(all)[i as int] == OpsTarget::Batch(batch.batch_id@));
        b.add_selectable(item, Ghost(OpsTarget::Batch(batch.batch_id@)));
        i += 1;
    }
}

fn add_merges(b: &mut OpsBuilder, st: &Stage, idx: &Vec<usize>, s: Ghost<OpsScene>)
    requires
        stands_for(*st, s@),
        forall|k: int| 0 <= k < idx@.len() ==> (#[trigger] idx@[k]) < st.merge_ops@.len(),
    ensures
        final(b)@ == add_entries(
            old(b)@,
            idx@.len(),
            merge_items(s@, idx@),
            nth_target(activity::merge_targets(s@.merge_ops, idx@)),
            st.slot as nat,
        ),
{
    let ghost start = b@;
    let mut i: usize = 0;
    while i < idx.len()
        invariant
            i <= idx@.len(),
            stands_for(*st, s@),
            forall|k: int| 0 <= k < idx@.len() ==> (#[trigger] idx@[k]) < st.merge_ops@.len(),
            b@ == add_entries(
                start,
                i as nat,
                merge_items(s@, idx@),
                nth_target(activity::merge_targets(s@.merge_ops, idx@)),
                st.slot as nat,
            ),
        decreases idx@.len() - i,
    {
        let selected: bool = b.sel.len() == st.slot;
        let op: &MergeOperation = &st.merge_ops[idx[i]];
        let first: Line = make_merge_op_line(op, selected, st.now_unix, st.width);
        let detail: Option<Line> = if selected {
            Some(make_merge_op_detail_line(op, st.width))
        } else {
            None
        };
        let item: Vec<Line> = item_of(first, selected, detail);
        assert(style::lines_view(item@) == merge_item(s@, idx@[i as int], selected));
        assert(activity::merge_targets(s@.merge_ops, idx@)[i as int] == OpsTarget::MergeOp(op.id@));
        b.add_selectable(item, Ghost(OpsTarget::MergeOp(op.id@)));
        i += 1;
    }
}

fn has_failed(ops: &[MergeOperation], idx: &Vec<usize>) -> (r: bool)
    requires
        forall|k: int| 0 <= k < idx@.len() ==> (#[trigger] idx@[k]) < ops@.len(),
    ensures
        r == any_failed(ops@, idx@),
{
    let mut i: usize = 0;
    while i < idx.len()
        invariant
            i <= idx@.len(),
            forall|k: int| 0 <= k < idx@.len() ==> (#[trigger] idx@[k]) < ops@.len(),
            forall|k: int|
                0 <= k < i ==> ops@[(#[trigger] idx@[k]) as int].status@ != "failed"@,
        decreases idx@.len() - i,
    {
        if str_eq(ops[idx[i]].status.as_str(), "failed") {
            return true;
        }
        i += 1;
    }
    false
}

/// Every index that a section holds is that of a row.
pub proof fn lemma_sections_in_range(
    rows: Seq<ThreadStatusView>,
    drill: Option<Seq<char>>,
    now: i64,
    stale_after: i64,
)
    requires
        rows.len() <= usize::MAX,
    ensures
        ({
            let c = activity::classified(rows, drill, now, stale_after);
            &&& forall|k: int| 0 <= k < c.running.len() ==> (#[trigger] c.running[k]) < rows.len()
            &&& forall|k: int|
                0 <= k < c.active_threads.len() ==> (#[trigger] c.active_threads[k]) < rows.len()
            &&& forall|k: int|
                0 <= k < c.uncategorized.len() ==> (#[trigger] c.uncategorized[k]) < rows.len()
            &&& forall|k: int|
                0 <= k < c.recently_completed.len() ==> (#[trigger] c.recently_completed[k])
                    < rows.len()
            &&& c.scheduled.len() == 0
        }),
{
    let c = activity::classified(rows, drill, now, stale_after);
    activity::lemma_section_rows(rows, drill, now, stale_after, Section::Running);
    activity::lemma_section_rows(rows, drill, now, stale_after, Section::ActiveThreads);
    activity::lemma_section_rows(rows, drill, now, stale_after, Section::Uncategorized);
    activity::lemma_section_rows(rows, drill, now, stale_after, Section::RecentlyCompleted);
    activity::lemma_by_updated(rows, activity::section_rows(rows, drill, now, stale_after, Section::Running));
    activity::lemma_by_updated(rows, activity::section_rows(rows, drill, now, stale_after, Section::ActiveThreads));
    activity::lemma_by_updated(rows, activity::section_rows(rows, drill, now, stale_after, Section::Uncategorized));
    activity::lemma_by_updated(rows, activity::section_rows(rows, drill, now, stale_after, Section::RecentlyCompleted));
    assert forall|k: int| 0 <= k < c.running.len() implies (#[trigger] c.running[k])
        < rows.len() by {
        assert(c.running.contains(c.running[k]));
    }
    assert forall|k: int| 0 <= k < c.active_threads.len() implies (#[trigger] c.active_threads[k])
        < rows.len() by {
        assert(c.active_threads.contains(c.active_threads[k]));
    }
    assert forall|k: int| 0 <= k < c.uncategorized.len() implies (#[trigger] c.uncategorized[k])
        < rows.len() by {
        assert(c.uncategorized.contains(c.uncategorized[k]));
    }
    assert forall|k: int| 0 <= k < c.recently_completed.len() implies (
    #[trigger] c.recently_completed[k]) < rows.len() by {
        assert(c.recently_completed.contains(c.recently_completed[k]));
    }
    activity::lemma_scheduled_empty(rows, drill, now, stale_after);
}

// ── Geometry ─────────────────────────────────────────────────────────────────

/// The display rows that the first `n` items take.
pub open spec fn rows_before(items: Seq<ItemView>, n: nat) -> nat
    decreases n,
{
    if n == 0 {
        0
    } else {
        rows_before(items, (n - 1) as nat) + items[n - 1].len()
    }
}

/// The nearest value that a `usize` holds.
pub open spec fn clamp_usize(n: nat) -> usize {
    if n > usize::MAX {
        usize::MAX
    } else {
        n as usize
    }
}

/// The list with its position.
pub struct OpsList {
    pub items: Vec<Vec<Line>>,
    /// For each selectable slot, the index of its item.
    pub sel_to_row: Vec<usize>,
    /// The slot that is drawn as selected.
    pub selected_slot: usize,
    /// The item of that slot; the first item where nothing can be selected.
    pub selected_item: usize,
    /// The display row at the top.
    pub scroll: usize,
    /// For each slot, its first display row and its height.
    pub slot_geometry: Vec<(usize, usize)>,
}

/// The slot that a requested selection falls on: the last one at most.
pub open spec fn slot_for(selected: usize, count: nat) -> nat {
    if count == 0 {
        0
    } else if selected < count {
        selected as nat
    } else {
        (count - 1) as nat
    }
}

/// The item of a slot.
pub open spec fn item_of_slot(a: OpsAcc, slot: nat) -> usize {
    if slot < a.sel.len() {
        a.sel[slot as int]
    } else {
        0
    }
}

/// What the list shows of the data; the requested selection falls on a slot.
pub open spec fn ops_scene(
    data: ActivityData,
    drill: Option<Seq<char>>,
    selected: usize,
    summaries: ProgressSummaries,
    width: nat,
    now: i64,
    stale_after: i64,
) -> OpsScene {
    OpsScene {
        rows: data.rows@,
        merge_ops: data.merge_ops@,
        drill,
        summaries,
        now,
        stale_after,
        width,
        slot: slot_for(
            selected,
            activity::ops_targets(data.rows@, data.merge_ops@, drill, now, stale_after).len(),
        ),
    }
}

/// The list `l` is the scene's, with `height` display rows in sight.
pub open spec fn is_ops_list(l: OpsList, s: OpsScene, height: usize) -> bool {
    let a = ops_acc(s);
    &&& items_view(l.items@) == a.items
    &&& l.sel_to_row@ == a.sel
    &&& l.selected_slot as nat == s.slot
    &&& l.selected_item == item_of_slot(a, s.slot)
    &&& l.scroll == ops_lines::scroll_for(
        clamp_usize(rows_before(a.items, l.selected_item as nat)) as int,
        height as int,
        clamp_usize(rows_before(a.items, a.items.len())) as int,
    )
    &&& l.slot_geometry@.len() == a.sel.len()
    &&& forall|k: int|
        0 <= k < a.sel.len() ==> #[trigger] l.slot_geometry@[k] == (
            clamp_usize(rows_before(a.items, a.sel[k] as nat)),
            a.items[a.sel[k] as int].len() as usize,
        )
}

/// Slots point at items, in order.
pub proof fn lemma_slots_in_range(s: OpsScene)
    requires
        ops_acc(s).items.len() <= usize::MAX,
    ensures
        forall|k: int|
            0 <= k < ops_acc(s).sel.len() ==> (#[trigger] ops_acc(s).sel[k])
                < ops_acc(s).items.len(),
        forall|j: int, k: int|
            0 <= j < k < ops_acc(s).sel.len() ==> (#[trigger] ops_acc(s).sel[j]) < (
            #[trigger] ops_acc(s).sel[k]),
        ops_acc(s).items.len() > 0,
{
    let c = activity::classified(s.rows, s.drill, s.now, s.stale_after);
    let a0 = OpsAcc { items: seq![], sel: seq![], targets: seq![] };
    let a1 = match s.drill {
        Some(batch) => add_item(add_item(a0, filter_item(batch)), blank()),
        None => a0,
    };
    lemma_active_in_range(a1, s, c);
    let a2 = if c.running.len() == 0 && c.scheduled.len() == 0 && (s.drill is Some
        || c.active_batches.len() == 0) && c.active_threads.len() == 0 {
        add_item(a1, note("  no active work"@))
    } else {
        active_sections(a1, s, c)
    };
    let vm = activity::visible_merges(s.merge_ops, s.now);
    let a3 = if s.drill is Some {
        thread_section(a2, s, "Other"@, TEXT_DIM, c.uncategorized)
    } else {
        merge_section(a2, s, vm)
    };
    assert(slots_ok(a2));
    let hm = add_item(
        add_item(a2, blank()),
        header(
            "Merge Queue"@,
            vm.len(),
            if any_failed(s.merge_ops, vm) {
                FAILURE
            } else {
                ACCENT
            },
        ),
    );
    lemma_entries_in_range(
        hm,
        vm.len(),
        merge_items(s, vm),
        nth_target(activity::merge_targets(s.merge_ops, vm)),
        s.slot,
    );
    lemma_thread_section_in_range(a2, s, "Other"@, TEXT_DIM, c.uncategorized);
    assert(slots_ok(a3));
    let recent = activity::capped(c.recently_completed, RECENTLY_COMPLETED_LIMIT as nat);
    let a4 = thread_section(a3, s, "Recently Completed"@, SUCCESS_DIM, recent);
    lemma_thread_section_in_range(a3, s, "Recently Completed"@, SUCCESS_DIM, recent);
    let bs = activity::capped(c.batches, OPS_BATCH_SECTION_LIMIT as nat);
    lemma_entries_in_range(
        add_item(add_item(a4, blank()), header("Batches"@, c.batches.len(), TEXT_MUTED)),
        bs.len(),
        batch_items(s, bs, "B"@, TEXT_MUTED),
        nth_target(activity::batch_targets(bs)),
        s.slot,
    );
    assert(slots_ok(ops_acc(s)));
}

/// As long as the items can be counted, every slot points at one of them, and
/// later slots at later ones.
spec fn slots_ok(a: OpsAcc) -> bool {
    a.items.len() <= usize::MAX ==> {
        &&& forall|k: int| 0 <= k < a.sel.len() ==> (#[trigger] a.sel[k]) < a.items.len()
        &&& forall|j: int, k: int|
            0 <= j < k < a.sel.len() ==> (#[trigger] a.sel[j]) < (#[trigger] a.sel[k])
    }
}

proof fn lemma_entries_in_range(
    a: OpsAcc,
    n: nat,
    item: spec_fn(int, bool) -> ItemView,
    target: spec_fn(int) -> OpsTarget,
    slot: nat,
)
    requires
        slots_ok(a),
    ensures
        slots_ok(add_entries(a, n, item, target, slot)),
        add_entries(a, n, item, target, slot).items.len() == a.items.len() + n,
    decreases n,
{
    if n > 0 {
        lemma_entries_in_range(a, (n - 1) as nat, item, target, slot);
    }
}

proof fn lemma_thread_section_in_range(
    a: OpsAcc,
    s: OpsScene,
    title: Seq<char>,
    color: Color,
    idx: Seq<usize>,
)
    requires
        slots_ok(a),
    ensures
        slots_ok(thread_section(a, s, title, color, idx)),
        thread_section(a, s, title, color, idx).items.len() > a.items.len(),
{
    let b = add_item(add_item(a, blank()), header(title, idx.len(), color));
    assert(slots_ok(b));
    lemma_entries_in_range(
        b,
        idx.len(),
        thread_items(s, idx),
        nth_target(activity::thread_targets(idx)),
        s.slot,
    );
}

proof fn lemma_active_in_range(a: OpsAcc, s: OpsScene, c: Classified)
    requires
        slots_ok(a),
    ensures
        slots_ok(active_sections(a, s, c)),
{
    let has_running = c.running.len() > 0;
    let has_scheduled = c.scheduled.len() > 0;
    let has_batches = s.drill is None && c.active_batches.len() > 0;
    let shown = activity::capped(c.active_batches, OPS_BATCH_SECTION_LIMIT as nat);
    let h1 = add_item(a, header("Running"@, c.running.len(), ACCENT));
    let t1 = nth_target(activity::thread_targets(c.running));
    lemma_entries_in_range(h1, c.running.len(), running_items(s, c.running), t1, s.slot);
    let a1 = if has_running {
        add_entries(h1, c.running.len(), running_items(s, c.running), t1, s.slot)
    } else {
        a
    };
    let h2 = add_item(
        gap_if(a1, has_running),
        header("Scheduled"@, c.scheduled.len(), TEXT_MUTED),
    );
    let t2 = nth_target(activity::thread_targets(c.scheduled));
    lemma_entries_in_range(h2, c.scheduled.len(), scheduled_items(s, c.scheduled), t2, s.slot);
    let a2 = if has_scheduled {
        add_entries(h2, c.scheduled.len(), scheduled_items(s, c.scheduled), t2, s.slot)
    } else {
        a1
    };
    let h3 = add_item(
        gap_if(a2, has_running || has_scheduled),
        header("Active Batches"@, c.active_batches.len(), ACCENT),
    );
    let t3 = nth_target(activity::batch_targets(shown));
    lemma_entries_in_range(h3, shown.len(), batch_items(s, shown, "A"@, ACCENT), t3, s.slot);
    let a3 = if has_batches {
        add_entries(h3, shown.len(), batch_items(s, shown, "A"@, ACCENT), t3, s.slot)
    } else {
        a2
    };
    let h4 = add_item(
        gap_if(a3, has_running || has_scheduled || has_batches),
        header("Active Threads"@, c.active_threads.len(), ACCENT),
    );
    lemma_entries_in_range(
        h4,
        c.active_threads.len(),
        thread_items(s, c.active_threads),
        nth_target(activity::thread_targets(c.active_threads)),
        s.slot,
    );
}

/// An item ends before the next one begins.
proof fn lemma_rows_apart(items: Seq<ItemView>, i: nat, j: nat)
    requires
        i < j,
    ensures
        rows_before(items, i) + items[i as int].len() <= rows_before(items, j),
    decreases j,
{
    if i < j - 1 {
        lemma_rows_apart(items, i, (j - 1) as nat);
    }
}

/// The slots of a list are as many as its selectable entries; each lies within
/// the rows of the list and ends before any later one begins. Only a list of
/// more rows than a number holds is left out.
pub proof fn law_slots_do_not_overlap(l: OpsList, s: OpsScene, height: usize, j: int, k: int)
    requires
        is_ops_list(l, s, height),
        rows_before(ops_acc(s).items, ops_acc(s).items.len()) <= usize::MAX,
        0 <= j < k < l.slot_geometry@.len(),
    ensures
        l.slot_geometry@.len() == activity::ops_targets(
            s.rows,
            s.merge_ops,
            s.drill,
            s.now,
            s.stale_after,
        ).len(),
        l.slot_geometry@[j].0 + l.slot_geometry@[j].1 <= l.slot_geometry@[k].0,
        l.slot_geometry@[k].0 + l.slot_geometry@[k].1 <= rows_before(
            ops_acc(s).items,
            ops_acc(s).items.len(),
        ),
{
    let a = ops_acc(s);
    assert(l.items@.len() == l.items.len());
    assert(items_view(l.items@).len() == l.items@.len());
    law_slots_are_targets(s);
    lemma_slots_in_range(s);
    let first = a.sel[j] as nat;
    let second = a.sel[k] as nat;
    lemma_rows_apart(a.items, first, second);
    lemma_rows_apart(a.items, second, a.items.len());
    assert(l.slot_geometry@[j] == (
        clamp_usize(rows_before(a.items, first)),
        a.items[first as int].len() as usize,
    ));
    assert(l.slot_geometry@[k] == (
        clamp_usize(rows_before(a.items, second)),
        a.items[second as int].len() as usize,
    ));
}

/// The click cache of a list that is drawn in an area, above its footer.
pub open spec fn is_ops_cache(c: OpsClickCache, l: OpsList, area: Rect) -> bool {
    &&& c.slot_geometry@ == l.slot_geometry@
    &&& c.scroll == l.scroll
    &&& c.list_rect == area.above_footer()
}

/// A click hits slot `k` if and only if it falls, above the footer of the area,
/// on a row in which slot `k` is drawn; there are as many slots as selectable
/// entries. Only a list of more rows than a number holds is left out.
pub proof fn law_click_hits_its_slot(
    c: OpsClickCache,
    l: OpsList,
    s: OpsScene,
    area: Rect,
    row: u16,
    k: usize,
)
    requires
        is_ops_list(l, s, area.above_footer().height as usize),
        is_ops_cache(c, l, area),
        rows_before(ops_acc(s).items, ops_acc(s).items.len()) <= usize::MAX,
    ensures
        c.slot_geometry@.len() == activity::ops_targets(
            s.rows,
            s.merge_ops,
            s.drill,
            s.now,
            s.stale_after,
        ).len(),
        c.hit(row) == Some(k) <==> {
            &&& area.y <= row < area.y + area.height - 1
            &&& k < c.slot_geometry@.len()
            &&& geometry::within(
                row - area.y + c.scroll,
                c.slot_geometry@[k as int].0 as int,
                c.slot_geometry@[k as int].1 as int,
            )
        },
{
    let g = c.slot_geometry@;
    let at = row - area.y + c.scroll;
    law_slots_are_targets(s);
    assert(g.len() == c.slot_geometry.len());
    geometry::law_slot_covers_row(g, at);
    if k < g.len() && geometry::within(at, g[k as int].0 as int, g[k as int].1 as int) {
        match geometry::slot_at(g, at) {
            Some(j) => {
                if j < k {
                    law_slots_do_not_overlap(
                        l,
                        s,
                        area.above_footer().height as usize,
                        j as int,
                        k as int,
                    );
                }
            },
            None => {},
        }
    }
}

/// The display row at which each item begins, and where the last one ends.
fn row_offsets(items: &Vec<Vec<Line>>) -> (r: Vec<usize>)
    ensures
        r@.len() == items@.len() + 1,
        forall|k: int|
            0 <= k <= items@.len() ==> #[trigger] r@[k] == clamp_usize(
                rows_before(items_view(items@), k as nat),
            ),
{
    let mut out: Vec<usize> = Vec::new();
    out.push(0);
    let mut i: usize = 0;
    while i < items.len()
        invariant
            i <= items@.len(),
            out@.len() == i + 1,
            forall|k: int|
                0 <= k <= i ==> #[trigger] out@[k] == clamp_usize(
                    rows_before(items_view(items@), k as nat),
                ),
        decreases items@.len() - i,
    {
        assert(items_view(items@)[i as int].len() == items@[i as int]@.len());
        let next: usize = out[i].saturating_add(items[i].len());
        out.push(next);
        i += 1;
    }
    out
}

/// The whole Ops list. `selected` is the requested slot, `visible_height` the
/// number of display rows in sight.
pub fn build_ops_list(
    data: &ActivityData,
    drill_batch: Option<&str>,
    selected: usize,
    summaries: &ProgressSummaries,
    list_width: usize,
    visible_height: usize,
    now_unix: i64,
    stale_after_secs: i64,
) -> (r: OpsList)
    ensures
        is_ops_list(
            r,
            ops_scene(
                *data,
                activity::drill_text(drill_batch),
                selected,
                *summaries,
                list_width as nat,
                now_unix,
                stale_after_secs,
            ),
            visible_height,
        ),
{
    let rows: &[ThreadStatusView] = data.rows.as_slice();
    let merge_ops: &[MergeOperation] = data.merge_ops.as_slice();
    let count: usize = ops_selectable_count(
        rows,
        merge_ops,
        drill_batch,
        now_unix,
        stale_after_secs,
    );
    let slot: usize = if count == 0 {
        0
    } else if selected < count {
        selected
    } else {
        count - 1
    };
    let ghost scene = OpsScene {
        rows: data.rows@,
        merge_ops: data.merge_ops@,
        drill: activity::drill_text(drill_batch),
        summaries: *summaries,
        now: now_unix,
        stale_after: stale_after_secs,
        width: list_width as nat,
        slot: slot as nat,
    };
    let st: Stage = Stage { rows, merge_ops, summaries, now_unix, width: list_width, slot };
    let c: ClassifiedRows = classify_rows(rows, drill_batch, now_unix, stale_after_secs);
    let n_rows: usize = rows.len();
    proof {
        lemma_sections_in_range(
            data.rows@,
            activity::drill_text(drill_batch),
            now_unix,
            stale_after_secs,
        );
    }
    let mut b: OpsBuilder = OpsBuilder {
        items: Vec::new(),
        sel: Vec::new(),
        targets: Ghost(Seq::empty()),
    };
    assert(b@.items =~= seq![]);
    assert(b@.sel =~= seq![]);
    if let Some(batch) = drill_batch {
        let mut line: Line = Line::new();
        line.put(" ", plain());
        let name: String = truncate(batch, 22);
        line.put_string(cat("Filter: batch ", name.as_str()), fg(ACCENT).bold());
        line.put("  ", plain());
        line.put("x", fg(ACCENT).bold());
        line.put("/", plain());
        line.put("Esc", fg(ACCENT).bold());
        line.put(": back", plain());
        assert(line@ =~= filter_item(batch@)[0]);
        assert(seq![line@] =~= filter_item(batch@));
        b.add_line(line);
        b.add_blank();
    }
    let drilled: bool = drill_batch.is_some();
    let has_running: bool = c.running.len() > 0;
    let has_scheduled: bool = c.scheduled.len() > 0;
    let has_batches: bool = !drilled && c.active_batches.len() > 0;
    let has_threads: bool = c.active_threads.len() > 0;
    if !has_running && !has_scheduled && !has_batches && !has_threads {
        b.add_note("  no active work");
    } else {
        if has_running {
            b.add_header("Running", c.running.len(), ACCENT);
            add_running(&mut b, &st, &c.running, Ghost(scene));
        }
        if has_scheduled {
            b.add_gap_if(has_running);
            b.add_header("Scheduled", c.scheduled.len(), TEXT_MUTED);
            add_scheduled(&mut b, &st, &c.scheduled, Ghost(scene));
        }
        if has_batches {
            b.add_gap_if(has_running || has_scheduled);
            b.add_header("Active Batches", c.active_batches.len(), ACCENT);
            let shown: Vec<BatchProgress> = capped_batches(&c.active_batches);
            add_batches(&mut b, &st, &shown, "A", ACCENT, Ghost(scene));
        }
        if has_threads {
            b.add_gap_if(has_running || has_scheduled || has_batches);
            b.add_header("Active Threads", c.active_threads.len(), ACCENT);
            add_threads(&mut b, &st, &c.active_threads, Ghost(scene));
        }
        assert(b@ == active_sections(
            match scene.drill {
                Some(batch) => add_item(
                    add_item(
                        OpsAcc { items: seq![], sel: seq![], targets: seq![] },
                        filter_item(batch),
                    ),
                    blank(),
                ),
                None => OpsAcc { items: seq![], sel: seq![], targets: seq![] },
            },
            scene,
            c@,
        ));
    }
    if drilled {
        b.add_blank();
        b.add_header("Other", c.uncategorized.len(), TEXT_DIM);
        if c.uncategorized.len() == 0 {
            b.add_note("  none");
        } else {
            add_threads(&mut b, &st, &c.uncategorized, Ghost(scene));
        }
    } else {
        let merges: Vec<usize> = visible_merge_indices(merge_ops, now_unix);
        if merges.len() > 0 {
            let color: Color = if has_failed(merge_ops, &merges) {
                FAILURE
            } else {
                ACCENT
            };
            b.add_blank();
            b.add_header("Merge Queue", merges.len(), color);
            add_merges(&mut b, &st, &merges, Ghost(scene));
        }
    }
    let recent: Vec<usize> = capped_recently_completed(&c.recently_completed);
    b.add_blank();
    b.add_header("Recently Completed", recent.len(), SUCCESS_DIM);
    if recent.len() == 0 {
        b.add_note("  none");
    } else {
        add_threads(&mut b, &st, &recent, Ghost(scene));
    }
    if !drilled {
        b.add_blank();
        b.add_header("Batches", c.batches.len(), TEXT_MUTED);
        if c.batches.len() == 0 {
            b.add_note("  none");
        } else {
            let shown: Vec<BatchProgress> = capped_batches(&c.batches);
            add_batches(&mut b, &st, &shown, "B", TEXT_MUTED, Ghost(scene));
        }
    }
    assert(b@ == ops_acc(scene));
    place(b, slot, visible_height, Ghost(scene))
}

fn place(b: OpsBuilder, slot: usize, visible_height: usize, s: Ghost<OpsScene>) -> (r: OpsList)
    requires
        b@ == ops_acc(s@),
        slot as nat == s@.slot,
    ensures
        is_ops_list(r, s@, visible_height),
{
    let n: usize = b.items.len();
    assert(items_view(b.items@).len() == b.items@.len());
    proof {
        assert(b@.items == items_view(b.items@) && b@.sel == b.sel@);
        lemma_slots_in_range(s@);
    }
    let offsets: Vec<usize> = row_offsets(&b.items);
    let selected_item: usize = if slot < b.sel.len() {
        b.sel[slot]
    } else {
        0
    };
    let scroll: usize = compute_scroll(offsets[selected_item], visible_height, offsets[n]);
    let mut geometry: Vec<(usize, usize)> = Vec::new();
    let mut i: usize = 0;
    while i < b.sel.len()
        invariant
            i <= b.sel@.len(),
            offsets@.len() == b.items@.len() + 1,
            forall|k: int|
                0 <= k <= b.items@.len() ==> #[trigger] offsets@[k] == clamp_usize(
                    rows_before(items_view(b.items@), k as nat),
                ),
            forall|k: int| 0 <= k < b.sel@.len() ==> (#[trigger] b.sel@[k]) < b.items@.len(),
            geometry@.len() == i,
            forall|k: int|
                0 <= k < i ==> #[trigger] geometry@[k] == (
                    clamp_usize(rows_before(items_view(b.items@), b.sel@[k] as nat)),
                    items_view(b.items@)[b.sel@[k] as int].len() as usize,
                ),
        decreases b.sel@.len() - i,
    {
        let at: usize = b.sel[i];
        assert(items_view(b.items@)[at as int].len() == b.items@[at as int]@.len());
        geometry.push((offsets[at], b.items[at].len()));
        i += 1;
    }
    OpsList {
        items: b.items,
        sel_to_row: b.sel,
        selected_slot: slot,
        selected_item,
        scroll,
        slot_geometry: geometry,
    }
}

fn copy_geometry(v: &Vec<(usize, usize)>) -> (r: Vec<(usize, usize)>)
    ensures
        r@ == v@,
{
    let mut out: Vec<(usize, usize)> = Vec::new();
    let mut i: usize = 0;
    while i < v.len()
        invariant
            i <= v@.len(),
            out@ == v@.take(i as int),
        decreases v@.len() - i,
    {
        out.push(v[i]);
        assert(out@ =~= v@.take(i + 1));
        i += 1;
    }
    assert(v@.take(i as int) =~= v@);
    out
}

/// The Ops list as it fills an area above its footer, and where its entries
/// stand for the mouse.
pub fn lay_out_ops_list(
    data: &ActivityData,
    drill_batch: Option<&str>,
    selected: usize,
    summaries: &ProgressSummaries,
    area: Rect,
    now_unix: i64,
    stale_after_secs: i64,
) -> (r: (OpsList, OpsClickCache))
    ensures
        is_ops_list(
            r.0,
            ops_scene(
                *data,
                activity::drill_text(drill_batch),
                selected,
                *summaries,
                area.width as nat,
                now_unix,
                stale_after_secs,
            ),
            area.above_footer().height as usize,
        ),
        is_ops_cache(r.1, r.0, area),
{
    let (list_rect, _): (Rect, Rect) = area.split_footer();
    let list: OpsList = build_ops_list(
        data,
        drill_batch,
        selected,
        summaries,
        list_rect.width as usize,
        list_rect.height as usize,
        now_unix,
        stale_after_secs,
    );
    let cache: OpsClickCache = OpsClickCache {
        slot_geometry: copy_geometry(&list.slot_geometry),
        scroll: list.scroll,
        list_rect,
    };
    (list, cache)
}

// ── Laws of what is shown ────────────────────────────────────────────────────

/// Entries are shown one after the other, each where its slot points to; the one
/// in the selected slot is shown as selected.
pub proof fn law_entries_are_shown(
    a: OpsAcc,
    n: nat,
    item: spec_fn(int, bool) -> ItemView,
    target: spec_fn(int) -> OpsTarget,
    slot: nat,
    k: int,
)
    requires
        0 <= k < n,
        a.items.len() + n <= usize::MAX,
    ensures
        ({
            let b = add_entries(a, n, item, target, slot);
            &&& b.items[a.items.len() + k] == item(k, a.sel.len() + k == slot)
            &&& b.sel[a.sel.len() + k] == a.items.len() + k
            &&& b.targets[a.targets.len() + k] == target(k)
        }),
    decreases n,
{
    let c = add_entries(a, (n - 1) as nat, item, target, slot);
    lemma_add_entries(a, (n - 1) as nat, item, target, slot);
    lemma_add_entries(a, n, item, target, slot);
    if k < n - 1 {
        law_entries_are_shown(a, (n - 1) as nat, item, target, slot, k);
        let b = add_entries(a, n, item, target, slot);
        assert(b.items[a.items.len() + k] == c.items[a.items.len() + k]);
        assert(b.sel[a.sel.len() + k] == c.sel[a.sel.len() + k]);
    }
}

/// A section of threads: a gap, its title with how many there are, and each of
/// its threads; that there are none where there are none.
pub proof fn law_section_shows_its_threads(
    a: OpsAcc,
    s: OpsScene,
    title: Seq<char>,
    color: Color,
    idx: Seq<usize>,
    k: int,
)
    requires
        a.items.len() + 2 + idx.len() <= usize::MAX,
    ensures
        ({
            let b = thread_section(a, s, title, color, idx);
            let n = a.items.len() as int;
            &&& b.items[n + 1][0][1].text == title
            &&& b.items[n + 1][0][3].text == "("@ + text::dec(idx.len()) + ")"@
            &&& idx.len() == 0 ==> b.items[n + 2][0][0].text == "  none"@ && b.sel == a.sel
            &&& 0 <= k < idx.len() ==> {
                let shown = b.items[n + 2 + k];
                let row = s.rows[idx[k] as int];
                let selected = a.sel.len() + k == s.slot;
                &&& b.sel[a.sel.len() + k] == n + 2 + k
                &&& shown[0] == ops_lines::thread_line(row, selected, s.now, s.width)
                &&& shown.len() == if selected {
                    2int
                } else {
                    1int
                }
                &&& selected ==> shown[1] == ops_lines::thread_detail(row, s.width)
            }
        }),
{
    let h = add_item(add_item(a, blank()), header(title, idx.len(), color));
    let t = nth_target(activity::thread_targets(idx));
    if 0 <= k < idx.len() {
        law_entries_are_shown(h, idx.len(), thread_items(s, idx), t, s.slot, k);
    }
    lemma_entries_keep(h, idx.len(), thread_items(s, idx), t, s.slot, (a.items.len() + 1) as int);
}

proof fn lemma_entries_keep(
    a: OpsAcc,
    n: nat,
    item: spec_fn(int, bool) -> ItemView,
    target: spec_fn(int) -> OpsTarget,
    slot: nat,
    i: int,
)
    requires
        0 <= i < a.items.len(),
    ensures
        add_entries(a, n, item, target, slot).items[i] == a.items[i],
        add_entries(a, n, item, target, slot).items.len() == a.items.len() + n,
    decreases n,
{
    if n > 0 {
        lemma_entries_keep(a, (n - 1) as nat, item, target, slot, i);
    }
}

/// The merge queue: a gap, its title with how many there are, and each of its
/// merges; the count stands out where one of them failed. There is none where
/// there are no merges.
pub proof fn law_merge_queue_shows_its_merges(a: OpsAcc, s: OpsScene, idx: Seq<usize>, k: int)
    requires
        a.items.len() + 2 + idx.len() <= usize::MAX,
        0 <= k < idx.len(),
    ensures
        ({
            let b = merge_section(a, s, idx);
            let n = a.items.len() as int;
            let op = s.merge_ops[idx[k] as int];
            let selected = a.sel.len() + k == s.slot;
            &&& b.items[n + 1][0][1].text == "Merge Queue"@
            &&& b.items[n + 1][0][3].text == "("@ + text::dec(idx.len()) + ")"@
            &&& op.status@ == "failed"@ ==> b.items[n + 1][0][3].style.fg == Some(FAILURE)
            &&& (forall|j: int|
                0 <= j < idx.len() ==> s.merge_ops[(#[trigger] idx[j]) as int].status@
                    != "failed"@) ==> b.items[n + 1][0][3].style.fg == Some(ACCENT)
            &&& b.items[n + 2 + k][0] == ops_lines::merge_line(op, selected, s.now, s.width)
            &&& selected ==> b.items[n + 2 + k][1] == ops_lines::merge_detail_line(op, s.width)
            &&& b.sel[a.sel.len() + k] == n + 2 + k
        }),
        merge_section(a, s, Seq::empty()) == a,
{
    let color = if any_failed(s.merge_ops, idx) {
        FAILURE
    } else {
        ACCENT
    };
    let h = add_item(add_item(a, blank()), header("Merge Queue"@, idx.len(), color));
    let t = nth_target(activity::merge_targets(s.merge_ops, idx));
    law_entries_are_shown(h, idx.len(), merge_items(s, idx), t, s.slot, k);
    lemma_entries_keep(h, idx.len(), merge_items(s, idx), t, s.slot, (a.items.len() + 1) as int);
}

/// The batches: a gap, the title with how many there are, and the first of them
/// as many as are shown.
pub proof fn law_batches_are_shown(a: OpsAcc, s: OpsScene, b: Seq<BatchView>, k: int)
    requires
        a.items.len() + 2 + b.len() <= usize::MAX,
    ensures
        ({
            let r = batch_section(a, s, b);
            let n = a.items.len() as int;
            let shown = activity::capped(b, OPS_BATCH_SECTION_LIMIT as nat);
            let selected = a.sel.len() + k == s.slot;
            &&& r.items[n + 1][0][1].text == "Batches"@
            &&& r.items[n + 1][0][3].text == "("@ + text::dec(b.len()) + ")"@
            &&& b.len() == 0 ==> r.items[n + 2][0][0].text == "  none"@
            &&& 0 <= k < shown.len() ==> {
                &&& r.items[n + 2 + k][0] == ops_lines::batch_line(
                    shown[k],
                    selected,
                    s.now,
                    "B"@,
                    TEXT_MUTED,
                    s.width,
                )
                &&& selected ==> r.items[n + 2 + k][1] == ops_lines::batch_detail(shown[k])
                &&& r.sel[a.sel.len() + k] == n + 2 + k
            }
        }),
{
    let h = add_item(add_item(a, blank()), header("Batches"@, b.len(), TEXT_MUTED));
    let shown = activity::capped(b, OPS_BATCH_SECTION_LIMIT as nat);
    let t = nth_target(activity::batch_targets(shown));
    let items = batch_items(s, shown, "B"@, TEXT_MUTED);
    if b.len() > 0 {
        if 0 <= k < shown.len() {
            law_entries_are_shown(h, shown.len(), items, t, s.slot, k);
        }
        lemma_entries_keep(h, shown.len(), items, t, s.slot, (a.items.len() + 1) as int);
    }
}

/// What runs is shown first, under its title and with how many there are; below
/// each its progress where there is some, or its detail where it is selected.
pub proof fn law_running_is_shown_first(a: OpsAcc, s: OpsScene, c: Classified, k: int)
    requires
        0 <= k < c.running.len(),
        a.items.len() + 1 + c.running.len() <= usize::MAX,
        c.scheduled.len() == 0,
        c.active_threads.len() == 0,
        s.drill is Some || c.active_batches.len() == 0,
    ensures
        ({
            let b = active_sections(a, s, c);
            let n = a.items.len() as int;
            let row = s.rows[c.running[k] as int];
            let selected = a.sel.len() + k == s.slot;
            let shown = b.items[n + 1 + k];
            &&& b.items[n][0][1].text == "Running"@
            &&& b.items[n][0][3].text == "("@ + text::dec(c.running.len()) + ")"@
            &&& b.sel[a.sel.len() + k] == n + 1 + k
            &&& shown[0] == ops_lines::thread_line(row, selected, s.now, s.width)
            &&& activity::running_now(row) ==> (row.execution_id matches Some(id) ==> (
            s.summaries.shown(id@) matches Some(p) ==> shown.len() == 2 && shown[1]
                == ops_lines::progress_line((p).0, selected, s.width)))
            &&& row.execution_id is None ==> shown.len() == if selected {
                2int
            } else {
                1int
            }
        }),
{
    let h = add_item(a, header("Running"@, c.running.len(), ACCENT));
    let t = nth_target(activity::thread_targets(c.running));
    law_entries_are_shown(h, c.running.len(), running_items(s, c.running), t, s.slot, k);
    lemma_entries_keep(h, c.running.len(), running_items(s, c.running), t, s.slot, a.items.len() as int);
}

/// What the list begins with: the batch that it is narrowed to and how to go back,
/// or that there is no active work.
pub proof fn law_narrowed_lists_say_so(s: OpsScene, batch: Seq<char>)
    requires
        batch.len() <= 22,
    ensures
        filter_item(batch)[0][1].text == "Filter: batch "@ + batch,
        note("  none"@)[0][0].text == "  none"@,
{
}

/// The slot that is selected: the one that was asked for, or the last one.
pub proof fn law_selected_slot(selected: usize, count: nat, a: OpsAcc)
    ensures
        selected < count ==> slot_for(selected, count) == selected,
        0 < count <= selected ==> slot_for(selected, count) == count - 1,
        count == 0 ==> slot_for(selected, count) == 0,
        selected < a.sel.len() ==> item_of_slot(a, selected as nat) == a.sel[selected as int],
{
}

/// The rows above an item are those of the items before it.
pub proof fn law_rows_above_an_item(items: Seq<ItemView>, n: nat)
    requires
        n < items.len(),
    ensures
        rows_before(items, 0) == 0,
        rows_before(items, n + 1) == rows_before(items, n) + items[n as int].len(),
{
}

} // verus!
