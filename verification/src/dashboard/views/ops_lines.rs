//! Ops tab: the lines of threads, batches and merges, and the footer.
use crate::dashboard::theme::{
    exec_status_color, ACCENT, BATCH_PROGRESS_EMPTY, BATCH_PROGRESS_FILLED, BG_HIGHLIGHT,
    BG_PRIMARY, BORDER_DIM, FAILURE, MARKER_COMPLETED, MARKER_FAILED, MARKER_QUEUED, MARKER_RUNNING,
    MARKER_TIMEOUT, SUCCESS, SUCCESS_DIM, TEXT_BRIGHT, TEXT_DIM, TEXT_MUTED, TEXT_NORMAL, WARNING,
};
use crate::dashboard::theme;
use crate::dashboard::views::activity::{footer_counts, ActivityData, BatchProgress, BatchView};
use crate::dashboard::views::activity;
use crate::dashboard::views::{
    elapsed, format_duration_ms, format_duration_secs, format_tokens, humanize_exec_status,
    is_running_exec_status, truncate, truncate_left,
};
use crate::dashboard::views;
use crate::store::{read_conflicts, MergeOperation, ThreadStatusView};
use crate::store;
use crate::style::{fg, fg_bg, plain, Color, Line, SpanView};
use crate::style;
use crate::text::{
    cat, cat3, i64_text, join, opt_is, pad_right, repeat_text, replace, str_eq, str_or, u64_text,
    usize_text,
};
use crate::text;
use vstd::prelude::*;

verus! {

/// Characters before the text of a detail line.
pub const DETAIL_PREFIX_LEN: usize = 7;

/// Characters of the hint behind the text of a detail line.
pub const HINT_SUFFIX_LEN: usize = 20;

// ── Row parts ────────────────────────────────────────────────────────────────

/// The marker and colour of a thread row.
pub open spec fn row_mark(t: ThreadStatusView) -> (Seq<char>, Color) {
    let ts = t.thread_status@;
    let es = text::opt_text(t.execution_status);
    if ts == "Failed"@ || es == Some("failed"@) || es == Some("crashed"@) {
        (MARKER_FAILED@, FAILURE)
    } else if es == Some("timed_out"@) {
        (MARKER_TIMEOUT@, FAILURE)
    } else if es is Some && views::running_status(es->0) {
        (MARKER_RUNNING@, ACCENT)
    } else if es == Some("completed"@) || ts == "Completed"@ {
        (MARKER_COMPLETED@, SUCCESS_DIM)
    } else {
        (" "@, TEXT_NORMAL)
    }
}

/// The marker and colour of a thread row.
pub fn row_icon(t: &ThreadStatusView) -> (r: (&'static str, Color))
    ensures
        (r.0@, r.1) == row_mark(*t),
{
    let running: bool = match &t.execution_status {
        Some(s) => is_running_exec_status(s.as_str()),
        None => false,
    };
    if str_eq(t.thread_status.as_str(), "Failed") || opt_is(&t.execution_status, "failed")
        || opt_is(&t.execution_status, "crashed") {
        (MARKER_FAILED, FAILURE)
    } else if opt_is(&t.execution_status, "timed_out") {
        (MARKER_TIMEOUT, FAILURE)
    } else if running {
        (MARKER_RUNNING, ACCENT)
    } else if opt_is(&t.execution_status, "completed") || str_eq(
        t.thread_status.as_str(),
        "Completed",
    ) {
        (MARKER_COMPLETED, SUCCESS_DIM)
    } else {
        (" ", TEXT_NORMAL)
    }
}

/// The status text and colour of a thread row. A failed thread says so, even
/// while an execution runs.
pub open spec fn row_status(t: ThreadStatusView) -> (Seq<char>, Color) {
    let es = text::opt_text(t.execution_status);
    if t.thread_status@ == "Failed"@ {
        if es is Some && views::running_status(es->0) {
            ("Failed (running)"@, FAILURE)
        } else {
            ("Failed"@, FAILURE)
        }
    } else {
        match es {
            Some(e) => (views::exec_label(e), crate::dashboard::theme::exec_color(e)),
            None => (t.thread_status@, crate::dashboard::theme::thread_color(t.thread_status@)),
        }
    }
}

/// The status text and colour of a thread row.
pub fn row_status_display(t: &ThreadStatusView) -> (r: (String, Color))
    ensures
        (r.0@, r.1) == row_status(*t),
{
    if str_eq(t.thread_status.as_str(), "Failed") {
        if let Some(es) = &t.execution_status {
            if is_running_exec_status(es.as_str()) {
                return ("Failed (running)".to_owned(), FAILURE);
            }
        }
        return ("Failed".to_owned(), FAILURE);
    }
    match &t.execution_status {
        Some(es) => (
            humanize_exec_status(es.as_str()).to_owned(),
            exec_status_color(es.as_str()),
        ),
        None => (
            t.thread_status.clone(),
            theme::thread_status_color(t.thread_status.as_str()),
        ),
    }
}

/// How long a row's execution runs or ran, or how old the thread is.
pub open spec fn row_time(t: ThreadStatusView, now: i64) -> Seq<char> {
    let es = text::opt_text(t.execution_status);
    if es is Some && views::running_status(es->0) {
        match t.started_at {
            Some(s) => views::duration_text(views::since(now, s) as int),
            None => "-"@,
        }
    } else {
        match t.duration_ms {
            Some(ms) => views::duration_ms_text(ms as int),
            None => views::duration_text(views::since(now, t.thread_updated_at) as int),
        }
    }
}

/// How long a row's execution runs or ran, or how old the thread is.
pub fn row_duration(t: &ThreadStatusView, now_unix: i64) -> (r: String)
    ensures
        r@ == row_time(*t, now_unix),
{
    let running: bool = match &t.execution_status {
        Some(s) => is_running_exec_status(s.as_str()),
        None => false,
    };
    if running {
        match t.started_at {
            Some(s) => format_duration_secs(elapsed(now_unix, s)),
            None => "-".to_owned(),
        }
    } else {
        match t.duration_ms {
            Some(ms) => format_duration_ms(ms),
            None => format_duration_secs(elapsed(now_unix, t.thread_updated_at)),
        }
    }
}

/// The scroll offset that keeps `selected` about the middle of the `visible`
/// rows without leaving the `total` ones.
pub open spec fn scroll_for(selected: int, visible: int, total: int) -> int {
    if visible == 0 || total <= visible || selected <= visible / 2 {
        0
    } else if selected + visible > total {
        total - visible
    } else {
        selected - visible / 2
    }
}

/// The scroll offset for a selection.
pub fn compute_scroll(selected: usize, visible: usize, total: usize) -> (r: usize)
    ensures
        r == scroll_for(selected as int, visible as int, total as int),
{
    if visible == 0 || total <= visible {
        return 0;
    }
    let half: usize = visible / 2;
    if selected <= half {
        0
    } else if selected > total - visible {
        total - visible
    } else {
        selected - half
    }
}

/// The list never scrolls past its end, and a selected row within it stays in
/// sight.
pub proof fn law_scroll_keeps_selection_visible(selected: int, visible: int, total: int)
    requires
        0 <= selected < total,
        0 < visible,
    ensures
        0 <= scroll_for(selected, visible, total) <= total,
        total > visible ==> scroll_for(selected, visible, total) + visible <= total,
        scroll_for(selected, visible, total) <= selected < scroll_for(selected, visible, total)
            + visible,
{
}

/// The worker's health badge.
pub open spec fn health_badge(data: Option<ActivityData>, now: i64) -> (Seq<char>, Color) {
    match data {
        Some(d) => match d.heartbeat {
            Some(hb) => {
                let age = views::since(now, hb.1);
                (
                    " worker beat: "@ + text::dec(age as nat) + "s "@,
                    if age < 30 {
                        SUCCESS
                    } else {
                        FAILURE
                    },
                )
            },
            None => (" worker beat: none "@, TEXT_DIM),
        },
        None => (" "@, TEXT_DIM),
    }
}

/// The worker's health badge.
pub fn compute_health(data: &Option<ActivityData>, now_unix: i64) -> (r: (String, Color))
    ensures
        (r.0@, r.1) == health_badge(*data, now_unix),
{
    match data {
        Some(d) => match &d.heartbeat {
            Some(hb) => {
                let age: i64 = elapsed(now_unix, hb.1);
                let n: String = u64_text(age as u64);
                let color: Color = if age < 30 {
                    SUCCESS
                } else {
                    FAILURE
                };
                (cat3(" worker beat: ", n.as_str(), "s "), color)
            },
            None => (" worker beat: none ".to_owned(), TEXT_DIM),
        },
        None => (" ".to_owned(), TEXT_DIM),
    }
}

/// A time ahead, relative to now.
pub open spec fn relative_future(secs: int) -> Seq<char> {
    let d = secs / 86400;
    let h = secs % 86400 / 3600;
    let m = secs % 3600 / 60;
    let s = secs % 60;
    if secs <= 0 {
        "now"@
    } else if d > 0 {
        "in "@ + text::dec(d as nat) + "d "@ + text::dec(h as nat) + "h"@
    } else if h > 0 {
        "in "@ + text::dec(h as nat) + "h "@ + text::dec(m as nat) + "m"@
    } else if m > 0 {
        "in "@ + text::dec(m as nat) + "m "@ + text::dec(s as nat) + "s"@
    } else {
        "in "@ + text::dec(s as nat) + "s"@
    }
}

fn in_units(a: u64, unit_a: &str, b: u64, unit_b: &str) -> (r: String)
    ensures
        r@ == "in "@ + text::dec(a as nat) + unit_a@ + text::dec(b as nat) + unit_b@,
{
    let mut s: String = "in ".to_owned();
    let x: String = u64_text(a);
    s.append(x.as_str());
    s.append(unit_a);
    let y: String = u64_text(b);
    s.append(y.as_str());
    s.append(unit_b);
    s
}

/// A time ahead, relative to now.
pub fn format_relative_future(secs: i64) -> (r: String)
    ensures
        r@ == relative_future(secs as int),
{
    if secs <= 0 {
        return "now".to_owned();
    }
    let n: u64 = secs as u64;
    let days: u64 = n / 86400;
    let hours: u64 = n % 86400 / 3600;
    let minutes: u64 = n % 3600 / 60;
    let seconds: u64 = n % 60;
    if days > 0 {
        in_units(days, "d ", hours, "h")
    } else if hours > 0 {
        in_units(hours, "h ", minutes, "m")
    } else if minutes > 0 {
        in_units(minutes, "m ", seconds, "s")
    } else {
        let x: String = u64_text(seconds);
        cat3("in ", x.as_str(), "s")
    }
}

// ── Detail lines ─────────────────────────────────────────────────────────────

/// The room for the text of a detail line.
pub open spec fn detail_room(width: nat) -> nat {
    if width >= DETAIL_PREFIX_LEN + HINT_SUFFIX_LEN {
        (width - DETAIL_PREFIX_LEN - HINT_SUFFIX_LEN) as nat
    } else {
        0
    }
}

/// The room for the text of a detail line.
pub fn detail_avail(width: usize) -> (r: usize)
    ensures
        r == detail_room(width as nat),
{
    width.saturating_sub(DETAIL_PREFIX_LEN).saturating_sub(HINT_SUFFIX_LEN)
}

/// `s` cut to `room` characters and filled up to them.
pub open spec fn fitted(s: Seq<char>, room: nat) -> Seq<char> {
    text::padded_right(views::truncated(s, room), room)
}

/// `s` cut to `room` characters and filled up to them.
pub fn fit(s: &str, room: usize) -> (r: String)
    ensures
        r@ == fitted(s@, room as nat),
{
    let t: String = truncate(s, room);
    pad_right(t.as_str(), room)
}

/// A detail line: its text, and behind it the key and what the key does.
pub open spec fn hinted(text: Seq<char>, width: nat, key: Seq<char>, label: Seq<char>) -> Seq<
    SpanView,
> {
    seq![
        style::sp("     └─ "@, plain()),
        style::sp(fitted(text, detail_room(width)), fg(TEXT_DIM)),
        style::sp(" │ "@, fg(BORDER_DIM)),
        style::sp(key, fg(ACCENT)),
        style::sp(label, fg(TEXT_DIM)),
    ]
}

fn hinted_line(text: &str, width: usize, key: &str, label: &str) -> (r: Line)
    ensures
        r@ == hinted(text@, width as nat, key@, label@),
{
    let mut line: Line = Line::new();
    line.put("     └─ ", plain());
    line.put_string(fit(text, detail_avail(width)), fg(TEXT_DIM));
    line.put(" │ ", fg(BORDER_DIM));
    line.put(key, fg(ACCENT));
    line.put(label, fg(TEXT_DIM));
    line
}

/// The summary of a thread, or its parsed intent, or a dash.
pub open spec fn thread_detail_text(t: ThreadStatusView) -> Seq<char> {
    text::text_or(t.summary, text::text_or(t.parsed_intent, "-"@))
}

/// The detail line of a thread.
pub open spec fn thread_detail(t: ThreadStatusView, width: nat) -> Seq<SpanView> {
    hinted(thread_detail_text(t), width, "[c]"@, " conversation"@)
}

/// The detail line of a thread.
pub fn make_thread_detail_line(row: &ThreadStatusView, list_width: usize) -> (r: Line)
    ensures
        r@ == thread_detail(*row, list_width as nat),
{
    let text: &str = str_or(&row.summary, str_or(&row.parsed_intent, "-"));
    hinted_line(text, list_width, "[c]", " conversation")
}

/// The line under a running thread: its progress, and the hint where it is selected.
pub open spec fn progress_line(summary: Seq<char>, selected: bool, width: nat) -> Seq<SpanView> {
    let room = detail_room(width);
    if selected {
        seq![
            style::sp("     └ "@, plain()),
            style::sp(fitted(summary, room), fg(TEXT_DIM)),
            style::sp(" │ "@, fg(BORDER_DIM)),
            style::sp("[c]"@, fg(ACCENT)),
            style::sp(" conversation"@, fg(TEXT_DIM)),
        ]
    } else {
        seq![style::sp("     └ "@, plain()), style::sp(views::truncated(summary, room), fg(TEXT_DIM))]
    }
}

/// The line under a running thread.
pub fn make_progress_line(summary: &str, is_selected: bool, list_width: usize) -> (r: Line)
    ensures
        r@ == progress_line(summary@, is_selected, list_width as nat),
{
    let room: usize = detail_avail(list_width);
    let mut line: Line = Line::new();
    line.put("     └ ", plain());
    if is_selected {
        line.put_string(fit(summary, room), fg(TEXT_DIM));
        line.put(" │ ", fg(BORDER_DIM));
        line.put("[c]", fg(ACCENT));
        line.put(" conversation", fg(TEXT_DIM));
    } else {
        line.put_string(truncate(summary, room), fg(TEXT_DIM));
    }
    line
}

/// When a scheduled execution is due, and the thread's summary.
pub open spec fn scheduled_text(t: ThreadStatusView, now: i64) -> Seq<char> {
    let due = match t.eligible_at {
        Some(at) => "due "@ + relative_future(views::since(at, now) as int),
        None => "scheduled"@,
    };
    match t.summary {
        Some(s) => due + " — "@ + s@,
        None => due,
    }
}

/// The detail line of a scheduled thread.
pub fn make_scheduled_detail_line(row: &ThreadStatusView, now_unix: i64, list_width: usize) -> (r:
    Line)
    ensures
        r@ == hinted(
            scheduled_text(*row, now_unix),
            list_width as nat,
            "[c]"@,
            " conversation"@,
        ),
{
    let due: String = match row.eligible_at {
        Some(at) => {
            let t: String = format_relative_future(elapsed(at, now_unix));
            cat("due ", t.as_str())
        },
        None => "scheduled".to_owned(),
    };
    let text: String = match &row.summary {
        Some(s) => cat3(due.as_str(), " — ", s.as_str()),
        None => due,
    };
    hinted_line(text.as_str(), list_width, "[c]", " conversation")
}

/// The detail line of a batch.
pub open spec fn batch_detail(b: BatchView) -> Seq<SpanView> {
    seq![
        style::sp("     └─ "@, plain()),
        style::sp(text::dec(b.active), fg(ACCENT)),
        style::sp(" active"@, fg(TEXT_DIM)),
        style::sp(" · "@, fg(BORDER_DIM)),
        style::sp(text::dec(b.completed), fg(SUCCESS_DIM)),
        style::sp(" done"@, fg(TEXT_DIM)),
        style::sp(" · "@, fg(BORDER_DIM)),
        style::sp(text::dec(b.failed), fg(FAILURE)),
        style::sp(" fail"@, fg(TEXT_DIM)),
        style::sp(" │ "@, fg(BORDER_DIM)),
        style::sp("[Enter]"@, fg(ACCENT)),
        style::sp(" drill"@, fg(TEXT_DIM)),
    ]
}

/// The detail line of a batch.
pub fn make_batch_detail_line(batch: &BatchProgress) -> (r: Line)
    ensures
        r@ == batch_detail(batch@),
{
    let mut line: Line = Line::new();
    line.put("     └─ ", plain());
    line.put_string(usize_text(batch.active), fg(ACCENT));
    line.put(" active", fg(TEXT_DIM));
    line.put(" · ", fg(BORDER_DIM));
    line.put_string(usize_text(batch.completed), fg(SUCCESS_DIM));
    line.put(" done", fg(TEXT_DIM));
    line.put(" · ", fg(BORDER_DIM));
    line.put_string(usize_text(batch.failed), fg(FAILURE));
    line.put(" fail", fg(TEXT_DIM));
    line.put(" │ ", fg(BORDER_DIM));
    line.put("[Enter]", fg(ACCENT));
    line.put(" drill", fg(TEXT_DIM));
    line
}

// ── Thread and batch lines ───────────────────────────────────────────────────

/// The background of a row.
pub open spec fn row_bg(selected: bool) -> Color {
    if selected {
        BG_HIGHLIGHT
    } else {
        BG_PRIMARY
    }
}

fn bg_of(selected: bool) -> (r: Color)
    ensures
        r == row_bg(selected),
{
    if selected {
        BG_HIGHLIGHT
    } else {
        BG_PRIMARY
    }
}

/// The width of the summary column: what the fixed columns leave, between 10 and 60.
pub open spec fn summary_width(width: nat) -> nat {
    let fixed: nat = if width >= 100 {
        75
    } else {
        48
    };
    if width < fixed + 10 {
        10
    } else if width > fixed + 60 {
        60
    } else {
        (width - fixed) as nat
    }
}

/// The line of a thread: marker, id, status, agent, summary, batch on wide
/// screens, and time.
pub open spec fn thread_line(t: ThreadStatusView, selected: bool, now: i64, width: nat) -> Seq<
    SpanView,
> {
    let wide = width >= 100;
    let bg = row_bg(selected);
    let mark = row_mark(t);
    let status = row_status(t);
    let room = summary_width(width);
    let head = seq![
        style::sp(" "@ + mark.0 + " "@, fg_bg(mark.1, bg)),
        style::sp(
            if wide {
                text::padded_right(views::truncated_left(t.thread_id@, 8), 10)
            } else {
                text::padded_right(views::truncated_left(t.thread_id@, 6), 8)
            },
            fg_bg(TEXT_BRIGHT, bg).bold_if(selected),
        ),
        style::sp(
            text::padded_right(
                status.0,
                if wide {
                    16
                } else {
                    12
                },
            ),
            fg_bg(status.1, bg).bold_if(selected),
        ),
        style::sp(
            if wide {
                text::padded_right(views::truncated(text::text_or(t.agent_alias, "-"@), 16), 18)
            } else {
                text::padded_right(views::truncated(text::text_or(t.agent_alias, "-"@), 12), 14)
            },
            fg_bg(TEXT_NORMAL, bg).bold_if(selected),
        ),
        style::sp(" │ "@, fg_bg(BORDER_DIM, bg)),
        style::sp(
            text::padded_right(views::truncated(text::text_or(t.summary, "-"@), (room - 2) as nat), room),
            fg_bg(TEXT_NORMAL, bg).bold_if(selected),
        ),
    ];
    let body = if wide {
        let batch = match t.batch_id {
            Some(b) => views::truncated(b@, 12),
            None => "-"@,
        };
        head.push(style::sp(" │ "@, fg_bg(BORDER_DIM, bg))).push(
            style::sp(text::padded_right(batch, 14), fg_bg(TEXT_DIM, bg).bold_if(selected)),
        )
    } else {
        head
    };
    body.push(style::sp(text::padded_right(row_time(t, now), 8), fg_bg(TEXT_DIM, bg).bold_if(selected)))
}

/// The line of a thread.
pub fn make_thread_line(t: &ThreadStatusView, is_selected: bool, now_unix: i64, width: usize) -> (r:
    Line)
    ensures
        r@ == thread_line(*t, is_selected, now_unix, width as nat),
{
    let wide: bool = width >= 100;
    let bg: Color = bg_of(is_selected);
    let mut line: Line = Line::new();
    let (icon, icon_color): (&'static str, Color) = row_icon(t);
    line.put_string(cat3(" ", icon, " "), fg_bg(icon_color, bg));
    let id: String = if wide {
        pad_right(truncate_left(t.thread_id.as_str(), 8).as_str(), 10)
    } else {
        pad_right(truncate_left(t.thread_id.as_str(), 6).as_str(), 8)
    };
    line.put_string(id, fg_bg(TEXT_BRIGHT, bg).bold_if(is_selected));
    let (status_text, status_color): (String, Color) = row_status_display(t);
    let status_width: usize = if wide {
        16
    } else {
        12
    };
    line.put_string(
        pad_right(status_text.as_str(), status_width),
        fg_bg(status_color, bg).bold_if(is_selected),
    );
    let agent: String = if wide {
        pad_right(truncate(str_or(&t.agent_alias, "-"), 16).as_str(), 18)
    } else {
        pad_right(truncate(str_or(&t.agent_alias, "-"), 12).as_str(), 14)
    };
    line.put_string(agent, fg_bg(TEXT_NORMAL, bg).bold_if(is_selected));
    line.put(" │ ", fg_bg(BORDER_DIM, bg));
    let fixed: usize = if wide {
        75
    } else {
        48
    };
    let left: usize = width.saturating_sub(fixed);
    let room: usize = if left < 10 {
        10
    } else if left > 60 {
        60
    } else {
        left
    };
    line.put_string(
        pad_right(truncate(str_or(&t.summary, "-"), room - 2).as_str(), room),
        fg_bg(TEXT_NORMAL, bg).bold_if(is_selected),
    );
    if wide {
        line.put(" │ ", fg_bg(BORDER_DIM, bg));
        let batch: String = match &t.batch_id {
            Some(b) => truncate(b.as_str(), 12),
            None => "-".to_owned(),
        };
        line.put_string(pad_right(batch.as_str(), 14), fg_bg(TEXT_DIM, bg).bold_if(is_selected));
    }
    let time: String = row_duration(t, now_unix);
    line.put_string(pad_right(time.as_str(), 8), fg_bg(TEXT_DIM, bg).bold_if(is_selected));
    line
}

/// How much of a bar of `len` segments is filled.
pub open spec fn bar_fill(completed: nat, total: nat, len: nat) -> nat {
    if total == 0 {
        0
    } else if completed * len / total > len {
        len
    } else {
        completed * len / total
    }
}

/// The colour of a batch's bar: done, with failures, or under way.
pub open spec fn bar_color(b: BatchView) -> Color {
    if b.completed == b.total && b.total > 0 {
        SUCCESS
    } else if b.failed > 0 {
        FAILURE
    } else {
        ACCENT
    }
}

/// How old a batch is: since its oldest active update, or its latest one.
pub open spec fn batch_age(b: BatchView, now: i64) -> Seq<char> {
    match b.oldest_active_updated_at {
        Some(t) => views::duration_text(views::since(now, t) as int),
        None => views::duration_text(views::since(now, b.latest_updated_at) as int),
    }
}

/// The counts that are not zero, with dots between them.
pub open spec fn batch_stats(b: BatchView, bg: Color) -> Seq<SpanView> {
    let a = if b.active > 0 {
        seq![style::sp(text::dec(b.active), fg_bg(ACCENT, bg)), style::sp(" active"@, fg_bg(TEXT_DIM, bg))]
    } else {
        seq![]
    };
    let d = if b.completed > 0 {
        (if a.len() > 0 {
            a.push(style::sp(" · "@, fg_bg(BORDER_DIM, bg)))
        } else {
            a
        }).push(style::sp(text::dec(b.completed), fg_bg(SUCCESS_DIM, bg))).push(
            style::sp(" done"@, fg_bg(TEXT_DIM, bg)),
        )
    } else {
        a
    };
    if b.failed > 0 {
        (if d.len() > 0 {
            d.push(style::sp(" · "@, fg_bg(BORDER_DIM, bg)))
        } else {
            d
        }).push(style::sp(text::dec(b.failed), fg_bg(FAILURE, bg))).push(style::sp(" fail"@, fg_bg(TEXT_DIM, bg)))
    } else {
        d
    }
}

/// The line of a batch: marker, id, progress, bar, counts on wide screens, and age.
pub open spec fn batch_line(
    b: BatchView,
    selected: bool,
    now: i64,
    marker: Seq<char>,
    marker_color: Color,
    width: nat,
) -> Seq<SpanView> {
    let wide = width >= 100;
    let bg = row_bg(selected);
    let len: nat = if wide {
        10
    } else {
        6
    };
    let fill = bar_fill(b.completed, b.total, len);
    let head = seq![
        style::sp(" "@ + marker + " "@, fg_bg(marker_color, bg)),
        style::sp(
            if wide {
                text::padded_right(views::truncated(b.batch_id, 16), 18)
            } else {
                text::padded_right(views::truncated(b.batch_id, 12), 14)
            },
            fg_bg(TEXT_BRIGHT, bg).bold_if(selected),
        ),
        style::sp(
            text::padded_right(
                text::dec(b.completed) + "/"@ + text::dec(b.total),
                if wide {
                    9
                } else {
                    7
                },
            ),
            fg_bg(TEXT_NORMAL, bg).bold_if(selected),
        ),
        style::sp(text::repeated(BATCH_PROGRESS_FILLED@, fill), fg_bg(bar_color(b), bg).bold_if(selected)),
        style::sp(
            text::padded_right(
                text::repeated(BATCH_PROGRESS_EMPTY@, (len - fill) as nat),
                (len + 2 - fill) as nat,
            ),
            fg_bg(TEXT_DIM, bg).bold_if(selected),
        ),
    ];
    let body = if wide {
        head + batch_stats(b, bg)
    } else {
        head
    };
    body.push(style::sp("  age "@ + batch_age(b, now), fg_bg(TEXT_DIM, bg)))
}

fn fill_of(completed: usize, total: usize, len: usize) -> (r: usize)
    requires
        len <= 10,
    ensures
        r == bar_fill(completed as nat, total as nat, len as nat),
        r <= len,
{
    if total == 0 {
        return 0;
    }
    assert(completed * len <= completed * 10) by (nonlinear_arith)
        requires
            len <= 10,
    ;
    let q: u128 = completed as u128 * len as u128 / total as u128;
    if q > len as u128 {
        len
    } else {
        q as usize
    }
}

fn stats_of(batch: &BatchProgress, bg: Color) -> (r: Line)
    ensures
        r@ == batch_stats(batch@, bg),
{
    let mut line: Line = Line::new();
    if batch.active > 0 {
        line.put_string(usize_text(batch.active), fg_bg(ACCENT, bg));
        line.put(" active", fg_bg(TEXT_DIM, bg));
    }
    if batch.completed > 0 {
        if batch.active > 0 {
            line.put(" · ", fg_bg(BORDER_DIM, bg));
        }
        line.put_string(usize_text(batch.completed), fg_bg(SUCCESS_DIM, bg));
        line.put(" done", fg_bg(TEXT_DIM, bg));
    }
    if batch.failed > 0 {
        if batch.active > 0 || batch.completed > 0 {
            line.put(" · ", fg_bg(BORDER_DIM, bg));
        }
        line.put_string(usize_text(batch.failed), fg_bg(FAILURE, bg));
        line.put(" fail", fg_bg(TEXT_DIM, bg));
    }
    line
}

/// The line of a batch.
pub fn make_batch_line(
    batch: &BatchProgress,
    is_selected: bool,
    now_unix: i64,
    marker: &str,
    marker_color: Color,
    width: usize,
) -> (r: Line)
    ensures
        r@ == batch_line(batch@, is_selected, now_unix, marker@, marker_color, width as nat),
{
    let wide: bool = width >= 100;
    let bg: Color = bg_of(is_selected);
    let len: usize = if wide {
        10
    } else {
        6
    };
    let fill: usize = fill_of(batch.completed, batch.total, len);
    let color: Color = if batch.completed == batch.total && batch.total > 0 {
        SUCCESS
    } else if batch.failed > 0 {
        FAILURE
    } else {
        ACCENT
    };
    let mut line: Line = Line::new();
    line.put_string(cat3(" ", marker, " "), fg_bg(marker_color, bg));
    let id: String = if wide {
        pad_right(truncate(batch.batch_id.as_str(), 16).as_str(), 18)
    } else {
        pad_right(truncate(batch.batch_id.as_str(), 12).as_str(), 14)
    };
    line.put_string(id, fg_bg(TEXT_BRIGHT, bg).bold_if(is_selected));
    let done: String = usize_text(batch.completed);
    let all: String = usize_text(batch.total);
    let progress: String = cat3(done.as_str(), "/", all.as_str());
    let progress_width: usize = if wide {
        9
    } else {
        7
    };
    line.put_string(
        pad_right(progress.as_str(), progress_width),
        fg_bg(TEXT_NORMAL, bg).bold_if(is_selected),
    );
    line.put_string(
        repeat_text(BATCH_PROGRESS_FILLED, fill),
        fg_bg(color, bg).bold_if(is_selected),
    );
    let empty: String = repeat_text(BATCH_PROGRESS_EMPTY, len - fill);
    line.put_string(
        pad_right(empty.as_str(), len + 2 - fill),
        fg_bg(TEXT_DIM, bg).bold_if(is_selected),
    );
    if wide {
        line.extend(stats_of(batch, bg));
    }
    let age: String = match batch.oldest_active_updated_at {
        Some(t) => format_duration_secs(elapsed(now_unix, t)),
        None => format_duration_secs(elapsed(now_unix, batch.latest_updated_at)),
    };
    line.put_string(cat("  age ", age.as_str()), fg_bg(TEXT_DIM, bg));
    line
}

// ── Merge lines ──────────────────────────────────────────────────────────────

/// The marker and colour of a merge status.
pub open spec fn merge_mark(status: Seq<char>) -> (Seq<char>, Color) {
    if status == "executing"@ || status == "claimed"@ {
        (MARKER_RUNNING@, ACCENT)
    } else if status == "queued"@ {
        (MARKER_QUEUED@, WARNING)
    } else if status == "completed"@ {
        (MARKER_COMPLETED@, SUCCESS_DIM)
    } else if status == "failed"@ {
        (MARKER_FAILED@, FAILURE)
    } else if status == "cancelled"@ {
        (" "@, TEXT_DIM)
    } else {
        (" "@, TEXT_NORMAL)
    }
}

/// The marker and colour of a merge status.
pub fn merge_op_icon(status: &str) -> (r: (&'static str, Color))
    ensures
        (r.0@, r.1) == merge_mark(status@),
{
    if str_eq(status, "executing") || str_eq(status, "claimed") {
        (MARKER_RUNNING, ACCENT)
    } else if str_eq(status, "queued") {
        (MARKER_QUEUED, WARNING)
    } else if str_eq(status, "completed") {
        (MARKER_COMPLETED, SUCCESS_DIM)
    } else if str_eq(status, "failed") {
        (MARKER_FAILED, FAILURE)
    } else if str_eq(status, "cancelled") {
        (" ", TEXT_DIM)
    } else {
        (" ", TEXT_NORMAL)
    }
}

/// The label of a merge status; unknown values stand as they are.
pub open spec fn merge_label(status: Seq<char>) -> Seq<char> {
    if status == "queued"@ {
        "Queued"@
    } else if status == "claimed"@ {
        "Claimed"@
    } else if status == "executing"@ {
        "Executing"@
    } else if status == "completed"@ {
        "Completed"@
    } else if status == "failed"@ {
        "Failed"@
    } else if status == "cancelled"@ {
        "Cancelled"@
    } else {
        status
    }
}

fn merge_status_text(status: &str) -> (r: &str)
    ensures
        r@ == merge_label(status@),
{
    if str_eq(status, "queued") {
        "Queued"
    } else if str_eq(status, "claimed") {
        "Claimed"
    } else if str_eq(status, "executing") {
        "Executing"
    } else if str_eq(status, "completed") {
        "Completed"
    } else if str_eq(status, "failed") {
        "Failed"
    } else if str_eq(status, "cancelled") {
        "Cancelled"
    } else {
        status
    }
}

/// How long a merge took, or has been running.
pub open spec fn merge_time(op: MergeOperation, now: i64) -> Seq<char> {
    match op.duration_ms {
        Some(ms) => views::duration_ms_text(ms as int),
        None => if op.status@ == "executing"@ || op.status@ == "claimed"@ {
            let started = match op.started_at {
                Some(t) => t,
                None => op.queued_at,
            };
            views::duration_text(views::since(now, started) as int)
        } else {
            "-"@
        },
    }
}

/// The line of a merge: marker, branches, status, strategy on wide screens, and time.
pub open spec fn merge_line(op: MergeOperation, selected: bool, now: i64, width: nat) -> Seq<
    SpanView,
> {
    let wide = width >= 100;
    let bg = row_bg(selected);
    let mark = merge_mark(op.status@);
    let arrow = if wide {
        text::padded_right(
            views::truncated(op.source_branch@, 25) + " → "@ + views::truncated(op.target_branch@, 25),
            54,
        )
    } else {
        text::padded_right(
            views::truncated(text::replaced(op.source_branch@, "compas/"@, "c/"@), 15) + " → "@ + views::truncated(
                op.target_branch@,
                15,
            ),
            34,
        )
    };
    let head = seq![
        style::sp(" "@ + mark.0 + " "@, fg_bg(mark.1, bg)),
        style::sp(arrow, fg_bg(TEXT_BRIGHT, bg).bold_if(selected)),
        style::sp(
            text::padded_right(merge_label(op.status@), 12),
            fg_bg(crate::dashboard::theme::exec_color(op.status@), bg).bold_if(selected),
        ),
    ];
    let body = if wide {
        head.push(
            style::sp(
                text::padded_right("["@ + op.merge_strategy@ + "]"@, 10),
                fg_bg(TEXT_DIM, bg).bold_if(selected),
            ),
        )
    } else {
        head
    };
    body.push(style::sp(text::padded_right(merge_time(op, now), 8), fg_bg(TEXT_DIM, bg).bold_if(selected)))
}

/// The line of a merge.
pub fn make_merge_op_line(op: &MergeOperation, is_selected: bool, now_unix: i64, width: usize) -> (r:
    Line)
    ensures
        r@ == merge_line(*op, is_selected, now_unix, width as nat),
{
    let wide: bool = width >= 100;
    let bg: Color = bg_of(is_selected);
    let status: &str = op.status.as_str();
    let mut line: Line = Line::new();
    let (icon, icon_color): (&'static str, Color) = merge_op_icon(status);
    line.put_string(cat3(" ", icon, " "), fg_bg(icon_color, bg));
    let arrow: String = if wide {
        let from: String = truncate(op.source_branch.as_str(), 25);
        let to: String = truncate(op.target_branch.as_str(), 25);
        pad_right(cat3(from.as_str(), " → ", to.as_str()).as_str(), 54)
    } else {
        proof {
            reveal_strlit("compas/");
        }
        let short: String = replace(op.source_branch.as_str(), "compas/", "c/");
        let from: String = truncate(short.as_str(), 15);
        let to: String = truncate(op.target_branch.as_str(), 15);
        pad_right(cat3(from.as_str(), " → ", to.as_str()).as_str(), 34)
    };
    line.put_string(arrow, fg_bg(TEXT_BRIGHT, bg).bold_if(is_selected));
    line.put_string(
        pad_right(merge_status_text(status), 12),
        fg_bg(exec_status_color(status), bg).bold_if(is_selected),
    );
    if wide {
        let strategy: String = cat3("[", op.merge_strategy.as_str(), "]");
        line.put_string(
            pad_right(strategy.as_str(), 10),
            fg_bg(TEXT_DIM, bg).bold_if(is_selected),
        );
    }
    let time: String = match op.duration_ms {
        Some(ms) => format_duration_ms(ms),
        None => if str_eq(status, "executing") || str_eq(status, "claimed") {
            let started: i64 = match op.started_at {
                Some(t) => t,
                None => op.queued_at,
            };
            format_duration_secs(elapsed(now_unix, started))
        } else {
            "-".to_owned()
        },
    };
    line.put_string(pad_right(time.as_str(), 8), fg_bg(TEXT_DIM, bg).bold_if(is_selected));
    line
}

/// The detail text of a merge, given what its conflict list reads as: a failed
/// merge shows its conflicts, or else its error; any other shows its ids.
pub open spec fn merge_detail_text(op: MergeOperation, conflicts: Option<Seq<Seq<char>>>) -> Seq<
    char,
> {
    if op.status@ == "failed"@ {
        match conflicts {
            Some(files) if files.len() > 0 => text::dec(files.len()) + " conflicts: "@ + text::joined(
                files,
                ", "@,
            ),
            _ => text::text_or(op.error_detail, "failed"@),
        }
    } else {
        "op:"@ + views::truncated_left(op.id@, 7) + "  thread:"@ + views::truncated_left(op.thread_id@, 7)
            + "  by:"@ + op.requested_by@
    }
}

/// The detail text of a merge, given what its conflict list reads as.
pub fn merge_detail(op: &MergeOperation, conflicts: &Option<Vec<String>>) -> (r: String)
    ensures
        r@ == merge_detail_text(
            *op,
            text::opt_texts(*conflicts),
        ),
{
    if str_eq(op.status.as_str(), "failed") {
        if let Some(files) = conflicts {
            if files.len() > 0 {
                let n: String = usize_text(files.len());
                let list: String = join(files, ", ");
                return cat3(n.as_str(), " conflicts: ", list.as_str());
            }
        }
        str_or(&op.error_detail, "failed").to_owned()
    } else {
        let mut s: String = "op:".to_owned();
        let id: String = truncate_left(op.id.as_str(), 7);
        s.append(id.as_str());
        s.append("  thread:");
        let thread: String = truncate_left(op.thread_id.as_str(), 7);
        s.append(thread.as_str());
        s.append("  by:");
        s.append(op.requested_by.as_str());
        s
    }
}

/// The detail line of a merge.
pub open spec fn merge_detail_line(op: MergeOperation, width: nat) -> Seq<SpanView> {
    hinted(merge_detail_text(op, store::conflicts_of(op)), width, "[Enter]"@, " thread"@)
}

/// The detail line of a merge.
pub fn make_merge_op_detail_line(op: &MergeOperation, list_width: usize) -> (r: Line)
    ensures
        r@ == merge_detail_line(*op, list_width as nat),
{
    let conflicts: Option<Vec<String>> = read_conflicts(op);
    let text: String = merge_detail(op, &conflicts);
    hinted_line(text.as_str(), list_width, "[Enter]", " thread")
}

// ── Footer ───────────────────────────────────────────────────────────────────

/// How many merges of `ops` run, and how many wait.
pub open spec fn merge_counts(ops: Seq<MergeOperation>) -> (nat, nat)
    decreases ops.len(),
{
    if ops.len() == 0 {
        (0, 0)
    } else {
        let (e, q) = merge_counts(ops.drop_last());
        let s = ops.last().status@;
        (
            e + if s == "executing"@ || s == "claimed"@ { 1nat } else { 0nat },
            q + if s == "queued"@ { 1nat } else { 0nat },
        )
    }
}

fn count_merges(ops: &Vec<MergeOperation>) -> (r: (usize, usize))
    ensures
        (r.0 as nat, r.1 as nat) == merge_counts(ops@),
{
    let mut e: usize = 0;
    let mut q: usize = 0;
    let mut i: usize = 0;
    while i < ops.len()
        invariant
            i <= ops@.len(),
            e <= i,
            q <= i,
            (e as nat, q as nat) == merge_counts(ops@.take(i as int)),
        decreases ops@.len() - i,
    {
        assert(ops@.take(i + 1).drop_last() =~= ops@.take(i as int));
        assert(ops@.take(i + 1).last() == ops@[i as int]);
        let s: &str = ops[i].status.as_str();
        if str_eq(s, "executing") || str_eq(s, "claimed") {
            e += 1;
        }
        if str_eq(s, "queued") {
            q += 1;
        }
        i += 1;
    }
    assert(ops@.take(i as int) =~= ops@);
    (e, q)
}

/// The counts of the footer; scheduled executions, merges and costs only where
/// there are any.
pub open spec fn footer_line(data: ActivityData, now: i64, stale_after: i64) -> Seq<SpanView> {
    let (active, failed, completed, stale, scheduled) = activity::footer_of(data, now, stale_after);
    let base = seq![
        style::sp(" "@, plain()),
        style::sp("Active: "@, fg(ACCENT)),
        style::sp(text::dec_int(active as int) + "  "@, fg(TEXT_BRIGHT)),
        style::sp("Stale: "@, fg(TEXT_DIM)),
        style::sp(text::dec_int(stale as int) + "  "@, fg(TEXT_BRIGHT)),
        style::sp("Failed: "@, fg(FAILURE)),
        style::sp(text::dec_int(failed as int) + "  "@, fg(TEXT_BRIGHT)),
        style::sp("Completed: "@, fg(SUCCESS_DIM)),
        style::sp(text::dec_int(completed as int) + "  "@, fg(TEXT_BRIGHT)),
        style::sp("Pending: "@, fg(TEXT_MUTED)),
        style::sp(text::dec_int(data.queue_depth as int), fg(TEXT_BRIGHT)),
    ];
    let with_scheduled = if scheduled > 0 {
        base.push(style::sp("  "@, fg(TEXT_BRIGHT))).push(style::sp("Sched: "@, fg(TEXT_MUTED))).push(
            style::sp(text::dec_int(scheduled as int), fg(TEXT_BRIGHT)),
        )
    } else {
        base
    };
    let m = merge_counts(data.merge_ops@);
    let with_merges = if m.0 + m.1 > 0 {
        let l = with_scheduled.push(style::sp("  │  "@, fg(BORDER_DIM))).push(
            style::sp("Merges: "@, fg(TEXT_MUTED)),
        );
        let l = if m.0 > 0 {
            l.push(style::sp(text::dec(m.0) + "▸"@, fg(ACCENT)))
        } else {
            l
        };
        if m.1 > 0 {
            (if m.0 > 0 {
                l.push(style::sp(" "@, fg(TEXT_BRIGHT)))
            } else {
                l
            }).push(style::sp(text::dec(m.1) + "◌"@, fg(WARNING)))
        } else {
            l
        }
    } else {
        with_scheduled
    };
    match data.cost_summary {
        Some(c) if c.has_cost || c.total_tokens_in > 0 => with_merges.push(
            style::sp("  │  "@, fg(BORDER_DIM)),
        ).push(style::sp("Cost: "@, fg(TEXT_MUTED))).push(style::sp(c.cost_text@, fg(TEXT_BRIGHT))).push(
            style::sp("  "@, fg(TEXT_BRIGHT)),
        ).push(style::sp("Tok: "@, fg(TEXT_MUTED))).push(
            style::sp(
                views::tokens_text(c.total_tokens_in as int) + "/"@ + views::tokens_text(
                    c.total_tokens_out as int,
                ),
                fg(TEXT_BRIGHT),
            ),
        ),
        _ => with_merges,
    }
}

fn put_count(line: &mut Line, n: i64)
    ensures
        final(line)@ == old(line)@.push(style::sp(text::dec_int(n as int) + "  "@, fg(TEXT_BRIGHT))),
{
    let t: String = i64_text(n);
    line.put_string(cat(t.as_str(), "  "), fg(TEXT_BRIGHT));
}

/// The counts of the footer.
pub fn build_footer_line(data: &ActivityData, now_unix: i64, stale_after_secs: i64) -> (r: Line)
    ensures
        r@ == footer_line(*data, now_unix, stale_after_secs),
{
    let (active, failed, completed, stale, scheduled): (i64, i64, i64, i64, i64) = footer_counts(
        data,
        now_unix,
        stale_after_secs,
    );
    let mut line: Line = Line::new();
    line.put(" ", plain());
    line.put("Active: ", fg(ACCENT));
    put_count(&mut line, active);
    line.put("Stale: ", fg(TEXT_DIM));
    put_count(&mut line, stale);
    line.put("Failed: ", fg(FAILURE));
    put_count(&mut line, failed);
    line.put("Completed: ", fg(SUCCESS_DIM));
    put_count(&mut line, completed);
    line.put("Pending: ", fg(TEXT_MUTED));
    line.put_string(i64_text(data.queue_depth), fg(TEXT_BRIGHT));
    if scheduled > 0 {
        line.put("  ", fg(TEXT_BRIGHT));
        line.put("Sched: ", fg(TEXT_MUTED));
        line.put_string(i64_text(scheduled), fg(TEXT_BRIGHT));
    }
    let (executing, queued): (usize, usize) = count_merges(&data.merge_ops);
    if executing > 0 || queued > 0 {
        line.put("  │  ", fg(BORDER_DIM));
        line.put("Merges: ", fg(TEXT_MUTED));
        if executing > 0 {
            let n: String = usize_text(executing);
            line.put_string(cat(n.as_str(), "▸"), fg(ACCENT));
        }
        if queued > 0 {
            if executing > 0 {
                line.put(" ", fg(TEXT_BRIGHT));
            }
            let n: String = usize_text(queued);
            line.put_string(cat(n.as_str(), "◌"), fg(WARNING));
        }
    }
    if let Some(cost) = &data.cost_summary {
        if cost.has_cost || cost.total_tokens_in > 0 {
            line.put("  │  ", fg(BORDER_DIM));
            line.put("Cost: ", fg(TEXT_MUTED));
            line.put(cost.cost_text.as_str(), fg(TEXT_BRIGHT));
            line.put("  ", fg(TEXT_BRIGHT));
            line.put("Tok: ", fg(TEXT_MUTED));
            let a: String = format_tokens(cost.total_tokens_in);
            let b: String = format_tokens(cost.total_tokens_out);
            line.put_string(cat3(a.as_str(), "/", b.as_str()), fg(TEXT_BRIGHT));
        }
    }
    line
}

// ── Laws ─────────────────────────────────────────────────────────────────────

/// The mark of a thread: failed where it or its execution failed, else by what
/// its execution does.
pub proof fn law_marks_of_threads(t: ThreadStatusView, s: String)
    requires
        t.execution_status == Some(s),
    ensures
        s@ == "failed"@ || s@ == "crashed"@ || t.thread_status@ == "Failed"@ ==> row_mark(t) == (
            "✗"@,
            FAILURE,
        ),
        t.thread_status@ != "Failed"@ ==> {
            &&& s@ == "timed_out"@ ==> row_mark(t) == ("⏱"@, FAILURE)
            &&& s@ == "queued"@ || s@ == "picked_up"@ || s@ == "executing"@ ==> row_mark(t) == (
                "▸"@,
                ACCENT,
            )
            &&& s@ == "completed"@ ==> row_mark(t) == ("✓"@, SUCCESS_DIM)
            &&& s@ == "cancelled"@ && t.thread_status@ == "Completed"@ ==> row_mark(t) == (
                "✓"@,
                SUCCESS_DIM,
            )
            &&& s@ == "cancelled"@ && t.thread_status@ == "Active"@ ==> row_mark(t) == (
                " "@,
                TEXT_NORMAL,
            )
        },
{
    views::lemma_states_apart();
}

/// The state that is told of a thread: that it failed, even while something still
/// runs, else that of its execution, else its own.
pub proof fn law_states_of_threads(t: ThreadStatusView, s: String)
    ensures
        t.thread_status@ == "Failed"@ && t.execution_status is None ==> row_status(t) == (
            "Failed"@,
            FAILURE,
        ),
        t.thread_status@ == "Failed"@ && t.execution_status == Some(s) && (s@ == "queued"@ || s@
            == "picked_up"@ || s@ == "executing"@) ==> row_status(t) == (
            "Failed (running)"@,
            FAILURE,
        ),
        t.thread_status@ == "Failed"@ && t.execution_status == Some(s) && s@ == "completed"@
            ==> row_status(t) == ("Failed"@, FAILURE),
        t.thread_status@ != "Failed"@ && t.execution_status == Some(s) ==> row_status(t) == (
            views::exec_label(s@),
            crate::dashboard::theme::exec_color(s@),
        ),
        t.thread_status@ != "Failed"@ && t.execution_status is None ==> row_status(t) == (
            t.thread_status@,
            crate::dashboard::theme::thread_color(t.thread_status@),
        ),
{
    views::lemma_states_apart();
}

/// The time that is told of a thread: since its execution started while it runs,
/// else how long that took, else since the thread last changed.
pub proof fn law_times_of_threads(t: ThreadStatusView, s: String, now: i64)
    requires
        t.execution_status == Some(s),
    ensures
        s@ == "queued"@ || s@ == "picked_up"@ || s@ == "executing"@ ==> {
            &&& t.started_at matches Some(at) ==> row_time(t, now) == views::duration_text(
                views::since(now, at) as int,
            )
            &&& t.started_at is None ==> row_time(t, now) == "-"@
        },
        s@ == "completed"@ || s@ == "failed"@ || s@ == "cancelled"@ ==> {
            &&& t.duration_ms matches Some(ms) ==> row_time(t, now) == views::duration_ms_text(
                ms as int,
            )
            &&& t.duration_ms is None ==> row_time(t, now) == views::duration_text(
                views::since(now, t.thread_updated_at) as int,
            )
        },
{
    views::lemma_states_apart();
}

/// What is told of the worker: the seconds since its last beat, as a failure from
/// thirty on.
pub proof fn law_worker_beats(
    d: ActivityData,
    id: String,
    beat: i64,
    start: i64,
    version: Option<String>,
    now: i64,
)
    requires
        0 <= beat <= now,
    ensures
        d.heartbeat == Some((id, beat, start, version)) ==> health_badge(Some(d), now) == (
            " worker beat: "@ + text::dec((now - beat) as nat) + "s "@,
            if now - beat < 30 {
                SUCCESS
            } else {
                FAILURE
            },
        ),
        d.heartbeat is None ==> health_badge(Some(d), now) == (" worker beat: none "@, TEXT_DIM),
        health_badge(None, now) == (" "@, TEXT_DIM),
{
}

/// How far off a time is, in its two largest units.
pub proof fn law_times_ahead(d: int, h: int, m: int, s: int)
    requires
        0 <= d,
        0 <= h < 24,
        0 <= m < 60,
        0 <= s < 60,
    ensures
        d > 0 ==> relative_future(86400 * d + 3600 * h + 60 * m + s) == "in "@ + text::dec(d as nat)
            + "d "@ + text::dec(h as nat) + "h"@,
        h > 0 ==> relative_future(3600 * h + 60 * m + s) == "in "@ + text::dec(h as nat) + "h "@
            + text::dec(m as nat) + "m"@,
        m > 0 ==> relative_future(60 * m + s) == "in "@ + text::dec(m as nat) + "m "@ + text::dec(
            s as nat,
        ) + "s"@,
        s > 0 ==> relative_future(s) == "in "@ + text::dec(s as nat) + "s"@,
        relative_future(-s) == "now"@,
{
    let t = 86400 * d + 3600 * h + 60 * m + s;
    assert(t / 86400 == d && t % 86400 == 3600 * h + 60 * m + s);
    assert(t % 86400 / 3600 == h);
    let u = 3600 * h + 60 * m + s;
    assert(u / 86400 == 0 && u % 86400 == u && u / 3600 == h);
    assert(u % 3600 == 60 * m + s && (60 * m + s) / 60 == m);
    let v = 60 * m + s;
    assert(v / 86400 == 0 && v % 86400 == v && v / 3600 == 0 && v % 3600 == v && v % 60 == s);
    assert(s / 86400 == 0 && s % 86400 == s && s / 3600 == 0 && s % 3600 == s && s / 60 == 0
        && s % 60 == s);
}

/// A text that is fitted takes exactly its room, and begins as it did.
pub proof fn law_fitted_takes_its_room(s: Seq<char>, room: nat)
    requires
        room >= 1,
    ensures
        fitted(s, room).len() == room,
        s.len() <= room ==> fitted(s, room).take(s.len() as int) == s,
        s.len() > room ==> fitted(s, room).take(room - 1) == s.take(room - 1),
{
    views::law_truncation_keeps_the_rest(s, room);
    text::law_padding(views::truncated(s, room), room);
    if s.len() > room {
        let t = views::truncated(s, room);
        assert(fitted(s, room) =~= t);
        assert(t.take(room - 1) =~= t.drop_last());
    }
}

/// The detail below a selected thread: its summary, else its intent, and the key
/// for its conversation.
pub proof fn law_details_of_threads(t: ThreadStatusView, width: nat, now: i64)
    requires
        width >= 27,
    ensures
        t.summary matches Some(s) ==> thread_detail(t, width)[1].text == fitted(
            s@,
            (width - 27) as nat,
        ),
        t.summary is None ==> (t.parsed_intent matches Some(i) ==> thread_detail(t, width)[1].text
            == fitted(i@, (width - 27) as nat)),
        t.summary is None && t.parsed_intent is None ==> thread_detail(t, width)[1].text == fitted(
            "-"@,
            (width - 27) as nat,
        ),
        thread_detail(t, width)[3].text == "[c]"@,
        t.eligible_at matches Some(at) ==> (t.summary is None ==> scheduled_text(t, now) == "due "@
            + relative_future(views::since(at, now) as int)),
        t.eligible_at matches Some(at) ==> (t.summary matches Some(s) ==> scheduled_text(t, now)
            == "due "@ + relative_future(views::since(at, now) as int) + " — "@ + s@),
        t.eligible_at is None && t.summary is None ==> scheduled_text(t, now) == "scheduled"@,
{
}

/// The progress below a running thread is its summary, with the key for its
/// conversation where it is selected.
pub proof fn law_progress_is_shown(summary: Seq<char>, width: nat)
    requires
        width >= 27,
    ensures
        progress_line(summary, false, width)[1].text == views::truncated(
            summary,
            (width - 27) as nat,
        ),
        progress_line(summary, true, width)[1].text == fitted(summary, (width - 27) as nat),
        progress_line(summary, true, width)[3].text == "[c]"@,
        progress_line(summary, false, width).len() == 2,
{
}

/// The columns of a thread: its mark, id, state, agent, summary, batch where
/// there is room, and time; a selected row stands out.
pub proof fn law_thread_columns(t: ThreadStatusView, selected: bool, now: i64, width: nat)
    ensures
        ({
            let l = thread_line(t, selected, now, width);
            &&& l[0].text == " "@ + row_mark(t).0 + " "@ && l[0].style.fg == Some(row_mark(t).1)
            &&& t.thread_id@.len() <= 6 && width < 100 ==> l[1].text == text::padded_right(
                t.thread_id@,
                8,
            )
            &&& t.thread_id@.len() <= 8 && width >= 100 ==> l[1].text == text::padded_right(
                t.thread_id@,
                10,
            )
            &&& width >= 100 ==> l[2].text == text::padded_right(row_status(t).0, 16)
            &&& width < 100 ==> l[2].text == text::padded_right(row_status(t).0, 12)
            &&& l[2].style.fg == Some(row_status(t).1)
            &&& t.agent_alias matches Some(a) ==> (a@.len() <= 12 && width < 100 ==> l[3].text
                == text::padded_right(a@, 14))
            &&& t.agent_alias matches Some(a) ==> (a@.len() <= 16 && width >= 100 ==> l[3].text
                == text::padded_right(a@, 18))
            &&& t.summary matches Some(s) ==> (s@.len() <= 8 ==> l[5].text == text::padded_right(
                s@,
                summary_width(width),
            ))
            &&& width >= 100 ==> (t.batch_id matches Some(b) ==> (b@.len() <= 12 ==> l[7].text
                == text::padded_right(b@, 14)))
            &&& width >= 100 ==> l.len() == 9
            &&& width < 100 ==> l.len() == 7
            &&& l.last().text == text::padded_right(row_time(t, now), 8)
            &&& forall|i: int|
                0 <= i < l.len() ==> (#[trigger] l[i]).style.bg == Some(
                    if selected {
                        BG_HIGHLIGHT
                    } else {
                        BG_PRIMARY
                    },
                )
            &&& l[1].style.bold == selected
        }),
        10 <= summary_width(width) <= 60,
        110 <= width <= 135 ==> summary_width(width) == width - 75,
        58 <= width < 100 ==> summary_width(width) == width - 48,
{
}

/// The bar of a batch: as much of it is filled as of the batch is completed.
pub proof fn law_bars_show_what_is_completed(completed: nat, total: nat, len: nat)
    requires
        completed <= total,
        total > 0,
    ensures
        bar_fill(completed, total, len) <= len,
        bar_fill(completed, total, len) * total <= completed * len,
        completed * len < (bar_fill(completed, total, len) + 1) * total,
        bar_fill(total, total, len) == len,
        bar_fill(0, total, len) == 0,
        bar_fill(completed, 0, len) == 0,
{
    let n = completed * len;
    let q = n / total;
    vstd::arithmetic::div_mod::lemma_fundamental_div_mod(n as int, total as int);
    vstd::arithmetic::div_mod::lemma_mod_bound(n as int, total as int);
    assert(n <= total * len) by (nonlinear_arith)
        requires
            n == completed * len,
            completed <= total,
    ;
    assert(q <= len) by (nonlinear_arith)
        requires
            total * q <= n,
            n <= total * len,
            total > 0,
    ;
    assert(q * total == total * q && (q + 1) * total == total * q + total) by (nonlinear_arith);
    vstd::arithmetic::div_mod::lemma_div_multiples_vanish(len as int, total as int);
    assert(0 * len == 0) by (nonlinear_arith);
    vstd::arithmetic::div_mod::lemma_div_basics(total as int);
}

/// What is told of a batch: its name, how many of its threads are completed, its
/// age, and how many are active, completed and failed.
pub proof fn law_batch_columns(
    b: BatchView,
    selected: bool,
    now: i64,
    marker: Seq<char>,
    color: Color,
    width: nat,
)
    ensures
        ({
            let l = batch_line(b, selected, now, marker, color, width);
            &&& l[0].text == " "@ + marker + " "@
            &&& b.batch_id.len() <= 12 && width < 100 ==> l[1].text == text::padded_right(
                b.batch_id,
                14,
            )
            &&& b.batch_id.len() <= 16 && width >= 100 ==> l[1].text == text::padded_right(
                b.batch_id,
                18,
            )
            &&& width < 100 ==> l[2].text == text::padded_right(
                text::dec(b.completed) + "/"@ + text::dec(b.total),
                7,
            )
            &&& width >= 100 ==> l[2].text == text::padded_right(
                text::dec(b.completed) + "/"@ + text::dec(b.total),
                9,
            )
            &&& b.total > 0 && b.completed == b.total ==> l[3].style.fg == Some(SUCCESS)
            &&& b.failed > 0 && b.completed < b.total ==> l[3].style.fg == Some(FAILURE)
            &&& b.failed == 0 && b.completed < b.total ==> l[3].style.fg == Some(ACCENT)
            &&& b.oldest_active_updated_at matches Some(t) ==> l.last().text == "  age "@
                + views::duration_text(views::since(now, t) as int)
            &&& b.oldest_active_updated_at is None ==> l.last().text == "  age "@
                + views::duration_text(views::since(now, b.latest_updated_at) as int)
        }),
        batch_detail(b)[1].text == text::dec(b.active) && batch_detail(b)[2].text == " active"@,
        batch_detail(b)[4].text == text::dec(b.completed) && batch_detail(b)[5].text == " done"@,
        batch_detail(b)[7].text == text::dec(b.failed) && batch_detail(b)[8].text == " fail"@,
        batch_detail(b)[10].text == "[Enter]"@,
        b.active > 0 ==> batch_stats(b, color)[0].text == text::dec(b.active),
        b.failed > 0 ==> batch_stats(b, color)[batch_stats(b, color).len() - 2].text == text::dec(
            b.failed,
        ),
        b.active == 0 && b.completed > 0 ==> batch_stats(b, color)[0].text == text::dec(
            b.completed,
        ),
        b.active == 0 && b.completed == 0 && b.failed == 0 ==> batch_stats(b, color).len() == 0,
{
}

/// What is told of a merge by its state: its mark, its name and its time.
pub proof fn law_merges_by_state(op: MergeOperation, now: i64)
    ensures
        op.status@ == "executing"@ ==> merge_mark(op.status@) == ("▸"@, ACCENT) && merge_label(
            op.status@,
        ) == "Executing"@,
        op.status@ == "claimed"@ ==> merge_mark(op.status@) == ("▸"@, ACCENT) && merge_label(
            op.status@,
        ) == "Claimed"@,
        op.status@ == "queued"@ ==> merge_mark(op.status@) == ("◌"@, WARNING) && merge_label(
            op.status@,
        ) == "Queued"@,
        op.status@ == "completed"@ ==> merge_mark(op.status@) == ("✓"@, SUCCESS_DIM)
            && merge_label(op.status@) == "Completed"@,
        op.status@ == "failed"@ ==> merge_mark(op.status@) == ("✗"@, FAILURE) && merge_label(
            op.status@,
        ) == "Failed"@,
        op.status@ == "cancelled"@ ==> merge_mark(op.status@) == (" "@, TEXT_DIM) && merge_label(
            op.status@,
        ) == "Cancelled"@,
        op.duration_ms matches Some(ms) ==> merge_time(op, now) == views::duration_ms_text(
            ms as int,
        ),
        op.duration_ms is None && (op.status@ == "executing"@ || op.status@ == "claimed"@) ==> {
            &&& op.started_at matches Some(t) ==> merge_time(op, now) == views::duration_text(
                views::since(now, t) as int,
            )
            &&& op.started_at is None ==> merge_time(op, now) == views::duration_text(
                views::since(now, op.queued_at) as int,
            )
        },
        op.duration_ms is None && (op.status@ == "queued"@ || op.status@ == "completed"@
            || op.status@ == "failed"@) ==> merge_time(op, now) == "-"@,
{
    views::lemma_states_apart();
}

/// The columns of a merge: its mark, the branches from and to, its state, its
/// strategy where there is room, and its time.
pub proof fn law_merge_columns(op: MergeOperation, selected: bool, now: i64, width: nat)
    ensures
        ({
            let l = merge_line(op, selected, now, width);
            &&& l[0].text == " "@ + merge_mark(op.status@).0 + " "@
            &&& width >= 100 && op.source_branch@.len() <= 25 && op.target_branch@.len() <= 25
                ==> l[1].text == text::padded_right(
                op.source_branch@ + " → "@ + op.target_branch@,
                54,
            )
            &&& width < 100 && op.source_branch@.len() <= 15 && op.target_branch@.len() <= 15
                && !text::contains_text(op.source_branch@, "compas/"@) ==> l[1].text
                == text::padded_right(op.source_branch@ + " → "@ + op.target_branch@, 34)
            &&& l[2].text == text::padded_right(merge_label(op.status@), 12)
            &&& width >= 100 ==> l[3].text == text::padded_right(
                "["@ + op.merge_strategy@ + "]"@,
                10,
            )
            &&& l.last().text == text::padded_right(merge_time(op, now), 8)
        }),
{
    reveal_strlit("compas/");
    if !text::contains_text(op.source_branch@, "compas/"@) {
        text::law_nothing_to_replace(op.source_branch@, "compas/"@, "c/"@);
    }
}

/// The detail below a merge: of one that failed its conflicts or its error, of
/// any other whose it is.
pub proof fn law_details_of_merges(op: MergeOperation, files: Seq<Seq<char>>)
    ensures
        op.status@ == "failed"@ && files.len() > 0 ==> merge_detail_text(op, Some(files))
            == text::dec(files.len()) + " conflicts: "@ + text::joined(files, ", "@),
        op.status@ == "failed"@ ==> (op.error_detail matches Some(e) ==> merge_detail_text(op, None)
            == e@ && merge_detail_text(op, Some(Seq::empty())) == e@),
        op.status@ == "failed"@ && op.error_detail is None ==> merge_detail_text(op, None)
            == "failed"@,
        op.status@ != "failed"@ && op.id@.len() <= 7 && op.thread_id@.len() <= 7
            ==> merge_detail_text(op, None) == "op:"@ + op.id@ + "  thread:"@ + op.thread_id@
            + "  by:"@ + op.requested_by@,
        op.status@ != "failed"@ ==> merge_detail_text(op, Some(files)) == merge_detail_text(
            op,
            None,
        ),
{
}

/// One merge more counts as executing or as queued by its own state.
pub proof fn law_merges_are_counted(ops: Seq<MergeOperation>, op: MergeOperation)
    ensures
        ({
            let (e, q) = merge_counts(ops);
            let (f, r) = merge_counts(ops.push(op));
            &&& op.status@ == "executing"@ || op.status@ == "claimed"@ ==> f == e + 1 && r == q
            &&& op.status@ == "queued"@ ==> f == e && r == q + 1
            &&& op.status@ == "completed"@ || op.status@ == "failed"@ || op.status@
                == "cancelled"@ ==> f == e && r == q
        }),
        merge_counts(Seq::empty()) == (0nat, 0nat),
{
    views::lemma_states_apart();
    assert(ops.push(op).drop_last() =~= ops);
}

/// The footer tells the counts of threads in their places, what is pending, and
/// what the work cost where that is known.
pub proof fn law_footer_tells_the_counts(data: ActivityData, now: i64, stale_after: i64)
    ensures
        ({
            let l = footer_line(data, now, stale_after);
            let (active, failed, completed, stale, scheduled) = activity::footer_of(
                data,
                now,
                stale_after,
            );
            &&& l[1].text == "Active: "@ && l[2].text == text::dec_int(active as int) + "  "@
            &&& l[3].text == "Stale: "@ && l[4].text == text::dec_int(stale as int) + "  "@
            &&& l[5].text == "Failed: "@ && l[6].text == text::dec_int(failed as int) + "  "@
            &&& l[7].text == "Completed: "@ && l[8].text == text::dec_int(completed as int)
                + "  "@
            &&& l[9].text == "Pending: "@ && l[10].text == text::dec_int(data.queue_depth as int)
            &&& scheduled > 0 ==> l[12].text == "Sched: "@ && l[13].text == text::dec_int(
                scheduled as int,
            )
            &&& data.cost_summary matches Some(c) ==> (c.has_cost || c.total_tokens_in > 0
                ==> l.last().text == views::tokens_text(c.total_tokens_in as int) + "/"@
                + views::tokens_text(c.total_tokens_out as int) && l[l.len() - 4].text
                == c.cost_text@ && l[l.len() - 5].text == "Cost: "@)
            &&& scheduled <= 0 && data.cost_summary is None && merge_counts(data.merge_ops@) == (
                0nat,
                0nat,
            ) ==> l.len() == 11
            &&& scheduled <= 0 && data.cost_summary is None && merge_counts(data.merge_ops@).0 > 0
                && merge_counts(data.merge_ops@).1 == 0 ==> l.last().text == text::dec(
                merge_counts(data.merge_ops@).0,
            ) + "▸"@
            &&& scheduled <= 0 && data.cost_summary is None && merge_counts(data.merge_ops@).1 > 0
                ==> l.last().text == text::dec(merge_counts(data.merge_ops@).1) + "◌"@
        }),
{
}

} // verus!
