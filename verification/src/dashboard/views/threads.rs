//! The table of threads.
use crate::dashboard::views::{
    elapsed, format_duration_secs, humanize_thread_status, thread_status_color,
};
use crate::dashboard::views;
use crate::store::ThreadStatusView;
use crate::style::{fg, plain, Color, Line, RowView, Style, TableRow};
use crate::style;
use crate::text::{cat, chars_of, str_or, string_of};
use crate::text;
use vstd::prelude::*;

verus! {

/// The style of a key in the table's legend.
#[verifier::allow_in_spec]
pub fn key_style() -> Style
    returns
        (fg(Color::Yellow).bold()),
{
    fg(Color::Yellow).bold()
}

/// The style of a column's title.
#[verifier::allow_in_spec]
pub fn column_style() -> Style
    returns
        (fg(Color::Cyan).bold()),
{
    fg(Color::Cyan).bold()
}

/// The legend below the table.
pub fn threads_legend() -> (r: Line)
    ensures
        r@ == seq![
            style::sp(" "@, plain()),
            style::sp("↑/↓"@, key_style()),
            style::sp(": select  "@, plain()),
            style::sp("Enter"@, key_style()),
            style::sp(": view log "@, plain()),
        ],
{
    let mut line: Line = Line::of(" ", plain());
    line.put("↑/↓", key_style());
    line.put(": select  ", plain());
    line.put("Enter", key_style());
    line.put(": view log ", plain());
    line
}

/// What stands in place of a table: none was read yet, or it has no rows.
pub fn threads_notice(threads: &Option<Vec<ThreadStatusView>>) -> (r: Option<Line>)
    ensures
        match r {
            None => threads matches Some(t) && t@.len() > 0,
            Some(line) => match *threads {
                None => line@ == seq![style::sp("  Fetching…"@, fg(Color::DarkGray))],
                Some(t) => t@.len() == 0 && line@ == seq![
                    style::sp("  No threads"@, fg(Color::DarkGray)),
                ],
            },
        },
{
    match threads {
        None => Some(Line::of("  Fetching…", fg(Color::DarkGray))),
        Some(t) => if t.len() == 0 {
            Some(Line::of("  No threads", fg(Color::DarkGray)))
        } else {
            None
        },
    }
}

/// The titles of the columns.
pub fn threads_header() -> (r: Line)
    ensures
        r@ == seq![
            style::sp("Thread ID"@, column_style()),
            style::sp("Status"@, column_style()),
            style::sp("Agent"@, column_style()),
            style::sp("Batch"@, column_style()),
            style::sp("Age"@, column_style()),
        ],
{
    let mut line: Line = Line::of("Thread ID", column_style());
    line.put("Status", column_style());
    line.put("Agent", column_style());
    line.put("Batch", column_style());
    line.put("Age", column_style());
    line
}

/// The widths of the columns.
pub fn threads_widths() -> (r: Vec<u16>)
    ensures
        r@ == seq![15u16, 16u16, 14u16, 11u16, 6u16],
{
    vec![15u16, 16u16, 14u16, 11u16, 6u16]
}

/// A text, cut after `max` characters with an ellipsis.
pub open spec fn cut(s: Seq<char>, max: nat) -> Seq<char> {
    if s.len() <= max {
        s
    } else {
        s.take(max as int) + "…"@
    }
}

fn cut_after(s: &str, max: usize) -> (r: String)
    ensures
        r@ == cut(s@, max as nat),
{
    let v: Vec<char> = chars_of(s);
    if v.len() <= max {
        s.to_owned()
    } else {
        cat(string_of(&v, 0, max).as_str(), "…")
    }
}

/// The batch of a thread, or a dash.
pub open spec fn batch_cell(batch_id: Option<String>) -> Seq<char> {
    match batch_id {
        Some(b) => if b@.len() > 0 {
            cut(b@, 8)
        } else {
            "-"@
        },
        None => "-"@,
    }
}

/// The row of a thread.
pub open spec fn thread_row(t: ThreadStatusView, selected: bool, now: i64) -> RowView {
    RowView {
        cells: seq![
            style::sp(cut(t.thread_id@, 12), plain()),
            style::sp(t.thread_status@, fg(views::thread_term_color(t.thread_status@))),
            style::sp(text::text_or(t.agent_alias, "-"@), plain()),
            style::sp(batch_cell(t.batch_id), plain()),
            style::sp(views::duration_text(views::since(now, t.thread_updated_at) as int), plain()),
        ],
        style: if selected {
            Style { fg: None, bg: Some(Color::DarkGray), bold: true, italic: false }
        } else {
            plain()
        },
    }
}

/// The rows of the table.
pub open spec fn thread_rows(
    threads: Seq<ThreadStatusView>,
    selected: usize,
    now: i64,
) -> Seq<RowView> {
    Seq::new(threads.len(), |i: int| thread_row(threads[i], i == selected, now))
}

fn row_of(t: &ThreadStatusView, selected: bool, now: i64) -> (r: TableRow)
    ensures
        r@ == thread_row(*t, selected, now),
{
    let status: &str = humanize_thread_status(t.thread_status.as_str());
    let batch: String = match &t.batch_id {
        Some(b) => if b.as_str().is_empty() {
            "-".to_owned()
        } else {
            cut_after(b.as_str(), 8)
        },
        None => "-".to_owned(),
    };
    let mut cells: Line = Line::new();
    cells.put_string(cut_after(t.thread_id.as_str(), 12), plain());
    cells.put(status, fg(thread_status_color(t.thread_status.as_str())));
    cells.put(str_or(&t.agent_alias, "-"), plain());
    cells.put_string(batch, plain());
    cells.put_string(format_duration_secs(elapsed(now, t.thread_updated_at)), plain());
    let style: Style = if selected {
        Style { fg: None, bg: Some(Color::DarkGray), bold: true, italic: false }
    } else {
        plain()
    };
    assert(cells@ =~= thread_row(*t, selected, now).cells);
    TableRow { cells, style }
}

/// The rows of the table, the selected one marked.
pub fn threads_rows(threads: &Vec<ThreadStatusView>, selected: usize, now: i64) -> (r: Vec<
    TableRow,
>)
    ensures
        r@.map_values(|row: TableRow| row@) == thread_rows(threads@, selected, now),
{
    let mut rows: Vec<TableRow> = Vec::new();
    let mut i: usize = 0;
    while i < threads.len()
        invariant
            i <= threads@.len(),
            rows@.len() == i,
            forall|k: int|
                0 <= k < i ==> (#[trigger] rows@[k])@ == thread_row(
                    threads@[k],
                    k == selected,
                    now,
                ),
        decreases threads@.len() - i,
    {
        rows.push(row_of(&threads[i], i == selected, now));
        i += 1;
    }
    assert(rows@.map_values(|row: TableRow| row@) =~= thread_rows(threads@, selected, now));
    rows
}

/// The columns of a thread: its id, state, agent, batch and age; the selected row
/// stands out.
pub proof fn law_thread_table(threads: Seq<ThreadStatusView>, selected: usize, now: i64, i: int)
    requires
        0 <= i < threads.len(),
    ensures
        thread_rows(threads, selected, now).len() == threads.len(),
        ({
            let t = threads[i];
            let r = thread_rows(threads, selected, now)[i];
            &&& t.thread_id@.len() <= 12 ==> r.cells[0].text == t.thread_id@
            &&& t.thread_id@.len() > 12 ==> r.cells[0].text == t.thread_id@.take(12) + "…"@
            &&& r.cells[1].text == t.thread_status@ && r.cells[1].style.fg == Some(
                views::thread_term_color(t.thread_status@),
            )
            &&& t.agent_alias matches Some(a) ==> r.cells[2].text == a@
            &&& t.agent_alias is None ==> r.cells[2].text == "-"@
            &&& t.batch_id matches Some(b) ==> (0 < b@.len() <= 8 ==> r.cells[3].text == b@)
            &&& t.batch_id matches Some(b) ==> (b@.len() > 8 ==> r.cells[3].text == b@.take(8)
                + "…"@)
            &&& t.batch_id matches Some(b) ==> (b@.len() == 0 ==> r.cells[3].text == "-"@)
            &&& t.batch_id is None ==> r.cells[3].text == "-"@
            &&& r.cells[4].text == views::duration_text(
                views::since(now, t.thread_updated_at) as int,
            )
            &&& r.style.bold <==> i == selected
            &&& i == selected ==> r.style.bg == Some(Color::DarkGray)
            &&& i != selected ==> r.style.bg is None
        }),
{
}

} // verus!
