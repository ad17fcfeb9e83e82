//! The execution detail view: tabs for input, output and timeline, with their
//! own scroll positions.
use crate::dashboard::theme::{
    exec_status_color, ACCENT, BORDER_DIM, FAILURE, MARKER_COMPLETED, MARKER_FAILED, MARKER_QUEUED,
    MARKER_RUNNING, MARKER_TIMEOUT, SUCCESS, TEXT_BRIGHT, TEXT_DIM, TEXT_MUTED, TEXT_NORMAL,
    WARNING,
};
use crate::dashboard::theme;
use crate::dashboard::views::markdown::markdown_to_lines_standalone;
use crate::dashboard::views::markdown;
use crate::dashboard::views::payload::{
    extract_content_from_log_line, format_log_line, format_payload_lines, JsonViewMode,
};
use crate::dashboard::views::payload;
use crate::dashboard::views::{
    elapsed, format_duration_ms, format_duration_secs, humanize_exec_status, is_running_exec_status,
    truncate,
};
use crate::dashboard::views;
use crate::store::{ExecutionEventRow, ExecutionRow};
use crate::style::{count_rows, fg, no_lines, plain, push_line, Color, Line, SpanView, WIDEST};
use crate::style;
use crate::text::{
    byte_count, cat, cat3, char_count, contains, decode_lossy, i64_text, join, pad_right, repeat_text,
    starts_with, str_eq, str_or, trim_start, usize_text,
};
use crate::text;
use vstd::prelude::*;

verus! {

/// Lines of error detail that the error card shows at most.
pub const ERROR_DETAIL_MAX_LINES: usize = 3;

/// Characters of an event's summary that the timeline shows at most.
pub const TIMELINE_SUMMARY_MAX: usize = 60;

/// Lines of a JSON input that are shown at most.
pub const INPUT_MAX_LINES: usize = 200;

/// A tab of the detail view.
#[derive(Debug, Clone, Copy, PartialEq, Eq, Structural)]
pub enum Tab {
    Input,
    Output,
    Timeline,
}

impl Tab {
    /// The position of the tab.
    pub open spec fn position(self) -> int {
        match self {
            Tab::Input => 0,
            Tab::Output => 1,
            Tab::Timeline => 2,
        }
    }

    /// The tab at a position; the first one where there is none.
    pub open spec fn at(i: int) -> Tab {
        if i == 1 {
            Tab::Output
        } else if i == 2 {
            Tab::Timeline
        } else {
            Tab::Input
        }
    }

    /// The tab at a position; the first one where there is none.
    pub fn from_index(i: usize) -> (r: Tab)
        ensures
            r == Tab::at(i as int),
    {
        match i {
            1 => Tab::Output,
            2 => Tab::Timeline,
            _ => Tab::Input,
        }
    }

    /// The position of the tab.
    pub fn index(self) -> (r: usize)
        ensures
            r == self.position(),
            r < 3,
    {
        match self {
            Tab::Input => 0,
            Tab::Output => 1,
            Tab::Timeline => 2,
        }
    }
}

/// Where a tab stands.
#[derive(Debug, Clone, Copy, PartialEq, Eq, Structural)]
pub struct TabState {
    pub scroll_offset: usize,
    pub follow: bool,
}

/// What could be read of a log file.
pub struct LogFile {
    pub path: String,
    /// The text of the file, if it could be read.
    pub content: Option<String>,
    /// The length of the file in bytes, if known.
    pub len: Option<u64>,
}

/// The state of the detail view.
#[derive(Debug)]
pub struct ExecutionDetailState {
    pub execution: ExecutionRow,
    /// The lines of the log.
    pub lines: Vec<String>,
    pub log_path: Option<String>,
    /// How much of the log file has been read, in bytes.
    pub file_pos: u64,
    /// Content rows in sight when last drawn.
    pub visible_rows: usize,
    pub json_view_mode: JsonViewMode,
    pub input_payload: Option<String>,
    /// Whether the input comes from the dispatch of this very execution.
    pub input_linked: bool,
    pub timeline_events: Vec<ExecutionEventRow>,
    /// Whether there are more events than were loaded.
    pub timeline_truncated: bool,
    pub active_tab: Tab,
    /// Input, output and timeline.
    pub tab_states: [TabState; 3],
}

/// The tab, following and offset with which an execution is opened: the output,
/// at its end for a failure and following while it runs; the input while queued.
pub open spec fn opening(status: Seq<char>) -> (Tab, bool, usize) {
    if status == "failed"@ || status == "crashed"@ || status == "timed_out"@ {
        (Tab::Output, false, usize::MAX)
    } else if status == "executing"@ || status == "picked_up"@ {
        (Tab::Output, true, 0)
    } else if status == "completed"@ {
        (Tab::Output, false, 0)
    } else {
        (Tab::Input, false, 0)
    }
}

/// The log lines with which an execution is opened: those of the log file, or
/// of the stored preview where that gave none.
pub open spec fn opening_lines(e: ExecutionRow, log: Option<LogFile>) -> Seq<Seq<char>> {
    let read = match log {
        Some(f) => match f.content {
            Some(c) => text::lines_of(c@),
            None => seq![],
        },
        None => seq![],
    };
    if read.len() > 0 {
        read
    } else {
        match e.output_preview {
            Some(p) => text::lines_of(p@),
            None => seq![],
        }
    }
}

/// The offset after scrolling up.
pub open spec fn up_by(offset: usize, n: usize) -> usize {
    if offset >= n {
        (offset - n) as usize
    } else {
        0
    }
}

/// The offset after scrolling down.
pub open spec fn down_by(offset: usize, n: usize) -> usize {
    if offset + n <= usize::MAX {
        (offset + n) as usize
    } else {
        usize::MAX
    }
}

impl ExecutionDetailState {
    /// Whether the two states differ in the states of their tabs at most.
    pub open spec fn same_but_tab_states(self, other: ExecutionDetailState) -> bool {
        self == (ExecutionDetailState { tab_states: self.tab_states, ..other })
    }

    /// The state of the active tab.
    pub open spec fn active(self) -> TabState {
        self.tab_states@[self.active_tab.position()]
    }

    /// The view of an execution, opened as its status asks for.
    pub fn new(
        execution: ExecutionRow,
        log: Option<LogFile>,
        input_payload: Option<String>,
        input_linked: bool,
        timeline_events: Vec<ExecutionEventRow>,
        timeline_truncated: bool,
    ) -> (r: ExecutionDetailState)
        ensures
            r.execution == execution,
            text::texts(r.lines@) == opening_lines(execution, log),
            match log {
                Some(f) => r.log_path == Some(f.path) && r.file_pos == (match f.len {
                    Some(n) => n,
                    None => 0,
                }),
                None => r.log_path is None && r.file_pos == 0,
            },
            r.visible_rows == 20,
            r.json_view_mode == JsonViewMode::Humanized,
            r.input_payload == input_payload,
            r.input_linked == input_linked,
            r.timeline_events == timeline_events,
            r.timeline_truncated == timeline_truncated,
            ({
                let (tab, follow, offset) = opening(execution.status@);
                &&& r.active_tab == tab
                &&& r.tab_states@ == seq![
                    TabState { scroll_offset: 0, follow: false },
                    TabState { scroll_offset: offset, follow },
                    TabState { scroll_offset: 0, follow: false },
                ]
            }),
    {
        let status: &str = execution.status.as_str();
        let (tab, follow, offset): (Tab, bool, usize) = if str_eq(status, "failed") || str_eq(
            status,
            "crashed",
        ) || str_eq(status, "timed_out") {
            (Tab::Output, false, usize::MAX)
        } else if str_eq(status, "executing") || str_eq(status, "picked_up") {
            (Tab::Output, true, 0)
        } else if str_eq(status, "completed") {
            (Tab::Output, false, 0)
        } else {
            (Tab::Input, false, 0)
        };
        let idle: TabState = TabState { scroll_offset: 0, follow: false };
        let tab_states: [TabState; 3] = [idle, TabState { scroll_offset: offset, follow }, idle];
        assert(tab_states@ =~= seq![
            idle,
            TabState { scroll_offset: offset, follow },
            idle,
        ]);
        let mut lines: Vec<String> = Vec::new();
        let mut log_path: Option<String> = None;
        let mut file_pos: u64 = 0;
        assert(text::texts(lines@) =~= Seq::<Seq<char>>::empty());
        if let Some(f) = log {
            if let Some(c) = &f.content {
                lines = text::split_lines(c.as_str());
            }
            if let Some(n) = f.len {
                file_pos = n;
            }
            log_path = Some(f.path);
        }
        assert(text::texts(lines@).len() == lines@.len());
        if lines.len() == 0 {
            if let Some(p) = &execution.output_preview {
                lines = text::split_lines(p.as_str());
            }
        }
        ExecutionDetailState {
            execution,
            lines,
            log_path,
            file_pos,
            visible_rows: 20,
            json_view_mode: JsonViewMode::Humanized,
            input_payload,
            input_linked,
            timeline_events,
            timeline_truncated,
            active_tab: tab,
            tab_states,
        }
    }

    /// Whether a log file of `file_len` bytes holds something new.
    pub fn has_news(&self, file_len: u64) -> (r: bool)
        ensures
            r == (self.log_path is Some && file_len > self.file_pos),
    {
        self.log_path.is_some() && file_len > self.file_pos
    }

    /// Whether the state is `before` with `new_text` appended to the log, which
    /// is now `file_len` bytes long. The output tab goes to the end if it
    /// follows.
    pub open spec fn appended(
        self,
        before: ExecutionDetailState,
        new_text: Seq<char>,
        file_len: u64,
    ) -> bool {
        &&& text::texts(self.lines@) == text::texts(before.lines@) + text::lines_of(new_text)
        &&& self.tab_states@ == if before.tab_states@[1].follow {
            before.tab_states@.update(1, TabState { scroll_offset: usize::MAX, follow: true })
        } else {
            before.tab_states@
        }
        &&& self == (ExecutionDetailState {
            lines: self.lines,
            file_pos: file_len,
            tab_states: self.tab_states,
            ..before
        })
    }

    /// Takes over the bytes that were read behind the known end of the log file,
    /// which is now `file_len` bytes long.
    pub fn append_log(&mut self, new_bytes: &Vec<u8>, file_len: u64)
        ensures
            final(self).appended(*old(self), text::lossy_text(new_bytes@), file_len),
    {
        self.append_text(decode_lossy(new_bytes).as_str(), file_len);
    }

    /// Takes over the text that was read behind the known end of the log file,
    /// which is now `file_len` bytes long.
    pub fn append_text(&mut self, new_text: &str, file_len: u64)
        ensures
            final(self).appended(*old(self), new_text@, file_len),
    {
        let ghost before = text::texts(self.lines@);
        let mut more: Vec<String> = text::split_lines(new_text);
        let ghost extra = text::texts(more@);
        self.lines.append(&mut more);
        assert(text::texts(self.lines@) =~= before + extra);
        self.file_pos = file_len;
        if self.tab_states[1].follow {
            self.tab_states[1] = TabState { scroll_offset: usize::MAX, follow: true };
        }
    }

    /// The next tab, after the last one the first.
    pub fn next_tab(&mut self)
        ensures
            *final(self) == (ExecutionDetailState {
                active_tab: Tab::at((old(self).active_tab.position() + 1) % 3),
                ..*old(self)
            }),
    {
        self.active_tab = Tab::from_index((self.active_tab.index() + 1) % 3);
    }

    /// The previous tab, before the first one the last.
    pub fn prev_tab(&mut self)
        ensures
            *final(self) == (ExecutionDetailState {
                active_tab: Tab::at((old(self).active_tab.position() + 2) % 3),
                ..*old(self)
            }),
    {
        self.active_tab = Tab::from_index((self.active_tab.index() + 2) % 3);
    }

    /// Jumps to a tab.
    pub fn set_tab(&mut self, tab: Tab)
        ensures
            *final(self) == (ExecutionDetailState { active_tab: tab, ..*old(self) }),
    {
        self.active_tab = tab;
    }

    /// Replaces the state of the active tab.
    fn set_active(&mut self, ts: TabState)
        ensures
            final(self).same_but_tab_states(*old(self)),
            final(self).tab_states@ == old(self).tab_states@.update(
                old(self).active_tab.position(),
                ts,
            ),
    {
        let i: usize = self.active_tab.index();
        self.tab_states[i] = ts;
    }

    /// Scrolls the active tab up, and stops following unless `n` is zero.
    pub fn scroll_up(&mut self, n: usize)
        ensures
            final(self).same_but_tab_states(*old(self)),
            final(self).tab_states@ == old(self).tab_states@.update(
                old(self).active_tab.position(),
                TabState {
                    scroll_offset: up_by(old(self).active().scroll_offset, n),
                    follow: old(self).active().follow && n == 0,
                },
            ),
    {
        let ts: TabState = self.tab_states[self.active_tab.index()];
        self.set_active(
            TabState {
                scroll_offset: ts.scroll_offset.saturating_sub(n),
                follow: ts.follow && n == 0,
            },
        );
    }

    /// Scrolls the active tab down.
    pub fn scroll_down(&mut self, n: usize)
        ensures
            final(self).same_but_tab_states(*old(self)),
            final(self).tab_states@ == old(self).tab_states@.update(
                old(self).active_tab.position(),
                TabState {
                    scroll_offset: down_by(old(self).active().scroll_offset, n),
                    follow: old(self).active().follow,
                },
            ),
    {
        let ts: TabState = self.tab_states[self.active_tab.index()];
        self.set_active(
            TabState { scroll_offset: ts.scroll_offset.saturating_add(n), follow: ts.follow },
        );
    }

    /// Jumps to the first line of the active tab and stops following.
    pub fn scroll_to_top(&mut self)
        ensures
            final(self).same_but_tab_states(*old(self)),
            final(self).tab_states@ == old(self).tab_states@.update(
                old(self).active_tab.position(),
                TabState { scroll_offset: 0, follow: false },
            ),
    {
        self.set_active(TabState { scroll_offset: 0, follow: false });
    }

    /// Jumps to the end of the active tab.
    pub fn scroll_to_bottom(&mut self)
        ensures
            final(self).same_but_tab_states(*old(self)),
            final(self).tab_states@ == old(self).tab_states@.update(
                old(self).active_tab.position(),
                TabState { scroll_offset: usize::MAX, follow: old(self).active().follow },
            ),
    {
        let ts: TabState = self.tab_states[self.active_tab.index()];
        self.set_active(TabState { scroll_offset: usize::MAX, follow: ts.follow });
    }

    /// Turns following of the active tab on, at its end, or off.
    pub fn toggle_follow(&mut self)
        ensures
            final(self).same_but_tab_states(*old(self)),
            final(self).tab_states@ == old(self).tab_states@.update(
                old(self).active_tab.position(),
                TabState {
                    scroll_offset: if old(self).active().follow {
                        old(self).active().scroll_offset
                    } else {
                        usize::MAX
                    },
                    follow: !old(self).active().follow,
                },
            ),
    {
        let ts: TabState = self.tab_states[self.active_tab.index()];
        if ts.follow {
            self.set_active(TabState { scroll_offset: ts.scroll_offset, follow: false });
        } else {
            self.set_active(TabState { scroll_offset: usize::MAX, follow: true });
        }
    }

    /// Switches between flattened and pretty-printed JSON.
    pub fn toggle_pretty_json(&mut self)
        ensures
            *final(self) == (ExecutionDetailState {
                json_view_mode: other_mode(old(self).json_view_mode),
                ..*old(self)
            }),
    {
        self.json_view_mode = match self.json_view_mode {
            JsonViewMode::Humanized => JsonViewMode::RawPretty,
            JsonViewMode::RawPretty => JsonViewMode::Humanized,
        };
    }

    /// Whether the execution is still running.
    pub fn is_running(&self) -> (r: bool)
        ensures
            r == views::running_status(self.execution.status@),
    {
        is_running_exec_status(self.execution.status.as_str())
    }

    /// Takes over what a drawing of `line_count` content lines in `content_rows`
    /// rows shows of the active tab: its end while following, the stored offset or
    /// the last page otherwise.
    pub fn settle(&mut self, line_count: usize, content_rows: usize)
        ensures
            final(self).tab_states@ == old(self).tab_states@.update(
                old(self).active_tab.position(),
                TabState {
                    scroll_offset: settled(old(self).active(), line_count, content_rows),
                    follow: old(self).active().follow,
                },
            ),
            *final(self) == (ExecutionDetailState {
                visible_rows: content_rows,
                tab_states: final(self).tab_states,
                ..*old(self)
            }),
    {
        self.visible_rows = content_rows;
        let max: usize = line_count.saturating_sub(content_rows);
        let ts: TabState = self.tab_states[self.active_tab.index()];
        let offset: usize = if ts.follow || ts.scroll_offset > max {
            max
        } else {
            ts.scroll_offset
        };
        self.set_active(TabState { scroll_offset: offset, follow: ts.follow });
    }
}

/// The other JSON mode.
pub open spec fn other_mode(m: JsonViewMode) -> JsonViewMode {
    match m {
        JsonViewMode::Humanized => JsonViewMode::RawPretty,
        JsonViewMode::RawPretty => JsonViewMode::Humanized,
    }
}

/// The offset that a drawing shows.
pub open spec fn settled(ts: TabState, line_count: usize, content_rows: usize) -> usize {
    let max = up_by(line_count, content_rows);
    if ts.follow || ts.scroll_offset > max {
        max
    } else {
        ts.scroll_offset
    }
}

/// Going to the next tab and back, or switching the JSON mode twice, changes nothing.
pub proof fn law_tab_steps_cancel(tab: Tab, mode: JsonViewMode)
    ensures
        Tab::at((Tab::at((tab.position() + 1) % 3).position() + 2) % 3) == tab,
        Tab::at((Tab::at((tab.position() + 2) % 3).position() + 1) % 3) == tab,
        Tab::at(tab.position()) == tab,
        other_mode(other_mode(mode)) == mode,
{
}

/// Failed, crashed or timed out.
pub open spec fn failure_status(status: Seq<char>) -> bool {
    status == "failed"@ || status == "crashed"@ || status == "timed_out"@
}

/// Whether a status is that of a failure.
pub fn is_failure_status(status: &str) -> (r: bool)
    ensures
        r == failure_status(status@),
{
    str_eq(status, "failed") || str_eq(status, "crashed") || str_eq(status, "timed_out")
}

/// The marker of an execution status.
pub open spec fn status_marker(status: Seq<char>) -> Seq<char> {
    if status == "executing"@ || status == "picked_up"@ {
        MARKER_RUNNING@
    } else if status == "queued"@ {
        MARKER_QUEUED@
    } else if status == "completed"@ {
        MARKER_COMPLETED@
    } else if status == "failed"@ || status == "crashed"@ {
        MARKER_FAILED@
    } else if status == "timed_out"@ {
        MARKER_TIMEOUT@
    } else {
        " "@
    }
}

/// The marker of an execution status.
pub fn exec_status_marker(status: &str) -> (r: &'static str)
    ensures
        r@ == status_marker(status@),
{
    if str_eq(status, "executing") || str_eq(status, "picked_up") {
        MARKER_RUNNING
    } else if str_eq(status, "queued") {
        MARKER_QUEUED
    } else if str_eq(status, "completed") {
        MARKER_COMPLETED
    } else if str_eq(status, "failed") || str_eq(status, "crashed") {
        MARKER_FAILED
    } else if str_eq(status, "timed_out") {
        MARKER_TIMEOUT
    } else {
        " "
    }
}

/// `s` cut into lines.
pub fn split_lines(s: &str) -> (r: Vec<String>)
    ensures
        text::texts(r@) == text::lines_of(s@),
{
    text::split_lines(s)
}

// ── Title and footer ─────────────────────────────────────────────────────────

/// The title: id, agent, status, duration, and the attempt from the second on.
pub open spec fn detail_title(e: ExecutionRow) -> Seq<SpanView> {
    let head = seq![
        style::sp(" "@, plain()),
        style::sp(views::truncated(e.id@, 18), fg(TEXT_BRIGHT).bold()),
        style::sp(" ── "@, fg(TEXT_DIM)),
        style::sp(e.agent_alias@, fg(TEXT_MUTED)),
        style::sp(" ── "@, fg(TEXT_DIM)),
        style::sp(
            status_marker(e.status@) + " "@ + views::exec_label(e.status@),
            fg(theme::exec_color(e.status@)).bold(),
        ),
        style::sp(" ── "@, fg(TEXT_DIM)),
        style::sp(
            match e.duration_ms {
                Some(ms) => views::duration_ms_text(ms as int),
                None => "-"@,
            },
            fg(TEXT_DIM),
        ),
    ];
    let body = if e.attempt_number > 1 {
        head.push(style::sp(" ── "@, fg(TEXT_DIM))).push(
            style::sp("#"@ + text::dec_int(e.attempt_number as int), fg(WARNING).bold()),
        )
    } else {
        head
    };
    body.push(style::sp(" "@, plain()))
}

/// The title of the view.
pub fn build_title_spans(state: &ExecutionDetailState) -> (r: Line)
    ensures
        r@ == detail_title(state.execution),
{
    let e: &ExecutionRow = &state.execution;
    let status: &str = e.status.as_str();
    let mut line: Line = Line::new();
    line.put(" ", plain());
    line.put_string(truncate(e.id.as_str(), 18), fg(TEXT_BRIGHT).bold());
    line.put(" ── ", fg(TEXT_DIM));
    line.put(e.agent_alias.as_str(), fg(TEXT_MUTED));
    line.put(" ── ", fg(TEXT_DIM));
    line.put_string(
        cat3(exec_status_marker(status), " ", humanize_exec_status(status)),
        fg(exec_status_color(status)).bold(),
    );
    line.put(" ── ", fg(TEXT_DIM));
    let duration: String = match e.duration_ms {
        Some(ms) => format_duration_ms(ms),
        None => "-".to_owned(),
    };
    line.put_string(duration, fg(TEXT_DIM));
    if e.attempt_number > 1 {
        line.put(" ── ", fg(TEXT_DIM));
        let n: String = i64_text(e.attempt_number as i64);
        line.put_string(cat("#", n.as_str()), fg(WARNING).bold());
    }
    line.put(" ", plain());
    line
}

/// The key hints, whether the tab follows, the JSON mode, and the position.
pub open spec fn detail_footer(
    mode: JsonViewMode,
    follow_on: bool,
    scroll_offset: nat,
    total_lines: nat,
) -> Seq<SpanView> {
    let keys = seq![
        style::sp(" "@, plain()),
        style::sp("Esc"@, fg(ACCENT).bold()),
        style::sp(" back  "@, fg(TEXT_MUTED)),
        style::sp("Tab"@, fg(ACCENT).bold()),
        style::sp(" pane  "@, fg(TEXT_MUTED)),
        style::sp("↑↓"@, fg(ACCENT).bold()),
        style::sp(" scroll  "@, fg(TEXT_MUTED)),
        style::sp("g/G"@, fg(ACCENT).bold()),
        style::sp(" top/bottom  "@, fg(TEXT_MUTED)),
        style::sp("f"@, fg(ACCENT).bold()),
        style::sp(" follow  "@, fg(TEXT_MUTED)),
        style::sp("J"@, fg(ACCENT).bold()),
        style::sp(" json"@, fg(TEXT_MUTED)),
    ];
    let with_follow = if follow_on {
        keys.push(style::sp("  ◉"@, fg(ACCENT).bold()))
    } else {
        keys
    };
    let with_mode = match mode {
        JsonViewMode::Humanized => with_follow,
        JsonViewMode::RawPretty => with_follow.push(style::sp("  [json]"@, fg(ACCENT).bold())),
    };
    with_mode.push(
        style::sp(
            if total_lines == 0 {
                ""@
            } else if follow_on {
                "  "@ + text::dec(total_lines) + " "@
            } else {
                "  "@ + text::dec(scroll_offset + 1) + "/"@ + text::dec(total_lines) + " "@
            },
            fg(TEXT_DIM),
        ),
    )
}

/// The footer of the view.
pub fn build_footer_spans(
    state: &ExecutionDetailState,
    follow_on: bool,
    scroll_offset: usize,
    total_lines: usize,
) -> (r: Line)
    requires
        scroll_offset < usize::MAX,
    ensures
        r@ == detail_footer(
            state.json_view_mode,
            follow_on,
            scroll_offset as nat,
            total_lines as nat,
        ),
{
    let mut line: Line = Line::new();
    line.put(" ", plain());
    line.put("Esc", fg(ACCENT).bold());
    line.put(" back  ", fg(TEXT_MUTED));
    line.put("Tab", fg(ACCENT).bold());
    line.put(" pane  ", fg(TEXT_MUTED));
    line.put("↑↓", fg(ACCENT).bold());
    line.put(" scroll  ", fg(TEXT_MUTED));
    line.put("g/G", fg(ACCENT).bold());
    line.put(" top/bottom  ", fg(TEXT_MUTED));
    line.put("f", fg(ACCENT).bold());
    line.put(" follow  ", fg(TEXT_MUTED));
    line.put("J", fg(ACCENT).bold());
    line.put(" json", fg(TEXT_MUTED));
    if follow_on {
        line.put("  ◉", fg(ACCENT).bold());
    }
    match state.json_view_mode {
        JsonViewMode::Humanized => {},
        JsonViewMode::RawPretty => {
            line.put("  [json]", fg(ACCENT).bold());
        },
    }
    if total_lines == 0 {
        line.put("", fg(TEXT_DIM));
    } else {
        let total: String = usize_text(total_lines);
        let mut s: String = "  ".to_owned();
        if !follow_on {
            let at: String = usize_text(scroll_offset + 1);
            s.append(at.as_str());
            s.append("/");
        }
        s.append(total.as_str());
        s.append(" ");
        line.put_string(s, fg(TEXT_DIM));
    }
    line
}

// ── Header ───────────────────────────────────────────────────────────────────

/// The category of an error, for the error card.
pub open spec fn category_text(e: ExecutionRow) -> Seq<char> {
    "category: "@ + text::text_or(e.error_category, "unknown"@)
}

/// The exit code, for the error card.
pub open spec fn exit_text(e: ExecutionRow) -> Seq<char> {
    match e.exit_code {
        Some(c) => "exit code: "@ + text::dec_int(c as int),
        None => ""@,
    }
}

/// What separates category and exit code in `inner_width` columns; both texts
/// are measured in bytes.
pub open spec fn card_gap(e: ExecutionRow, inner_width: nat) -> Seq<char> {
    let used = text::byte_len(category_text(e)) + text::byte_len(exit_text(e));
    if inner_width > used {
        text::repeated(" "@, (inner_width - used) as nat)
    } else {
        ""@
    }
}

/// The lines of the error card: category and exit code, then the detail if any.
pub open spec fn error_card(e: ExecutionRow, inner_width: nat) -> Seq<Seq<SpanView>> {
    let first = seq![
        style::sp(category_text(e), fg(TEXT_MUTED)),
        style::sp(card_gap(e, inner_width), plain()),
        style::sp(exit_text(e), fg(TEXT_MUTED)),
    ];
    let detail = text::text_or(e.error_detail, ""@);
    if detail.len() > 0 {
        seq![first, seq![style::sp(detail, fg(TEXT_NORMAL))]]
    } else {
        seq![first]
    }
}

/// The lines of the error card, `inner_width` columns wide.
pub fn error_card_lines(execution: &ExecutionRow, inner_width: usize) -> (r: Vec<Line>)
    ensures
        style::lines_view(r@) == error_card(*execution, inner_width as nat),
{
    let category: String = cat("category: ", str_or(&execution.error_category, "unknown"));
    let exit: String = match execution.exit_code {
        Some(c) => {
            let n: String = i64_text(c as i64);
            cat("exit code: ", n.as_str())
        },
        None => "".to_owned(),
    };
    let gap: usize = inner_width.saturating_sub(byte_count(category.as_str())).saturating_sub(
        byte_count(exit.as_str()),
    );
    let mut first: Line = Line::new();
    proof {
        reveal_strlit("");
        assert(""@ =~= text::repeated(" "@, 0));
    }
    first.put_string(category, fg(TEXT_MUTED));
    first.put_string(repeat_text(" ", gap), plain());
    first.put_string(exit, fg(TEXT_MUTED));
    let mut lines: Vec<Line> = no_lines();
    assert(first@ =~= error_card(*execution, inner_width as nat)[0]);
    push_line(&mut lines, first);
    let detail: &str = str_or(&execution.error_detail, "");
    if !detail.is_empty() {
        push_line(&mut lines, Line::of(detail, fg(TEXT_NORMAL)));
    }
    lines
}

/// The height of the error card whose text takes `visual_lines` lines: the
/// category, a few lines of detail, and the border.
pub open spec fn card_height(visual_lines: usize) -> u16 {
    if visual_lines <= ERROR_DETAIL_MAX_LINES + 1 {
        (2 + visual_lines) as u16
    } else {
        (2 + ERROR_DETAIL_MAX_LINES + 1) as u16
    }
}

/// The height of the error card whose text takes `visual_lines` lines.
pub fn error_card_height(visual_lines: usize) -> (r: u16)
    ensures
        r == card_height(visual_lines),
        r <= 6,
{
    if visual_lines <= ERROR_DETAIL_MAX_LINES + 1 {
        2 + visual_lines as u16
    } else {
        6
    }
}

/// The lines by which the error card is measured: category and exit code, then
/// the lines of the detail in a row.
pub open spec fn measured_card(e: ExecutionRow) -> Seq<Seq<SpanView>> {
    let first = seq![style::sp(category_text(e), plain()), style::sp(exit_text(e), plain())];
    let detail = text::text_or(e.error_detail, ""@);
    if detail.len() > 0 {
        seq![
            first,
            text::lines_of(detail).map_values(|t: Seq<char>| style::sp(t, plain())),
        ]
    } else {
        seq![first]
    }
}

/// The columns inside the error card of an area; at least one.
pub open spec fn card_columns(area_width: u16) -> u16 {
    if area_width > 4 {
        (area_width - 4) as u16
    } else {
        1
    }
}

/// The height of the error card of an execution in an area.
pub open spec fn error_rows(e: ExecutionRow, area_width: u16) -> u16 {
    card_height(style::wrapped_rows(measured_card(e), card_columns(area_width)))
}

/// The lines by which the error card is measured.
pub fn measured_card_lines(execution: &ExecutionRow) -> (r: Vec<Line>)
    ensures
        style::lines_view(r@) == measured_card(*execution),
{
    let category: String = cat("category: ", str_or(&execution.error_category, "unknown"));
    let exit: String = match execution.exit_code {
        Some(c) => {
            let n: String = i64_text(c as i64);
            cat("exit code: ", n.as_str())
        },
        None => "".to_owned(),
    };
    let mut first: Line = Line::new();
    first.put_string(category, plain());
    first.put_string(exit, plain());
    assert(first@ =~= measured_card(*execution)[0]);
    let mut lines: Vec<Line> = no_lines();
    push_line(&mut lines, first);
    let detail: &str = str_or(&execution.error_detail, "");
    if !detail.is_empty() {
        let parts: Vec<String> = text::split_lines(detail);
        let ghost want = text::texts(parts@).map_values(|t: Seq<char>| style::sp(t, plain()));
        let mut line: Line = Line::new();
        let mut i: usize = 0;
        assert(line@ =~= want.take(0));
        while i < parts.len()
            invariant
                i <= parts@.len(),
                want == text::texts(parts@).map_values(|t: Seq<char>| style::sp(t, plain())),
                line@ == want.take(i as int),
            decreases parts@.len() - i,
        {
            line.put(parts[i].as_str(), plain());
            assert(line@ =~= want.take(i + 1));
            i += 1;
        }
        assert(line@ =~= want);
        push_line(&mut lines, line);
    }
    assert(style::lines_view(lines@) =~= measured_card(*execution));
    lines
}

/// The height of the error card of an execution in an area.
pub fn compute_error_card_height(execution: &ExecutionRow, area_width: u16) -> (r: u16)
    requires
        area_width <= WIDEST,
    ensures
        r == error_rows(*execution, area_width),
        r <= 6,
{
    let columns: u16 = if area_width > 4 {
        area_width - 4
    } else {
        1
    };
    error_card_height(count_rows(&measured_card_lines(execution), columns))
}

/// The line of the intent.
pub open spec fn context_line(e: ExecutionRow) -> Seq<SpanView> {
    seq![
        style::sp("intent: "@, fg(TEXT_DIM)),
        match e.parsed_intent {
            Some(i) => style::sp(i@, fg(TEXT_MUTED)),
            None => style::sp("(unavailable)"@, fg(TEXT_DIM)),
        },
    ]
}

/// The line of the intent.
pub fn build_context_line(execution: &ExecutionRow) -> (r: Line)
    ensures
        r@ == context_line(*execution),
{
    let mut line: Line = Line::new();
    line.put("intent: ", fg(TEXT_DIM));
    match &execution.parsed_intent {
        Some(i) => line.put(i.as_str(), fg(TEXT_MUTED)),
        None => line.put("(unavailable)", fg(TEXT_DIM)),
    }
    line
}

/// When an execution left the queue; now while it is still in it.
pub open spec fn queue_end(e: ExecutionRow, now: i64) -> i64 {
    match e.picked_up_at {
        Some(t) => t,
        None => match e.started_at {
            Some(t) => t,
            None => now,
        },
    }
}

/// The line of the phases: queued, picked up, executing.
pub open spec fn timing_line(e: ExecutionRow, now: i64) -> Seq<SpanView> {
    let queued = seq![
        style::sp("timing: "@, fg(TEXT_DIM)),
        style::sp(
            "queued "@ + views::duration_text(views::since(queue_end(e, now), e.queued_at) as int),
            fg(WARNING),
        ),
    ];
    let picked = match (e.picked_up_at, e.started_at) {
        (Some(p), Some(s)) => queued.push(style::sp(" → "@, fg(TEXT_DIM))).push(
            style::sp("picked up "@ + views::duration_text(views::since(s, p) as int), fg(TEXT_MUTED)),
        ),
        _ => queued,
    };
    match e.started_at {
        Some(s) => {
            let end = match e.finished_at {
                Some(t) => t,
                None => now,
            };
            picked.push(style::sp(" → "@, fg(TEXT_DIM))).push(
                style::sp("executing "@ + views::duration_text(views::since(end, s) as int), fg(ACCENT)),
            )
        },
        None => picked,
    }
}

/// The line of the phases, as shown at `now_secs`.
pub fn build_timing_line(execution: &ExecutionRow, now_secs: i64) -> (r: Line)
    ensures
        r@ == timing_line(*execution, now_secs),
{
    let end: i64 = match execution.picked_up_at {
        Some(t) => t,
        None => match execution.started_at {
            Some(t) => t,
            None => now_secs,
        },
    };
    let mut line: Line = Line::new();
    line.put("timing: ", fg(TEXT_DIM));
    let queued: String = format_duration_secs(elapsed(end, execution.queued_at));
    line.put_string(cat("queued ", queued.as_str()), fg(WARNING));
    if let Some(p) = execution.picked_up_at {
        if let Some(s) = execution.started_at {
            let d: String = format_duration_secs(elapsed(s, p));
            line.put(" → ", fg(TEXT_DIM));
            line.put_string(cat("picked up ", d.as_str()), fg(TEXT_MUTED));
        }
    }
    if let Some(s) = execution.started_at {
        let finish: i64 = match execution.finished_at {
            Some(t) => t,
            None => now_secs,
        };
        let d: String = format_duration_secs(elapsed(finish, s));
        line.put(" → ", fg(TEXT_DIM));
        line.put_string(cat("executing ", d.as_str()), fg(ACCENT));
    }
    line
}

/// The label of a tab.
pub open spec fn tab_label(tab: Tab, events: nat) -> Seq<char> {
    match tab {
        Tab::Input => "Input"@,
        Tab::Output => "Output"@,
        Tab::Timeline => "Timeline ("@ + text::dec(events) + ")"@,
    }
}

/// The span of a tab in the tab bar.
pub open spec fn tab_span(tab: Tab, active: Tab, events: nat) -> SpanView {
    style::sp(
        tab_label(tab, events),
        if tab == active {
            fg(ACCENT).bold()
        } else {
            fg(TEXT_MUTED)
        },
    )
}

/// The tabs, with the active one marked, and a rule over the rest of the width.
pub open spec fn tab_bar(active: Tab, events: nat, width: nat) -> Seq<SpanView> {
    let tabs = seq![
        style::sp("╶ "@, fg(BORDER_DIM)),
        tab_span(Tab::Input, active, events),
        style::sp("    "@, plain()),
        tab_span(Tab::Output, active, events),
        style::sp("    "@, plain()),
        tab_span(Tab::Timeline, active, events),
    ];
    let used = "╶ "@.len() + tab_label(Tab::Input, events).len() + "    "@.len() + tab_label(
        Tab::Output,
        events,
    ).len() + "    "@.len() + tab_label(Tab::Timeline, events).len();
    if width > used + 1 {
        tabs.push(style::sp(" "@ + text::repeated("╶"@, (width - used - 1) as nat), fg(BORDER_DIM)))
    } else {
        tabs
    }
}

fn put_tab(line: &mut Line, tab: Tab, active: Tab, events: usize) -> (r: usize)
    requires
        text::dec(events as nat).len() <= 20,
    ensures
        final(line)@ == old(line)@.push(tab_span(tab, active, events as nat)),
        r == tab_label(tab, events as nat).len(),
        r <= 40,
{
    proof {
        reveal_strlit("Input");
        reveal_strlit("Output");
        reveal_strlit("Timeline (");
        reveal_strlit(")");
    }
    let label: String = match tab {
        Tab::Input => "Input".to_owned(),
        Tab::Output => "Output".to_owned(),
        Tab::Timeline => {
            let n: String = usize_text(events);
            cat3("Timeline (", n.as_str(), ")")
        },
    };
    let len: usize = char_count(label.as_str());
    let same: bool = tab == active;
    if same {
        line.put_string(label, fg(ACCENT).bold());
    } else {
        line.put_string(label, fg(TEXT_MUTED));
    }
    len
}

/// A number below the `k`-th power of ten has at most `k` digits.
proof fn lemma_dec_len(n: nat, k: nat)
    requires
        k >= 1,
        n < vstd::arithmetic::power::pow(10, k),
    ensures
        text::dec(n).len() <= k,
    decreases k,
{
    vstd::arithmetic::power::lemma_pow0(10);
    vstd::arithmetic::power::lemma_pow1(10);
    if n >= 10 {
        if k == 1 {
            assert(false);
        }
        vstd::arithmetic::power::lemma_pow_adds(10, (k - 1) as nat, 1);
        assert(n / 10 < vstd::arithmetic::power::pow(10, (k - 1) as nat)) by (nonlinear_arith)
            requires
                n < vstd::arithmetic::power::pow(10, (k - 1) as nat) * 10,
        ;
        lemma_dec_len(n / 10, (k - 1) as nat);
    }
}

/// A number of 64 bits has at most 20 digits.
proof fn lemma_dec_len_64(n: nat)
    requires
        n <= u64::MAX,
    ensures
        text::dec(n).len() <= 20,
{
    reveal_with_fuel(vstd::arithmetic::power::pow, 21);
    assert(vstd::arithmetic::power::pow(10, 20) == 100000000000000000000);
    lemma_dec_len(n, 20);
}

/// The tab bar, `width` columns wide, for `events` timeline events.
pub fn build_tab_bar(active: Tab, events: usize, width: usize) -> (r: Line)
    ensures
        r@ == tab_bar(active, events as nat, width as nat),
{
    proof {
        lemma_dec_len_64(events as nat);
        reveal_strlit("╶ ");
        reveal_strlit("    ");
    }
    let mut line: Line = Line::new();
    line.put("╶ ", fg(BORDER_DIM));
    let a: usize = put_tab(&mut line, Tab::Input, active, events);
    line.put("    ", plain());
    let b: usize = put_tab(&mut line, Tab::Output, active, events);
    line.put("    ", plain());
    let c: usize = put_tab(&mut line, Tab::Timeline, active, events);
    let used: usize = 2 + a + 4 + b + 4 + c;
    if width > used + 1 {
        let rule: String = repeat_text("╶", width - used - 1);
        line.put_string(cat(" ", rule.as_str()), fg(BORDER_DIM));
    }
    line
}

// ── Layout ───────────────────────────────────────────────────────────────────

/// Rows of the header besides the error card.
pub const HEADER_ROWS: u16 = 5;

/// The content rows that an area of `area_height` rows leaves.
pub fn content_rows(area_height: u16, error_card_h: u16) -> (r: usize)
    requires
        error_card_h <= 6,
    ensures
        r == if area_height >= 2 + error_card_h + HEADER_ROWS {
            area_height - 2 - error_card_h - HEADER_ROWS
        } else {
            0
        },
{
    let inner: u16 = area_height.saturating_sub(2);
    inner.saturating_sub(error_card_h + HEADER_ROWS) as usize
}

/// The columns inside the frame of an area.
pub open spec fn framed_columns(area_width: u16) -> u16 {
    if area_width >= 4 {
        (area_width - 4) as u16
    } else {
        0
    }
}

/// The height of the error card above the content; none without a failure.
pub open spec fn shown_card_rows(e: ExecutionRow, area_width: u16) -> u16 {
    if failure_status(e.status@) {
        error_rows(e, framed_columns(area_width))
    } else {
        0
    }
}

impl ExecutionDetailState {
    /// Takes over what drawing `content` in an area shows. Returned are the
    /// height of the error card and the rows that the content takes.
    pub fn measure(&mut self, content: &Vec<Line>, area_width: u16, area_height: u16) -> (r: (
        u16,
        usize,
    ))
        requires
            area_width <= WIDEST,
        ensures
            r.0 == shown_card_rows(old(self).execution, area_width),
            r.0 <= 6,
            r.1 == style::wrapped_rows(style::lines_view(content@), framed_columns(area_width)),
            ({
                let rows = if area_height >= 2 + r.0 + HEADER_ROWS {
                    (area_height - 2 - r.0 - HEADER_ROWS) as usize
                } else {
                    0
                };
                &&& final(self).tab_states@ == old(self).tab_states@.update(
                    old(self).active_tab.position(),
                    TabState {
                        scroll_offset: settled(old(self).active(), r.1, rows),
                        follow: old(self).active().follow,
                    },
                )
                &&& *final(self) == (ExecutionDetailState {
                    visible_rows: rows,
                    tab_states: final(self).tab_states,
                    ..*old(self)
                })
            }),
    {
        let columns: u16 = area_width.saturating_sub(4);
        let card: u16 = if is_failure_status(self.execution.status.as_str()) {
            compute_error_card_height(&self.execution, columns)
        } else {
            0
        };
        let rows: usize = count_rows(content, columns);
        self.settle(rows, content_rows(area_height, card));
        (card, rows)
    }
}

/// The rows of the parts of the view, from the top; a part for which there is
/// no row is left out.
#[derive(Debug, Clone, Copy)]
pub struct DetailRows {
    pub context: Option<u16>,
    pub timing: Option<u16>,
    pub tab_bar: Option<u16>,
    /// First row and height of the content.
    pub content: Option<(u16, u16)>,
}

/// The row `offset` rows below `top`, if it lies above `bottom`.
pub open spec fn row_at(top: int, offset: int, bottom: int) -> Option<u16> {
    if top + offset < bottom {
        Some((top + offset) as u16)
    } else {
        None
    }
}

/// Intent, timing, a blank row, the tab bar, a blank row and the content, one
/// below the other behind the error card.
pub fn detail_rows(inner_y: u16, inner_height: u16, error_card_h: u16) -> (r: DetailRows)
    requires
        inner_y + inner_height <= u16::MAX,
        error_card_h <= 6,
        inner_height > 0,
    ensures
        ({
            let top = inner_y + error_card_h;
            let bottom = inner_y + inner_height;
            &&& r.context == row_at(top, 0, bottom)
            &&& r.timing == row_at(top, 1, bottom)
            &&& r.tab_bar == row_at(top, 3, bottom)
            &&& r.content == if top + 5 < bottom {
                Some(((top + 5) as u16, (bottom - top - 5) as u16))
            } else {
                None
            }
        }),
{
    let bottom: u32 = inner_y as u32 + inner_height as u32;
    let top: u32 = inner_y as u32 + error_card_h as u32;
    DetailRows {
        context: if top < bottom {
            Some(top as u16)
        } else {
            None
        },
        timing: if top + 1 < bottom {
            Some((top + 1) as u16)
        } else {
            None
        },
        tab_bar: if top + 3 < bottom {
            Some((top + 3) as u16)
        } else {
            None
        },
        content: if top + 5 < bottom {
            Some(((top + 5) as u16, (bottom - top - 5) as u16))
        } else {
            None
        },
    }
}

// ── Content ──────────────────────────────────────────────────────────────────

/// The texts as lines in one colour.
pub open spec fn colored(lines: Seq<Seq<char>>, color: Color) -> Seq<Seq<SpanView>> {
    lines.map_values(|l: Seq<char>| seq![style::sp(l, fg(color))])
}

fn push_colored(out: &mut Vec<Line>, lines: &Vec<String>, color: Color)
    ensures
        style::lines_view(final(out)@) == style::lines_view(old(out)@) + colored(text::texts(lines@), color),
{
    let ghost start = style::lines_view(out@);
    let ghost all = colored(text::texts(lines@), color);
    let mut i: usize = 0;
    assert(start + all.take(0) =~= start);
    while i < lines.len()
        invariant
            i <= lines@.len(),
            all == colored(text::texts(lines@), color),
            style::lines_view(out@) == start + all.take(i as int),
        decreases lines@.len() - i,
    {
        push_line(out, Line::of(lines[i].as_str(), fg(color)));
        assert(all[i as int] == seq![style::sp(lines@[i as int]@, fg(color))]);
        assert(start + all.take(i + 1) =~= (start + all.take(i as int)).push(all[i as int]));
        i += 1;
    }
    assert(all.take(i as int) =~= all);
}

/// What the first lines of a log tell.
pub open spec fn told(lines: Seq<Seq<char>>) -> Seq<Seq<char>>
    decreases lines.len(),
{
    if lines.len() == 0 {
        seq![]
    } else {
        told(lines.drop_last()) + match payload::log_narrative(lines.last()) {
            Some(t) => t,
            None => seq![],
        }
    }
}

/// The log lines pretty-printed.
pub open spec fn pretty_log(lines: Seq<Seq<char>>) -> Seq<Seq<char>>
    decreases lines.len(),
{
    if lines.len() == 0 {
        seq![]
    } else {
        pretty_log(lines.drop_last()) + payload::log_lines(lines.last(), JsonViewMode::RawPretty)
    }
}

/// The content of the output tab: what the log tells, as Markdown, or the log
/// itself, pretty-printed.
pub open spec fn output_lines(lines: Seq<Seq<char>>, mode: JsonViewMode) -> Seq<Seq<SpanView>> {
    if lines.len() == 0 {
        seq![seq![style::sp("(no output)"@, fg(TEXT_MUTED))]]
    } else {
        match mode {
            JsonViewMode::Humanized => {
                let t = told(lines);
                if t.len() == 0 {
                    seq![seq![style::sp("(no text content)"@, fg(TEXT_MUTED))]]
                } else {
                    markdown::md_lines(markdown::markdown_tokens(text::joined(t, "\n"@)), markdown::border_prefix(None))
                }
            },
            JsonViewMode::RawPretty => colored(pretty_log(lines), TEXT_NORMAL),
        }
    }
}

fn told_by(lines: &Vec<String>) -> (r: Vec<String>)
    ensures
        text::texts(r@) == told(text::texts(lines@)),
{
    let mut out: Vec<String> = Vec::new();
    let ghost all = text::texts(lines@);
    let mut i: usize = 0;
    assert(text::texts(out@) =~= told(all.take(0)));
    while i < lines.len()
        invariant
            i <= lines@.len(),
            all == text::texts(lines@),
            text::texts(out@) == told(all.take(i as int)),
        decreases lines@.len() - i,
    {
        let ghost before = text::texts(out@);
        assert(all.take(i + 1).drop_last() =~= all.take(i as int));
        assert(all.take(i + 1).last() == lines@[i as int]@);
        match extract_content_from_log_line(lines[i].as_str()) {
            Some(t) => {
                let mut more: Vec<String> = t;
                let ghost extra = text::texts(more@);
                out.append(&mut more);
                assert(text::texts(out@) =~= before + extra);
            },
            None => {
                assert(before + Seq::<Seq<char>>::empty() =~= before);
            },
        }
        i += 1;
    }
    assert(all.take(i as int) =~= all);
    out
}

/// The content of the output tab.
pub fn build_output_lines(state: &ExecutionDetailState) -> (r: Vec<Line>)
    ensures
        style::lines_view(r@) == output_lines(text::texts(state.lines@), state.json_view_mode),
{
    let ghost all = text::texts(state.lines@);
    assert(all.len() == state.lines@.len());
    let mut out: Vec<Line> = no_lines();
    if state.lines.len() == 0 {
        push_line(&mut out, Line::of("(no output)", fg(TEXT_MUTED)));
        return out;
    }
    match state.json_view_mode {
        JsonViewMode::Humanized => {
            let t: Vec<String> = told_by(&state.lines);
            assert(text::texts(t@).len() == t@.len());
            if t.len() == 0 {
                push_line(&mut out, Line::of("(no text content)", fg(TEXT_MUTED)));
                out
            } else {
                let combined: String = join(&t, "\n");
                markdown_to_lines_standalone(combined.as_str())
            }
        },
        JsonViewMode::RawPretty => {
            let mut i: usize = 0;
            assert(style::lines_view(out@) =~= colored(pretty_log(all.take(0)), TEXT_NORMAL));
            while i < state.lines.len()
                invariant
                    i <= state.lines@.len(),
                    all == text::texts(state.lines@),
                    style::lines_view(out@) == colored(pretty_log(all.take(i as int)), TEXT_NORMAL),
                decreases state.lines@.len() - i,
            {
                assert(all.take(i + 1).drop_last() =~= all.take(i as int));
                assert(all.take(i + 1).last() == state.lines@[i as int]@);
                let more: Vec<String> = format_log_line(
                    state.lines[i].as_str(),
                    JsonViewMode::RawPretty,
                );
                push_colored(&mut out, &more, TEXT_NORMAL);
                assert(colored(pretty_log(all.take(i + 1)), TEXT_NORMAL) =~= colored(
                    pretty_log(all.take(i as int)),
                    TEXT_NORMAL,
                ) + colored(text::texts(more@), TEXT_NORMAL));
                i += 1;
            }
            assert(all.take(i as int) =~= all);
            out
        },
    }
}

/// Whether an event reports a problem.
pub open spec fn is_problem(event_type: Seq<char>) -> bool {
    text::contains_text(event_type, "error"@) || text::contains_text(event_type, "fail"@)
}

/// The line of an event that happened at the time shown as `stamp`.
pub open spec fn event_line(ev: ExecutionEventRow, stamp: Seq<char>) -> Seq<SpanView> {
    let bad = is_problem(ev.event_type@);
    seq![
        style::sp("  "@ + stamp + "  "@, fg(TEXT_DIM)),
        style::sp(text::padded_right(views::truncated(text::text_or(ev.tool_name, ev.event_type@), 16), 16), fg(TEXT_MUTED)),
        style::sp(
            if bad {
                "✗   "@
            } else {
                "    "@
            },
            fg(
                if bad {
                    FAILURE
                } else {
                    TEXT_DIM
                },
            ),
        ),
        style::sp(
            views::truncated(ev.summary@, TIMELINE_SUMMARY_MAX as nat),
            fg(
                if bad {
                    FAILURE
                } else {
                    TEXT_NORMAL
                },
            ),
        ),
    ]
}

/// The content of the timeline tab.
pub open spec fn timeline_lines(
    events: Seq<ExecutionEventRow>,
    stamps: Seq<Seq<char>>,
    truncated_list: bool,
) -> Seq<Seq<SpanView>> {
    if events.len() == 0 {
        seq![seq![style::sp("  (no events)"@, fg(TEXT_MUTED))]]
    } else {
        let rows = Seq::new(events.len(), |i: int| event_line(events[i], stamps[i]));
        if truncated_list {
            rows.push(
                seq![style::sp("  (showing first "@ + text::dec(events.len()) + " events)"@, fg(TEXT_DIM))],
            )
        } else {
            rows
        }
    }
}

/// The content of the timeline tab; `stamps` holds each event's time as shown.
pub fn build_timeline_lines(events: &[ExecutionEventRow], stamps: &Vec<String>, truncated_list: bool) -> (r:
    Vec<Line>)
    requires
        stamps@.len() == events@.len(),
    ensures
        style::lines_view(r@) == timeline_lines(events@, text::texts(stamps@), truncated_list),
{
    let mut out: Vec<Line> = no_lines();
    if events.len() == 0 {
        push_line(&mut out, Line::of("  (no events)", fg(TEXT_MUTED)));
        return out;
    }
    let ghost rows = Seq::new(
        events@.len(),
        |i: int| event_line(events@[i], text::texts(stamps@)[i]),
    );
    let mut i: usize = 0;
    assert(style::lines_view(out@) =~= rows.take(0));
    while i < events.len()
        invariant
            i <= events@.len(),
            stamps@.len() == events@.len(),
            rows == Seq::new(
                events@.len(),
                |i: int| event_line(events@[i], text::texts(stamps@)[i]),
            ),
            style::lines_view(out@) == rows.take(i as int),
        decreases events@.len() - i,
    {
        let ev: &ExecutionEventRow = &events[i];
        let kind: &str = ev.event_type.as_str();
        let bad: bool = contains(kind, "error") || contains(kind, "fail");
        let mut line: Line = Line::new();
        line.put_string(cat3("  ", stamps[i].as_str(), "  "), fg(TEXT_DIM));
        let tool: String = truncate(str_or(&ev.tool_name, kind), 16);
        line.put_string(pad_right(tool.as_str(), 16), fg(TEXT_MUTED));
        if bad {
            line.put("✗   ", fg(FAILURE));
        } else {
            line.put("    ", fg(TEXT_DIM));
        }
        let color: Color = if bad {
            FAILURE
        } else {
            TEXT_NORMAL
        };
        line.put_string(truncate(ev.summary.as_str(), TIMELINE_SUMMARY_MAX), fg(color));
        assert(text::texts(stamps@)[i as int] == stamps@[i as int]@);
        assert(line@ =~= event_line(events@[i as int], text::texts(stamps@)[i as int]));
        push_line(&mut out, line);
        assert(style::lines_view(out@) =~= rows.take(i + 1));
        i += 1;
    }
    assert(rows.take(i as int) =~= rows);
    if truncated_list {
        let n: String = usize_text(events.len());
        let note: String = cat3("  (showing first ", n.as_str(), " events)");
        push_line(&mut out, Line::of(note.as_str(), fg(TEXT_DIM)));
    }
    out
}

/// The content of the input tab: whether it is linked, and the payload, as
/// flattened JSON or as Markdown.
pub open spec fn input_lines(payload: Option<Seq<char>>, linked: bool, mode: JsonViewMode) -> Seq<
    Seq<SpanView>,
> {
    let head = seq![
        seq![
            if linked {
                style::sp("[linked]"@, fg(SUCCESS))
            } else {
                style::sp("[unlinked]"@, fg(TEXT_DIM))
            },
        ],
        seq![],
    ];
    match payload {
        Some(p) => if text::occurs_at(text::trimmed_start(p), "{"@, 0) {
            head + colored(
                payload::clamped(text::lines_of(payload::payload_text(p, mode)), INPUT_MAX_LINES as nat),
                TEXT_MUTED,
            )
        } else {
            head + markdown::md_lines(markdown::markdown_tokens(p), markdown::border_prefix(None))
        },
        None => head.push(
            seq![
                style::sp(
                    if linked {
                        "(no input)"@
                    } else {
                        "(input unavailable: execution not linked to dispatch message)"@
                    },
                    fg(TEXT_MUTED),
                ),
            ],
        ),
    }
}

/// The content of the input tab.
pub fn build_input_lines(state: &ExecutionDetailState) -> (r: Vec<Line>)
    ensures
        style::lines_view(r@) == input_lines(
            text::opt_text(state.input_payload),
            state.input_linked,
            state.json_view_mode,
        ),
{
    let mut out: Vec<Line> = no_lines();
    if state.input_linked {
        push_line(&mut out, Line::of("[linked]", fg(SUCCESS)));
    } else {
        push_line(&mut out, Line::of("[unlinked]", fg(TEXT_DIM)));
    }
    push_line(&mut out, Line::new());
    let ghost head = style::lines_view(out@);
    match &state.input_payload {
        Some(p) => {
            let bare: String = trim_start(p.as_str());
            if starts_with(bare.as_str(), "{") {
                let lines: Vec<String> = format_payload_lines(
                    p.as_str(),
                    state.json_view_mode,
                    INPUT_MAX_LINES,
                );
                push_colored(&mut out, &lines, TEXT_MUTED);
            } else {
                let mut more: Vec<Line> = markdown_to_lines_standalone(p.as_str());
                let ghost extra = style::lines_view(more@);
                out.append(&mut more);
                assert(style::lines_view(out@) =~= head + extra);
            }
        },
        None => {
            if state.input_linked {
                push_line(&mut out, Line::of("(no input)", fg(TEXT_MUTED)));
            } else {
                push_line(
                    &mut out,
                    Line::of(
                        "(input unavailable: execution not linked to dispatch message)",
                        fg(TEXT_MUTED),
                    ),
                );
            }
        },
    }
    out
}

/// The content of the active tab; `stamps` holds each timeline event's time as shown.
pub fn build_content_lines(state: &ExecutionDetailState, stamps: &Vec<String>) -> (r: Vec<Line>)
    requires
        stamps@.len() == state.timeline_events@.len(),
    ensures
        style::lines_view(r@) == match state.active_tab {
            Tab::Input => input_lines(
                text::opt_text(state.input_payload),
                state.input_linked,
                state.json_view_mode,
            ),
            Tab::Output => output_lines(text::texts(state.lines@), state.json_view_mode),
            Tab::Timeline => timeline_lines(
                state.timeline_events@,
                text::texts(stamps@),
                state.timeline_truncated,
            ),
        },
{
    match state.active_tab {
        Tab::Input => build_input_lines(state),
        Tab::Output => build_output_lines(state),
        Tab::Timeline => build_timeline_lines(
            state.timeline_events.as_slice(),
            stamps,
            state.timeline_truncated,
        ),
    }
}

// ── Laws ─────────────────────────────────────────────────────────────────────

/// How the detail view opens: on the output of an execution that has run, at its
/// end where it failed and following it where it runs; on the input of any other.
pub proof fn law_how_the_view_opens()
    ensures
        opening("failed"@) == (Tab::Output, false, usize::MAX),
        opening("crashed"@) == (Tab::Output, false, usize::MAX),
        opening("timed_out"@) == (Tab::Output, false, usize::MAX),
        opening("executing"@) == (Tab::Output, true, 0usize),
        opening("picked_up"@) == (Tab::Output, true, 0usize),
        opening("completed"@) == (Tab::Output, false, 0usize),
        opening("queued"@) == (Tab::Input, false, 0usize),
        opening("cancelled"@) == (Tab::Input, false, 0usize),
        failure_status("failed"@) && failure_status("crashed"@) && failure_status("timed_out"@),
        !failure_status("completed"@) && !failure_status("executing"@) && !failure_status(
            "queued"@,
        ) && !failure_status("cancelled"@) && !failure_status("picked_up"@),
        status_marker("executing"@) == MARKER_RUNNING@ && status_marker("picked_up"@)
            == MARKER_RUNNING@,
        status_marker("queued"@) == MARKER_QUEUED@,
        status_marker("completed"@) == MARKER_COMPLETED@,
        status_marker("failed"@) == MARKER_FAILED@ && status_marker("crashed"@) == MARKER_FAILED@,
        status_marker("timed_out"@) == MARKER_TIMEOUT@,
        status_marker("cancelled"@) == " "@,
{
    views::lemma_states_apart();
}

/// The lines that are shown are those of the log; where there are none, those of
/// the execution's preview.
pub proof fn law_lines_of_the_log(e: ExecutionRow, path: String, content: String, len: Option<u64>)
    ensures
        text::lines_of(content@).len() > 0 ==> opening_lines(
            e,
            Some(LogFile { path, content: Some(content), len }),
        ) == text::lines_of(content@),
        text::lines_of(content@).len() == 0 ==> opening_lines(
            e,
            Some(LogFile { path, content: Some(content), len }),
        ) == opening_lines(e, None),
        opening_lines(e, Some(LogFile { path, content: None, len })) == opening_lines(e, None),
        e.output_preview matches Some(p) ==> opening_lines(e, None) == text::lines_of(p@),
        e.output_preview is None ==> opening_lines(e, None).len() == 0,
{
}

/// The tabs follow each other: input, output, timeline, and the input again.
pub proof fn law_tabs_follow_each_other()
    ensures
        Tab::Input.position() == 0 && Tab::Output.position() == 1 && Tab::Timeline.position() == 2,
        Tab::at((Tab::Input.position() + 1) % 3) == Tab::Output,
        Tab::at((Tab::Output.position() + 1) % 3) == Tab::Timeline,
        Tab::at((Tab::Timeline.position() + 1) % 3) == Tab::Input,
        Tab::at((Tab::Input.position() + 2) % 3) == Tab::Timeline,
        Tab::at((Tab::Output.position() + 2) % 3) == Tab::Input,
        Tab::at((Tab::Timeline.position() + 2) % 3) == Tab::Output,
{
}

/// A view that follows shows the end; any other stays where it is, as long as that
/// is not past the end.
pub proof fn law_view_stays_inside(ts: TabState, lines: usize, rows: usize)
    ensures
        lines >= rows && ts.follow ==> settled(ts, lines, rows) == lines - rows,
        lines < rows ==> settled(ts, lines, rows) == 0,
        lines >= rows && !ts.follow && ts.scroll_offset <= lines - rows ==> settled(
            ts,
            lines,
            rows,
        ) == ts.scroll_offset,
        lines >= rows && !ts.follow && ts.scroll_offset > lines - rows ==> settled(ts, lines, rows)
            == lines - rows,
        other_mode(JsonViewMode::Humanized) == JsonViewMode::RawPretty,
{
}

/// What the title tells: the id, the agent, the state, how long it took, and the
/// attempt where it is not the first.
pub proof fn law_title_tells(e: ExecutionRow)
    ensures
        ({
            let t = detail_title(e);
            &&& e.id@.len() <= 18 ==> t[1].text == e.id@
            &&& t[3].text == e.agent_alias@
            &&& t[5].text == status_marker(e.status@) + " "@ + views::exec_label(e.status@)
            &&& t[5].style.fg == Some(theme::exec_color(e.status@))
            &&& e.duration_ms matches Some(ms) ==> t[7].text == views::duration_ms_text(ms as int)
            &&& e.duration_ms is None ==> t[7].text == "-"@
            &&& e.attempt_number <= 1 ==> t.len() == 9
            &&& e.attempt_number > 1 ==> t.len() == 11 && t[9].text == "#"@ + text::dec_int(
                e.attempt_number as int,
            )
        }),
{
}

/// What the footer tells of the position: the line at the top of all lines, or
/// the lines alone while it follows.
pub proof fn law_footer_tells_the_position(
    mode: JsonViewMode,
    follow: bool,
    offset: nat,
    lines: nat,
)
    ensures
        lines == 0 ==> detail_footer(mode, follow, offset, lines).last().text == ""@,
        lines > 0 && follow ==> detail_footer(mode, follow, offset, lines).last().text == "  "@
            + text::dec(lines) + " "@,
        lines > 0 && !follow ==> detail_footer(mode, follow, offset, lines).last().text == "  "@
            + text::dec(offset + 1) + "/"@ + text::dec(lines) + " "@,
        detail_footer(mode, true, offset, lines).len() == detail_footer(
            mode,
            false,
            offset,
            lines,
        ).len() + 1,
        detail_footer(mode, true, offset, lines)[13].text == "  ◉"@,
        detail_footer(JsonViewMode::RawPretty, false, offset, lines)[13].text == "  [json]"@,
{
}

/// What the error card tells: the category, the exit code and the detail.
pub proof fn law_error_card_tells(e: ExecutionRow, width: nat)
    ensures
        e.error_category matches Some(c) ==> error_card(e, width)[0][0].text == "category: "@ + c@,
        e.error_category is None ==> error_card(e, width)[0][0].text == "category: unknown"@,
        e.exit_code matches Some(c) ==> error_card(e, width)[0][2].text == "exit code: "@
            + text::dec_int(c as int),
        e.exit_code is None ==> error_card(e, width)[0][2].text == ""@,
        e.error_detail matches Some(d) ==> (d@.len() > 0 ==> error_card(e, width).len() == 2
            && error_card(e, width)[1][0].text == d@),
        e.error_detail is None ==> error_card(e, width).len() == 1,
        measured_card(e)[0][0].text == error_card(e, width)[0][0].text,
        measured_card(e)[0][1].text == error_card(e, width)[0][2].text,
        measured_card(e).len() == error_card(e, width).len(),
{
    reveal_strlit("category: ");
    reveal_strlit("unknown");
    reveal_strlit("category: unknown");
    reveal_strlit("");
    assert("category: "@ + "unknown"@ =~= "category: unknown"@);
}

/// The error card is as high as its lines and its frame, six rows at most, and is
/// shown for executions that failed.
pub proof fn law_height_of_the_error_card(lines: usize, e: ExecutionRow, width: u16)
    ensures
        lines <= 4 ==> card_height(lines) == lines + 2,
        lines > 4 ==> card_height(lines) == 6,
        !failure_status(e.status@) ==> shown_card_rows(e, width) == 0,
        failure_status(e.status@) && width >= 9 ==> shown_card_rows(e, width) == card_height(
            style::wrapped_rows(measured_card(e), (width - 8) as u16),
        ),
        width >= 5 ==> card_columns(width) == width - 4,
        width >= 4 ==> framed_columns(width) == width - 4,
{
}

/// What is told of an execution's intent and times: how long it waited until it
/// was picked up, how long until it started, and how long it has run.
pub proof fn law_timing_tells(e: ExecutionRow, now: i64)
    ensures
        e.parsed_intent matches Some(i) ==> context_line(e)[1].text == i@,
        e.parsed_intent is None ==> context_line(e)[1].text == "(unavailable)"@,
        e.picked_up_at matches Some(p) ==> timing_line(e, now)[1].text == "queued "@
            + views::duration_text(views::since(p, e.queued_at) as int),
        e.picked_up_at is None ==> (e.started_at matches Some(s) ==> timing_line(e, now)[1].text
            == "queued "@ + views::duration_text(views::since(s, e.queued_at) as int)),
        e.picked_up_at is None && e.started_at is None ==> timing_line(e, now)[1].text == "queued "@
            + views::duration_text(views::since(now, e.queued_at) as int) && timing_line(
            e,
            now,
        ).len() == 2,
        e.picked_up_at matches Some(p) ==> (e.started_at matches Some(s) ==> timing_line(
            e,
            now,
        )[3].text == "picked up "@ + views::duration_text(views::since(s, p) as int)),
        e.started_at matches Some(s) ==> (e.finished_at matches Some(f) ==> timing_line(
            e,
            now,
        ).last().text == "executing "@ + views::duration_text(views::since(f, s) as int)),
        e.started_at matches Some(s) ==> (e.finished_at is None ==> timing_line(
            e,
            now,
        ).last().text == "executing "@ + views::duration_text(views::since(now, s) as int)),
{
}

/// The bar names the tabs, with the one in view made bold, and fills its width.
pub proof fn law_tab_bar_names_the_tabs(active: Tab, events: nat, width: nat)
    ensures
        ({
            let b = tab_bar(active, events, width);
            &&& b[1].text == "Input"@ && b[3].text == "Output"@ && b[5].text == "Timeline ("@
                + text::dec(events) + ")"@
            &&& b[1].style.bold <==> active == Tab::Input
            &&& b[3].style.bold <==> active == Tab::Output
            &&& b[5].style.bold <==> active == Tab::Timeline
        }),
{
}

/// The rows of the view follow each other from the card to the bottom.
pub proof fn law_rows_of_the_view(top: int, offset: int, bottom: int)
    requires
        0 <= top + offset,
        bottom <= u16::MAX,
    ensures
        top + offset < bottom ==> row_at(top, offset, bottom) == Some((top + offset) as u16),
        top + offset >= bottom ==> row_at(top, offset, bottom) is None,
{
}

/// One log line more adds what is told of it, and nothing where nothing is.
pub proof fn law_one_log_line_more(lines: Seq<Seq<char>>, l: Seq<char>)
    ensures
        payload::log_narrative(l) matches Some(t) ==> told(lines.push(l)) == told(lines) + t,
        payload::log_narrative(l) is None ==> told(lines.push(l)) == told(lines),
        pretty_log(lines.push(l)) == pretty_log(lines) + payload::log_lines(
            l,
            JsonViewMode::RawPretty,
        ),
        told(Seq::empty()).len() == 0,
        pretty_log(Seq::empty()).len() == 0,
{
    assert(lines.push(l).drop_last() =~= lines);
    assert(told(lines) + Seq::<Seq<char>>::empty() =~= told(lines));
}

/// What the output shows: that there is none, that nothing of it is text, its
/// text, or in the raw view each of its lines.
pub proof fn law_output_shows(lines: Seq<Seq<char>>, i: int)
    ensures
        output_lines(Seq::empty(), JsonViewMode::Humanized)[0][0].text == "(no output)"@,
        output_lines(Seq::empty(), JsonViewMode::RawPretty)[0][0].text == "(no output)"@,
        lines.len() > 0 && told(lines).len() == 0 ==> output_lines(lines, JsonViewMode::Humanized).len()
            == 1 && output_lines(lines, JsonViewMode::Humanized)[0][0].text == "(no text content)"@,
        lines.len() > 0 ==> output_lines(lines, JsonViewMode::RawPretty).len() == pretty_log(
            lines,
        ).len(),
        lines.len() > 0 && 0 <= i < pretty_log(lines).len() ==> output_lines(
            lines,
            JsonViewMode::RawPretty,
        )[i][0].text == pretty_log(lines)[i],
{
}

/// What the timeline shows: each event in order with its time, tool and summary,
/// problems marked, and how many there are where more were left out.
pub proof fn law_timeline_shows_its_events(
    events: Seq<ExecutionEventRow>,
    stamps: Seq<Seq<char>>,
    i: int,
)
    requires
        0 <= i < events.len(),
        stamps.len() == events.len(),
    ensures
        ({
            let l = timeline_lines(events, stamps, false);
            let m = timeline_lines(events, stamps, true);
            let e = events[i];
            &&& l.len() == events.len() && m.len() == events.len() + 1
            &&& m[i] == l[i]
            &&& m.last()[0].text == "  (showing first "@ + text::dec(events.len()) + " events)"@
            &&& l[i][0].text == "  "@ + stamps[i] + "  "@
            &&& e.tool_name matches Some(t) ==> (t@.len() <= 16 ==> l[i][1].text
                == text::padded_right(t@, 16))
            &&& e.tool_name is None && e.event_type@.len() <= 16 ==> l[i][1].text
                == text::padded_right(e.event_type@, 16)
            &&& l[i][2].text == "✗   "@ <==> is_problem(e.event_type@)
            &&& e.summary@.len() <= 60 ==> l[i][3].text == e.summary@
        }),
        timeline_lines(Seq::empty(), Seq::empty(), false)[0][0].text == "  (no events)"@,
        is_problem(events[i].event_type@) <==> text::contains_text(
            events[i].event_type@,
            "error"@,
        ) || text::contains_text(events[i].event_type@, "fail"@),
{
    reveal_strlit("✗   ");
    reveal_strlit("    ");
    assert("✗   "@[0] == '✗' && "    "@[0] == ' ');
}

/// What the input shows: whether it is linked to a message, and that message or
/// why there is none.
pub proof fn law_input_shows(p: Seq<char>, mode: JsonViewMode)
    ensures
        input_lines(Some(p), true, mode)[0][0].text == "[linked]"@,
        input_lines(Some(p), false, mode)[0][0].text == "[unlinked]"@,
        input_lines(None, true, mode)[2][0].text == "(no input)"@,
        input_lines(None, false, mode)[2][0].text
            == "(input unavailable: execution not linked to dispatch message)"@,
        text::trimmed_start(p).len() > 0 && text::trimmed_start(p)[0] == '{' ==> input_lines(
            Some(p),
            true,
            mode,
        ).len() == 2 + payload::clamped(
            text::lines_of(payload::payload_text(p, mode)),
            200,
        ).len(),
        !(text::trimmed_start(p).len() > 0 && text::trimmed_start(p)[0] == '{') ==> input_lines(
            Some(p),
            true,
            mode,
        ).skip(2) == markdown::md_lines(
            markdown::markdown_tokens(p),
            markdown::border_prefix(None),
        ),
{
    reveal_strlit("{");
    let t = text::trimmed_start(p);
    if t.len() > 0 {
        assert(t.subrange(0, 1)[0] == t[0]);
        assert("{"@[0] == '{');
        if t[0] == '{' {
            assert(t.subrange(0, 1) =~= "{"@);
        }
    }
    if !(t.len() > 0 && t[0] == '{') {
        assert(!text::occurs_at(t, "{"@, 0));
        let md = markdown::md_lines(markdown::markdown_tokens(p), markdown::border_prefix(None));
        assert(input_lines(Some(p), true, mode).skip(2) =~= md);
    }
}

/// What is added to a log is shown below what was there, at the end where the
/// output is followed; the tabs beside it stay as they were.
pub proof fn law_log_grows_at_its_end(
    v: ExecutionDetailState,
    w: ExecutionDetailState,
    text: Seq<char>,
    len: u64,
    i: int,
)
    requires
        w.appended(v, text, len),
        v.tab_states@.len() == 3,
    ensures
        text::texts(w.lines@).len() == text::texts(v.lines@).len() + text::lines_of(text).len(),
        0 <= i < v.lines@.len() ==> w.lines@[i]@ == v.lines@[i]@,
        0 <= i < text::lines_of(text).len() ==> w.lines@[v.lines@.len() + i]@ == text::lines_of(
            text,
        )[i],
        w.file_pos == len,
        v.tab_states@[1].follow ==> w.tab_states@[1].scroll_offset == usize::MAX
            && w.tab_states@[1].follow,
        !v.tab_states@[1].follow ==> w.tab_states@[1] == v.tab_states@[1],
        w.tab_states@[0] == v.tab_states@[0] && w.tab_states@[2] == v.tab_states@[2],
        w.execution == v.execution && w.active_tab == v.active_tab,
{
    assert(text::texts(w.lines@).len() == w.lines@.len());
    assert(text::texts(v.lines@).len() == v.lines@.len());
    if 0 <= i < v.lines@.len() {
        assert(text::texts(w.lines@)[i] == text::texts(v.lines@)[i]);
    }
    if 0 <= i < text::lines_of(text).len() {
        assert(text::texts(w.lines@)[v.lines@.len() + i] == text::lines_of(text)[i]);
    }
}

/// Scrolling goes by as many lines as it is asked for, and stops at the ends.
pub proof fn law_scrolling_stops_at_the_ends(offset: usize, n: usize)
    ensures
        offset >= n ==> up_by(offset, n) == offset - n,
        offset < n ==> up_by(offset, n) == 0,
        offset + n <= usize::MAX ==> down_by(offset, n) == offset + n,
        offset + n > usize::MAX ==> down_by(offset, n) == usize::MAX,
        offset + n <= usize::MAX ==> up_by(down_by(offset, n), n) == offset,
{
}

} // verus!
