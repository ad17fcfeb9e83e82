//! The conversation of a thread: messages and executions on one timeline.
use crate::clock::format_timestamp;
use crate::clock;
use crate::dashboard::theme::{
    thread_status_color, ACCENT, BORDER_DIM, FAILURE, SUCCESS_DIM, TEXT_BRIGHT, TEXT_DIM,
    TEXT_MUTED,
};
use crate::dashboard::theme;
use crate::dashboard::views::markdown::markdown_to_lines;
use crate::dashboard::views::markdown;
use crate::dashboard::views::{format_duration_ms, truncate};
use crate::dashboard::views;
use crate::sort::{stable_sort, Order, Ranked};
use crate::sort;
use crate::store::{ExecutionRow, MessageRow};
use crate::style::{count_rows, fg, no_lines, plain, push_line, Color, Line, SpanView, WIDEST};
use crate::style;
use crate::text::{cat, cat3, repeat_text, str_eq, usize_text};
use crate::text;
use vstd::prelude::*;
use vstd::seq_lib::*;

verus! {

/// The state of the conversation view.
#[derive(Clone, Debug)]
pub struct ConversationViewState {
    pub thread_id: String,
    pub batch_id: Option<String>,
    pub thread_status: String,
    pub messages: Vec<MessageRow>,
    pub executions: Vec<ExecutionRow>,
    /// The display line at the top.
    pub scroll_offset: usize,
    /// Whether new messages scroll the view to the bottom.
    pub follow_mode: bool,
    /// The highest message id seen so far.
    pub last_message_id: Option<i64>,
    /// Rows in sight when last drawn.
    pub visible_rows: usize,
}

/// The highest id of `messages`.
pub open spec fn highest_id(messages: Seq<MessageRow>) -> Option<i64>
    decreases messages.len(),
{
    if messages.len() == 0 {
        None
    } else {
        match highest_id(messages.drop_last()) {
            Some(m) if m >= messages.last().id => Some(m),
            _ => Some(messages.last().id),
        }
    }
}

fn max_id(messages: &Vec<MessageRow>) -> (r: Option<i64>)
    ensures
        r == highest_id(messages@),
{
    let mut best: Option<i64> = None;
    let mut i: usize = 0;
    while i < messages.len()
        invariant
            i <= messages@.len(),
            best == highest_id(messages@.take(i as int)),
        decreases messages@.len() - i,
    {
        assert(messages@.take(i + 1).drop_last() =~= messages@.take(i as int));
        assert(messages@.take(i + 1).last() == messages@[i as int]);
        let id: i64 = messages[i].id;
        best = match best {
            Some(m) => if m >= id {
                Some(m)
            } else {
                Some(id)
            },
            None => Some(id),
        };
        i += 1;
    }
    assert(messages@.take(i as int) =~= messages@);
    best
}

impl ConversationViewState {
    /// A view of the given thread, at the bottom and following.
    pub fn new(
        thread_id: String,
        batch_id: Option<String>,
        thread_status: String,
        messages: Vec<MessageRow>,
        executions: Vec<ExecutionRow>,
    ) -> (r: ConversationViewState)
        ensures
            r == (ConversationViewState {
                thread_id,
                batch_id,
                thread_status,
                messages,
                executions,
                scroll_offset: usize::MAX,
                follow_mode: true,
                last_message_id: highest_id(messages@),
                visible_rows: 20,
            }),
    {
        let last_message_id: Option<i64> = max_id(&messages);
        ConversationViewState {
            thread_id,
            batch_id,
            thread_status,
            messages,
            executions,
            scroll_offset: usize::MAX,
            follow_mode: true,
            last_message_id,
            visible_rows: 20,
        }
    }

    /// Scrolls up, and stops following unless `n` is zero.
    pub fn scroll_up(&mut self, n: usize)
        ensures
            *final(self) == (ConversationViewState {
                scroll_offset: if old(self).scroll_offset >= n {
                    (old(self).scroll_offset - n) as usize
                } else {
                    0
                },
                follow_mode: old(self).follow_mode && n == 0,
                ..*old(self)
            }),
    {
        self.scroll_offset = self.scroll_offset.saturating_sub(n);
        if n > 0 {
            self.follow_mode = false;
        }
    }

    /// Scrolls down.
    pub fn scroll_down(&mut self, n: usize)
        ensures
            *final(self) == (ConversationViewState {
                scroll_offset: if old(self).scroll_offset + n <= usize::MAX {
                    (old(self).scroll_offset + n) as usize
                } else {
                    usize::MAX
                },
                ..*old(self)
            }),
    {
        self.scroll_offset = self.scroll_offset.saturating_add(n);
    }

    /// Jumps to the first line and stops following.
    pub fn scroll_to_top(&mut self)
        ensures
            *final(self) == (ConversationViewState {
                scroll_offset: 0,
                follow_mode: false,
                ..*old(self)
            }),
    {
        self.scroll_offset = 0;
        self.follow_mode = false;
    }

    /// Jumps to the bottom.
    pub fn scroll_to_bottom(&mut self)
        ensures
            *final(self) == (ConversationViewState { scroll_offset: usize::MAX, ..*old(self) }),
    {
        self.scroll_offset = usize::MAX;
    }

    /// Turns following on, at the bottom, or off.
    pub fn toggle_follow(&mut self)
        ensures
            *final(self) == (ConversationViewState {
                follow_mode: !old(self).follow_mode,
                scroll_offset: if old(self).follow_mode {
                    old(self).scroll_offset
                } else {
                    usize::MAX
                },
                ..*old(self)
            }),
    {
        self.follow_mode = !self.follow_mode;
        if self.follow_mode {
            self.scroll_to_bottom();
        }
    }

    /// Takes over new messages, the executions as they are now, and the status
    /// if it is known. While following, the view stays at the bottom.
    pub fn take_over(
        &mut self,
        new_messages: Vec<MessageRow>,
        executions: Vec<ExecutionRow>,
        thread_status: Option<String>,
    )
        ensures
            final(self).messages@ == old(self).messages@ + new_messages@,
            *final(self) == (ConversationViewState {
                messages: final(self).messages,
                last_message_id: if new_messages@.len() > 0 {
                    highest_id(new_messages@)
                } else {
                    old(self).last_message_id
                },
                executions,
                thread_status: match thread_status {
                    Some(s) => s,
                    None => old(self).thread_status,
                },
                scroll_offset: if old(self).follow_mode {
                    usize::MAX
                } else {
                    old(self).scroll_offset
                },
                ..*old(self)
            }),
    {
        if new_messages.len() > 0 {
            self.last_message_id = max_id(&new_messages);
        }
        let mut more: Vec<MessageRow> = new_messages;
        self.messages.append(&mut more);
        self.executions = executions;
        if let Some(s) = thread_status {
            self.thread_status = s;
        }
        if self.follow_mode {
            self.scroll_to_bottom();
        }
    }

    /// Whether the thread takes more messages.
    pub fn is_active(&self) -> (r: bool)
        ensures
            r == (self.thread_status@ == "Active"@ || self.thread_status@ == "active"@),
    {
        str_eq(self.thread_status.as_str(), "Active") || str_eq(
            self.thread_status.as_str(),
            "active",
        )
    }

    /// Takes over what a drawing of `line_count` display lines in `visible_rows`
    /// rows shows: the last page while following, the stored offset or the last
    /// page otherwise.
    pub fn settle(&mut self, line_count: usize, visible_rows: usize)
        ensures
            *final(self) == settled(*old(self), line_count, visible_rows),
    {
        self.visible_rows = visible_rows;
        let max: usize = line_count.saturating_sub(visible_rows);
        if self.follow_mode || self.scroll_offset > max {
            self.scroll_offset = max;
        }
    }

    /// Takes over what drawing `content` in a framed area shows.
    pub fn measure(&mut self, content: &Vec<Line>, area_width: u16, area_height: u16)
        requires
            area_width <= WIDEST,
        ensures
            *final(self) == settled(
                *old(self),
                framed_rows(style::lines_view(content@), area_width),
                if area_height >= 2 {
                    (area_height - 2) as usize
                } else {
                    0
                },
            ),
    {
        let columns: u16 = area_width.saturating_sub(4);
        let rows: usize = if columns == 0 {
            0
        } else {
            count_rows(content, columns).saturating_add(2)
        };
        self.settle(rows, area_height.saturating_sub(2) as usize);
    }
}

/// The view after a drawing of `line_count` display lines in `visible_rows` rows.
pub open spec fn settled(
    state: ConversationViewState,
    line_count: usize,
    visible_rows: usize,
) -> ConversationViewState {
    let max = if line_count >= visible_rows {
        (line_count - visible_rows) as usize
    } else {
        0
    };
    ConversationViewState {
        visible_rows,
        scroll_offset: if state.follow_mode || state.scroll_offset > max {
            max
        } else {
            state.scroll_offset
        },
        ..state
    }
}

/// The rows that lines take in a framed area, its frame counted in; none where
/// there is no column inside the frame.
pub open spec fn framed_rows(lines: Seq<Seq<SpanView>>, area_width: u16) -> usize {
    if area_width <= 4 {
        0
    } else {
        let rows = style::wrapped_rows(lines, (area_width - 4) as u16);
        if rows + 2 > usize::MAX {
            usize::MAX
        } else {
            (rows + 2) as usize
        }
    }
}

// ── Timeline ─────────────────────────────────────────────────────────────────

/// An entry of the timeline.
pub enum ConversationItem<'a> {
    Message(&'a MessageRow),
    ExecutionStarted { agent: &'a str, started_at: i64 },
    ExecutionCompleted {
        agent: &'a str,
        finished_at: i64,
        duration_ms: Option<i64>,
        success: bool,
    },
}

/// What an entry says.
pub enum ItemShown {
    Message(MessageRow),
    Started { agent: Seq<char>, at: i64 },
    Completed { agent: Seq<char>, at: i64, duration_ms: Option<i64>, success: bool },
}

impl<'a> View for ConversationItem<'a> {
    type V = ItemShown;

    open spec fn view(&self) -> ItemShown {
        match self {
            ConversationItem::Message(m) => ItemShown::Message(**m),
            ConversationItem::ExecutionStarted { agent, started_at } => ItemShown::Started {
                agent: agent@,
                at: *started_at,
            },
            ConversationItem::ExecutionCompleted { agent, finished_at, duration_ms, success } =>
            ItemShown::Completed {
                agent: agent@,
                at: *finished_at,
                duration_ms: *duration_ms,
                success: *success,
            },
        }
    }
}

/// When an entry happened.
pub open spec fn time_of(item: ItemShown) -> i64 {
    match item {
        ItemShown::Message(m) => m.created_at,
        ItemShown::Started { at, .. } => at,
        ItemShown::Completed { at, .. } => at,
    }
}

/// When an entry happened.
pub fn item_timestamp(item: &ConversationItem<'_>) -> (r: i64)
    ensures
        r == time_of(item@),
{
    match item {
        ConversationItem::Message(m) => m.created_at,
        ConversationItem::ExecutionStarted { started_at, .. } => *started_at,
        ConversationItem::ExecutionCompleted { finished_at, .. } => *finished_at,
    }
}

/// The earlier entry comes first.
impl Order for ItemShown {
    open spec fn before(self, other: Self) -> bool {
        time_of(self) < time_of(other)
    }

    proof fn before_asymmetric(a: Self, b: Self) {
    }

    proof fn not_before_transitive(a: Self, b: Self, c: Self) {
    }
}

impl<'a> Ranked for ConversationItem<'a> {
    fn is_before(&self, other: &Self) -> (r: bool) {
        item_timestamp(self) < item_timestamp(other)
    }
}

/// The entries of an execution: its start, and its end once it has one.
pub open spec fn execution_items(e: ExecutionRow) -> Seq<ItemShown> {
    let started = ItemShown::Started {
        agent: e.agent_alias@,
        at: match e.started_at {
            Some(t) => t,
            None => e.queued_at,
        },
    };
    match e.finished_at {
        Some(t) => seq![
            started,
            ItemShown::Completed {
                agent: e.agent_alias@,
                at: t,
                duration_ms: e.duration_ms,
                success: e.status@ == "completed"@,
            },
        ],
        None => seq![started],
    }
}

/// The entries of all messages, then of all executions.
pub open spec fn unsorted_items(messages: Seq<MessageRow>, executions: Seq<ExecutionRow>) -> Seq<
    ItemShown,
>
    decreases executions.len(),
{
    if executions.len() == 0 {
        messages.map_values(|m: MessageRow| ItemShown::Message(m))
    } else {
        unsorted_items(messages, executions.drop_last()) + execution_items(executions.last())
    }
}

/// The timeline: earlier entries first; entries of the same second in the order
/// messages, executions.
pub open spec fn timeline(messages: Seq<MessageRow>, executions: Seq<ExecutionRow>) -> Seq<
    ItemShown,
> {
    sort::stable_sorted(unsorted_items(messages, executions))
}

/// The timeline is in order of time and holds every entry as often as it occurs.
pub proof fn law_timeline_complete_and_ordered(
    messages: Seq<MessageRow>,
    executions: Seq<ExecutionRow>,
)
    ensures
        timeline(messages, executions).to_multiset() == unsorted_items(
            messages,
            executions,
        ).to_multiset(),
        forall|i: int, j: int|
            0 <= i < j < timeline(messages, executions).len() ==> time_of(
                #[trigger] timeline(messages, executions)[i],
            ) <= time_of(#[trigger] timeline(messages, executions)[j]),
{
    sort::lemma_stable_sorted(unsorted_items(messages, executions));
    let t = timeline(messages, executions);
    assert forall|i: int, j: int| 0 <= i < j < t.len() implies time_of(#[trigger] t[i]) <= time_of(
        #[trigger] t[j],
    ) by {
        assert(!t[j].before(t[i]));
    }
}

/// Messages and executions merged into one timeline.
pub fn build_items<'a>(messages: &'a [MessageRow], executions: &'a [ExecutionRow]) -> (r: Vec<
    ConversationItem<'a>,
>)
    ensures
        sort::views(r@) == timeline(messages@, executions@),
        forall|i: int|
            0 <= i < r@.len() ==> match #[trigger] r@[i] {
                ConversationItem::Message(m) => messages@.contains(*m),
                ConversationItem::ExecutionStarted { agent, started_at } => exists|k: int|
                    0 <= k < executions@.len() && (#[trigger] executions@[k]).agent_alias@ == agent@
                        && match executions@[k].started_at {
                        Some(t) => started_at == t,
                        None => started_at == executions@[k].queued_at,
                    },
                ConversationItem::ExecutionCompleted {
                    agent,
                    finished_at,
                    duration_ms,
                    success,
                } => exists|k: int|
                    0 <= k < executions@.len() && (#[trigger] executions@[k]).agent_alias@ == agent@
                        && executions@[k].finished_at == Some(finished_at)
                        && executions@[k].duration_ms == duration_ms && (success
                        <==> executions@[k].status@ == "completed"@),
            },
{
    let mut items: Vec<ConversationItem<'a>> = Vec::new();
    let ghost all = messages@.map_values(|m: MessageRow| ItemShown::Message(m));
    let mut i: usize = 0;
    assert(sort::views(items@) =~= all.take(0));
    while i < messages.len()
        invariant
            i <= messages@.len(),
            all == messages@.map_values(|m: MessageRow| ItemShown::Message(m)),
            sort::views(items@) == all.take(i as int),
        decreases messages@.len() - i,
    {
        let ghost before = sort::views(items@);
        items.push(ConversationItem::Message(&messages[i]));
        assert(sort::views(items@) =~= before.push(all[i as int]));
        assert(sort::views(items@) =~= all.take(i + 1));
        i += 1;
    }
    assert(all.take(i as int) =~= all);
    assert(executions@.take(0) =~= Seq::<ExecutionRow>::empty());
    let mut j: usize = 0;
    while j < executions.len()
        invariant
            j <= executions@.len(),
            sort::views(items@) == unsorted_items(messages@, executions@.take(j as int)),
        decreases executions@.len() - j,
    {
        let e: &ExecutionRow = &executions[j];
        let ghost before = sort::views(items@);
        assert(executions@.take(j + 1).drop_last() =~= executions@.take(j as int));
        assert(executions@.take(j + 1).last() == *e);
        let started_at: i64 = match e.started_at {
            Some(t) => t,
            None => e.queued_at,
        };
        items.push(
            ConversationItem::ExecutionStarted { agent: e.agent_alias.as_str(), started_at },
        );
        if let Some(finished_at) = e.finished_at {
            items.push(
                ConversationItem::ExecutionCompleted {
                    agent: e.agent_alias.as_str(),
                    finished_at,
                    duration_ms: e.duration_ms,
                    success: str_eq(e.status.as_str(), "completed"),
                },
            );
        }
        assert(sort::views(items@) =~= before + execution_items(*e));
        j += 1;
    }
    assert(executions@.take(j as int) =~= executions@);
    let r: Vec<ConversationItem<'a>> = stable_sort(items);
    proof {
        assert forall|i: int| 0 <= i < r@.len() implies match #[trigger] r@[i] {
            ConversationItem::Message(m) => messages@.contains(*m),
            ConversationItem::ExecutionStarted { agent, started_at } => exists|k: int|
                0 <= k < executions@.len() && (#[trigger] executions@[k]).agent_alias@ == agent@
                    && match executions@[k].started_at {
                    Some(t) => started_at == t,
                    None => started_at == executions@[k].queued_at,
                },
            ConversationItem::ExecutionCompleted { agent, finished_at, duration_ms, success } =>
            exists|k: int|
                0 <= k < executions@.len() && (#[trigger] executions@[k]).agent_alias@ == agent@
                    && executions@[k].finished_at == Some(finished_at) && executions@[k].duration_ms
                    == duration_ms && (success <==> executions@[k].status@ == "completed"@),
        } by {
            assert(sort::views(r@)[i] == r@[i]@);
            law_timeline_shows_nothing_else(messages@, executions@, i);
        }
    }
    r
}

// ── Lines ────────────────────────────────────────────────────────────────────

/// The colour of an intent.
pub open spec fn intent_badge(intent: Seq<char>) -> Color {
    if intent == "dispatch"@ {
        Color::Cyan
    } else if intent == "review-request"@ {
        Color::Yellow
    } else if intent == "changes-requested"@ || intent == "error"@ {
        Color::Red
    } else {
        Color::DarkGray
    }
}

/// The colour of an intent.
pub fn intent_color(intent: &str) -> (r: Color)
    ensures
        r == intent_badge(intent@),
{
    if str_eq(intent, "dispatch") {
        Color::Cyan
    } else if str_eq(intent, "review-request") {
        Color::Yellow
    } else if str_eq(intent, "changes-requested") || str_eq(intent, "error") {
        Color::Red
    } else {
        Color::DarkGray
    }
}

/// The header of a message: from, to, intent and time.
pub open spec fn message_header(m: MessageRow, now: i64) -> Seq<SpanView> {
    seq![
        style::sp(
            m.from_alias@,
            fg(
                if m.from_alias@ == "operator"@ {
                    Color::Blue
                } else {
                    Color::Green
                },
            ).bold(),
        ),
        style::sp(" → "@, fg(TEXT_DIM)),
        style::sp(m.to_alias@, fg(TEXT_MUTED)),
        style::sp("  "@, plain()),
        style::sp("["@ + m.intent@ + "]"@, fg(intent_badge(m.intent@))),
        style::sp("  "@, plain()),
        style::sp(clock::stamp(m.created_at, now), fg(TEXT_DIM)),
    ]
}

/// The lines of a message: its header, and its body behind a border.
pub open spec fn message_lines(m: MessageRow, now: i64) -> Seq<Seq<SpanView>> {
    seq![message_header(m, now)] + if m.body@.len() == 0 {
        seq![seq![style::sp("│ "@, fg(TEXT_DIM)), style::sp("(empty)"@, fg(TEXT_DIM))]]
    } else {
        markdown::md_lines(markdown::markdown_tokens(m.body@), markdown::border_prefix(Some(TEXT_DIM)))
    }
}

fn append_lines(lines: &mut Vec<Line>, more: Vec<Line>)
    ensures
        style::lines_view(final(lines)@) == style::lines_view(old(lines)@) + style::lines_view(more@),
{
    let ghost before = style::lines_view(lines@);
    let ghost extra = style::lines_view(more@);
    let mut rest: Vec<Line> = more;
    lines.append(&mut rest);
    assert(style::lines_view(lines@) =~= before + extra);
}

/// Appends the lines of a message, as shown at `now_secs`.
pub fn push_message_lines(msg: &MessageRow, now_secs: i64, lines: &mut Vec<Line>)
    ensures
        style::lines_view(final(lines)@) == style::lines_view(old(lines)@) + message_lines(*msg, now_secs),
{
    let ghost before = style::lines_view(lines@);
    let mut head: Line = Line::new();
    let color: Color = if str_eq(msg.from_alias.as_str(), "operator") {
        Color::Blue
    } else {
        Color::Green
    };
    head.put(msg.from_alias.as_str(), fg(color).bold());
    head.put(" → ", fg(TEXT_DIM));
    head.put(msg.to_alias.as_str(), fg(TEXT_MUTED));
    head.put("  ", plain());
    head.put_string(cat3("[", msg.intent.as_str(), "]"), fg(intent_color(msg.intent.as_str())));
    head.put("  ", plain());
    head.put_string(format_timestamp(msg.created_at, now_secs), fg(TEXT_DIM));
    assert(head@ =~= message_header(*msg, now_secs));
    push_line(lines, head);
    if msg.body.as_str().is_empty() {
        let mut line: Line = Line::new();
        line.put("│ ", fg(TEXT_DIM));
        line.put("(empty)", fg(TEXT_DIM));
        assert(line@ =~= seq![style::sp("│ "@, fg(TEXT_DIM)), style::sp("(empty)"@, fg(TEXT_DIM))]);
        push_line(lines, line);
    } else {
        append_lines(lines, markdown_to_lines(msg.body.as_str(), TEXT_DIM));
    }
    assert(style::lines_view(lines@) =~= before + message_lines(*msg, now_secs));
}

/// The marker of an execution's start.
pub open spec fn started_line(agent: Seq<char>, at: i64, now: i64) -> Seq<SpanView> {
    seq![
        style::sp("  ▶ Execution started ("@ + agent + ")"@, fg(TEXT_DIM)),
        style::sp("   "@, plain()),
        style::sp(clock::stamp(at, now), fg(TEXT_DIM)),
    ]
}

/// Appends the marker of an execution's start.
pub fn push_execution_started_line(
    agent: &str,
    started_at: i64,
    now_secs: i64,
    lines: &mut Vec<Line>,
)
    ensures
        style::lines_view(final(lines)@) == style::lines_view(old(lines)@).push(
            started_line(agent@, started_at, now_secs),
        ),
{
    let mut line: Line = Line::new();
    line.put_string(cat3("  ▶ Execution started (", agent, ")"), fg(TEXT_DIM));
    line.put("   ", plain());
    line.put_string(format_timestamp(started_at, now_secs), fg(TEXT_DIM));
    assert(line@ =~= started_line(agent@, started_at, now_secs));
    push_line(lines, line);
}

/// The marker of an execution's end.
pub open spec fn completed_line(
    agent: Seq<char>,
    at: i64,
    duration_ms: Option<i64>,
    success: bool,
    now: i64,
) -> Seq<SpanView> {
    let took = match duration_ms {
        Some(ms) => " in "@ + views::duration_ms_text(ms as int),
        None => ""@,
    };
    seq![
        if success {
            style::sp("  ✓ Completed"@ + took + " ("@ + agent + ")"@, fg(SUCCESS_DIM))
        } else {
            style::sp("  ✗ Failed"@ + took + " ("@ + agent + ")"@, fg(FAILURE))
        },
        style::sp("   "@, plain()),
        style::sp(clock::stamp(at, now), fg(TEXT_DIM)),
    ]
}

/// Appends the marker of an execution's end.
pub fn push_execution_completed_line(
    agent: &str,
    finished_at: i64,
    duration_ms: Option<i64>,
    success: bool,
    now_secs: i64,
    lines: &mut Vec<Line>,
)
    ensures
        style::lines_view(final(lines)@) == style::lines_view(old(lines)@).push(
            completed_line(agent@, finished_at, duration_ms, success, now_secs),
        ),
{
    let took: String = match duration_ms {
        Some(ms) => {
            let d: String = format_duration_ms(ms);
            cat(" in ", d.as_str())
        },
        None => "".to_owned(),
    };
    let mut text: String = if success {
        "  ✓ Completed".to_owned()
    } else {
        "  ✗ Failed".to_owned()
    };
    text.append(took.as_str());
    text.append(" (");
    text.append(agent);
    text.append(")");
    let mut line: Line = Line::new();
    let color: Color = if success {
        SUCCESS_DIM
    } else {
        FAILURE
    };
    line.put_string(text, fg(color));
    line.put("   ", plain());
    line.put_string(format_timestamp(finished_at, now_secs), fg(TEXT_DIM));
    assert(line@ =~= completed_line(agent@, finished_at, duration_ms, success, now_secs));
    push_line(lines, line);
}

/// The lines of an entry, with what separates it from the next.
pub open spec fn item_lines(item: ItemShown, width: nat, now: i64) -> Seq<Seq<SpanView>> {
    match item {
        ItemShown::Message(m) => message_lines(m, now).push(
            seq![style::sp(text::repeated("─"@, width), fg(BORDER_DIM))],
        ),
        ItemShown::Started { agent, at } => seq![started_line(agent, at, now), seq![]],
        ItemShown::Completed { agent, at, duration_ms, success } => seq![
            completed_line(agent, at, duration_ms, success, now),
            seq![],
        ],
    }
}

/// The lines of the entries.
pub open spec fn items_lines(items: Seq<ItemShown>, width: nat, now: i64) -> Seq<Seq<SpanView>>
    decreases items.len(),
{
    if items.len() == 0 {
        seq![]
    } else {
        items_lines(items.drop_last(), width, now) + item_lines(items.last(), width, now)
    }
}

/// The lines of a conversation; a note where there is nothing in it.
pub open spec fn conversation_lines(
    messages: Seq<MessageRow>,
    executions: Seq<ExecutionRow>,
    width: nat,
    now: i64,
) -> Seq<Seq<SpanView>> {
    let items = timeline(messages, executions);
    if items.len() == 0 {
        seq![seq![style::sp("  No messages."@, fg(TEXT_MUTED))]]
    } else {
        items_lines(items, width, now)
    }
}

/// The lines of a conversation, `width` characters wide, as shown at `now_secs`.
pub fn build_conversation_lines(state: &ConversationViewState, width: usize, now_secs: i64) -> (r:
    Vec<Line>)
    ensures
        style::lines_view(r@) == conversation_lines(
            state.messages@,
            state.executions@,
            width as nat,
            now_secs,
        ),
{
    let items: Vec<ConversationItem> = build_items(
        state.messages.as_slice(),
        state.executions.as_slice(),
    );
    let mut lines: Vec<Line> = no_lines();
    assert(sort::views(items@).len() == items@.len());
    if items.len() == 0 {
        push_line(&mut lines, Line::of("  No messages.", fg(TEXT_MUTED)));
        return lines;
    }
    let ghost all = sort::views(items@);
    assert(all.take(0) =~= Seq::<ItemShown>::empty());
    let mut i: usize = 0;
    while i < items.len()
        invariant
            i <= items@.len(),
            all == sort::views(items@),
            style::lines_view(lines@) == items_lines(all.take(i as int), width as nat, now_secs),
        decreases items@.len() - i,
    {
        let ghost before = style::lines_view(lines@);
        assert(all.take(i + 1).drop_last() =~= all.take(i as int));
        assert(all.take(i + 1).last() == items@[i as int]@);
        match &items[i] {
            ConversationItem::Message(m) => {
                push_message_lines(m, now_secs, &mut lines);
                let rule: String = repeat_text("─", width);
                push_line(&mut lines, Line::of(rule.as_str(), fg(BORDER_DIM)));
            },
            ConversationItem::ExecutionStarted { agent, started_at } => {
                push_execution_started_line(*agent, *started_at, now_secs, &mut lines);
                push_line(&mut lines, Line::new());
            },
            ConversationItem::ExecutionCompleted { agent, finished_at, duration_ms, success } => {
                push_execution_completed_line(
                    *agent,
                    *finished_at,
                    *duration_ms,
                    *success,
                    now_secs,
                    &mut lines,
                );
                push_line(&mut lines, Line::new());
            },
        }
        assert(style::lines_view(lines@) =~= before + item_lines(
            items@[i as int]@,
            width as nat,
            now_secs,
        ));
        i += 1;
    }
    assert(all.take(i as int) =~= all);
    lines
}

/// The title: thread, status, batch, and whether the view follows.
pub open spec fn conversation_title(s: ConversationViewState) -> Seq<SpanView> {
    let head = seq![
        style::sp(" Conversation: "@, plain()),
        style::sp(views::truncated(s.thread_id@, 20), fg(TEXT_BRIGHT).bold()),
        style::sp("  "@, fg(TEXT_DIM)),
        style::sp(s.thread_status@, fg(theme::thread_color(s.thread_status@)).bold()),
    ];
    let with_batch = match s.batch_id {
        Some(b) => head.push(style::sp("  batch: "@, fg(TEXT_DIM))).push(style::sp(b@, fg(TEXT_DIM))),
        None => head,
    };
    with_batch.push(
        style::sp(
            if s.follow_mode {
                "  ◉ follow"@
            } else {
                ""@
            },
            fg(ACCENT).bold(),
        ),
    ).push(style::sp(" "@, plain()))
}

/// The title of the view.
pub fn title_line(state: &ConversationViewState) -> (r: Line)
    ensures
        r@ == conversation_title(*state),
{
    let mut line: Line = Line::new();
    line.put(" Conversation: ", plain());
    line.put_string(truncate(state.thread_id.as_str(), 20), fg(TEXT_BRIGHT).bold());
    line.put("  ", fg(TEXT_DIM));
    let status: &str = state.thread_status.as_str();
    line.put(status, fg(thread_status_color(status)).bold());
    if let Some(b) = &state.batch_id {
        line.put("  batch: ", fg(TEXT_DIM));
        line.put(b.as_str(), fg(TEXT_DIM));
    }
    if state.follow_mode {
        line.put("  ◉ follow", fg(ACCENT).bold());
    } else {
        line.put("", fg(ACCENT).bold());
    }
    line.put(" ", plain());
    line
}

/// The key hints and the number of messages.
pub fn footer_line(state: &ConversationViewState) -> (r: Line)
    ensures
        r@ == seq![
            style::sp(" "@, plain()),
            style::sp("Esc"@, fg(ACCENT).bold()),
            style::sp(": back  "@, fg(TEXT_MUTED)),
            style::sp("j/k"@, fg(ACCENT).bold()),
            style::sp(": scroll  "@, fg(TEXT_MUTED)),
            style::sp("g/G"@, fg(ACCENT).bold()),
            style::sp(": top/bottom  "@, fg(TEXT_MUTED)),
            style::sp("f"@, fg(ACCENT).bold()),
            style::sp(": follow  "@, fg(TEXT_MUTED)),
            style::sp("  "@ + text::dec(state.messages@.len()) + " msgs "@, fg(TEXT_DIM)),
        ],
{
    let mut line: Line = Line::new();
    line.put(" ", plain());
    line.put("Esc", fg(ACCENT).bold());
    line.put(": back  ", fg(TEXT_MUTED));
    line.put("j/k", fg(ACCENT).bold());
    line.put(": scroll  ", fg(TEXT_MUTED));
    line.put("g/G", fg(ACCENT).bold());
    line.put(": top/bottom  ", fg(TEXT_MUTED));
    line.put("f", fg(ACCENT).bold());
    line.put(": follow  ", fg(TEXT_MUTED));
    let n: String = usize_text(state.messages.len());
    line.put_string(cat3("  ", n.as_str(), " msgs "), fg(TEXT_DIM));
    line
}

// ── What the timeline holds ──────────────────────────────────────────────────

/// An entry that stems from a message or from an execution.
proof fn lemma_unsorted_members(
    messages: Seq<MessageRow>,
    executions: Seq<ExecutionRow>,
    x: ItemShown,
)
    ensures
        unsorted_items(messages, executions).contains(x) <==> {
            ||| exists|k: int| 0 <= k < messages.len() && x == ItemShown::Message(
                #[trigger] messages[k],
            )
            ||| exists|k: int|
                0 <= k < executions.len() && execution_items(#[trigger] executions[k]).contains(x)
        },
    decreases executions.len(),
{
    let all = unsorted_items(messages, executions);
    if executions.len() == 0 {
        if all.contains(x) {
            let k = choose|k: int| 0 <= k < all.len() && all[k] == x;
            assert(x == ItemShown::Message(messages[k]));
        }
        if exists|k: int| 0 <= k < messages.len() && x == ItemShown::Message(#[trigger] messages[k]) {
            let k = choose|k: int| 0 <= k < messages.len() && x == ItemShown::Message(
                #[trigger] messages[k],
            );
            assert(all[k] == x);
        }
    } else {
        let prev = executions.drop_last();
        let rest = unsorted_items(messages, prev);
        let last = execution_items(executions.last());
        lemma_unsorted_members(messages, prev, x);
        assert(all == rest + last);
        if all.contains(x) {
            let k = choose|k: int| 0 <= k < all.len() && all[k] == x;
            if k < rest.len() {
                assert(rest[k] == x);
                if exists|k: int|
                    0 <= k < prev.len() && execution_items(#[trigger] prev[k]).contains(x) {
                    let j = choose|k: int|
                        0 <= k < prev.len() && execution_items(#[trigger] prev[k]).contains(x);
                    assert(executions[j] == prev[j]);
                }
            } else {
                assert(last[k - rest.len()] == x);
                assert(execution_items(executions[executions.len() - 1]).contains(x));
            }
        }
        if rest.contains(x) {
            let k = choose|k: int| 0 <= k < rest.len() && rest[k] == x;
            assert(all[k] == x);
        }
        if exists|k: int|
            0 <= k < executions.len() && execution_items(#[trigger] executions[k]).contains(x) {
            let j = choose|k: int|
                0 <= k < executions.len() && execution_items(#[trigger] executions[k]).contains(x);
            if j < prev.len() {
                assert(prev[j] == executions[j]);
            } else {
                let k = choose|k: int| 0 <= k < last.len() && last[k] == x;
                assert(all[rest.len() + k] == x);
            }
        }
    }
}

/// Every message is an entry of the timeline. Every execution has an entry of its
/// agent for its start, at the time it was queued where it has not started, and,
/// once it is finished, one for its end, which is a success if and only if the
/// execution's status is `completed`.
pub proof fn law_timeline_shows_every_row(
    messages: Seq<MessageRow>,
    executions: Seq<ExecutionRow>,
    m: int,
    e: int,
)
    ensures
        0 <= m < messages.len() ==> timeline(messages, executions).contains(
            ItemShown::Message(messages[m]),
        ),
        0 <= e < executions.len() ==> {
            let row = executions[e];
            &&& row.started_at matches Some(t) ==> timeline(messages, executions).contains(
                ItemShown::Started { agent: row.agent_alias@, at: t },
            )
            &&& row.started_at is None ==> timeline(messages, executions).contains(
                ItemShown::Started { agent: row.agent_alias@, at: row.queued_at },
            )
            &&& row.finished_at matches Some(t) ==> timeline(messages, executions).contains(
                ItemShown::Completed {
                    agent: row.agent_alias@,
                    at: t,
                    duration_ms: row.duration_ms,
                    success: row.status@ == "completed"@,
                },
            )
        },
{
    sort::lemma_sorted_members(unsorted_items(messages, executions));
    if 0 <= m < messages.len() {
        lemma_unsorted_members(messages, executions, ItemShown::Message(messages[m]));
    }
    if 0 <= e < executions.len() {
        let row = executions[e];
        let items = execution_items(row);
        lemma_unsorted_members(messages, executions, items[0]);
        assert(items.contains(items[0]));
        if row.finished_at is Some {
            lemma_unsorted_members(messages, executions, items[1]);
            assert(items.contains(items[1]));
        }
    }
}

/// Every entry of the timeline is a message, the start of an execution or the end
/// of a finished one: an end is told of no execution that has none, and as a
/// success of none but a completed one.
pub proof fn law_timeline_shows_nothing_else(
    messages: Seq<MessageRow>,
    executions: Seq<ExecutionRow>,
    i: int,
)
    requires
        0 <= i < timeline(messages, executions).len(),
    ensures
        match timeline(messages, executions)[i] {
            ItemShown::Message(m) => exists|k: int|
                0 <= k < messages.len() && #[trigger] messages[k] == m,
            ItemShown::Started { agent, at } => exists|k: int|
                0 <= k < executions.len() && (#[trigger] executions[k]).agent_alias@ == agent
                    && match executions[k].started_at {
                    Some(t) => at == t,
                    None => at == executions[k].queued_at,
                },
            ItemShown::Completed { agent, at, duration_ms, success } => exists|k: int|
                0 <= k < executions.len() && (#[trigger] executions[k]).agent_alias@ == agent
                    && executions[k].finished_at == Some(at) && executions[k].duration_ms
                    == duration_ms && (success <==> executions[k].status@ == "completed"@),
        },
{
    let all = unsorted_items(messages, executions);
    let x = timeline(messages, executions)[i];
    sort::lemma_sorted_members(all);
    assert(all.contains(x));
    lemma_unsorted_members(messages, executions, x);
    if exists|k: int|
        0 <= k < executions.len() && execution_items(#[trigger] executions[k]).contains(x) {
        let k = choose|k: int|
            0 <= k < executions.len() && execution_items(#[trigger] executions[k]).contains(x);
        let items = execution_items(executions[k]);
        let p = choose|p: int| 0 <= p < items.len() && items[p] == x;
        assert(p == 0 || p == 1);
        assert(executions[k].agent_alias@ == executions[k].agent_alias@);
    } else {
        let k = choose|k: int| 0 <= k < messages.len() && x == ItemShown::Message(
            #[trigger] messages[k],
        );
        assert(messages[k] == messages[k]);
    }
}

/// Of two entries, the one that stands first is of no later second: the second of
/// a message's creation, of an execution's start or of its end.
pub proof fn law_timeline_by_time(
    messages: Seq<MessageRow>,
    executions: Seq<ExecutionRow>,
    i: int,
    j: int,
    before: i64,
    after: i64,
)
    requires
        0 <= i < j < timeline(messages, executions).len(),
        match timeline(messages, executions)[i] {
            ItemShown::Message(m) => before == m.created_at,
            ItemShown::Started { at, .. } => before == at,
            ItemShown::Completed { at, .. } => before == at,
        },
        match timeline(messages, executions)[j] {
            ItemShown::Message(m) => after == m.created_at,
            ItemShown::Started { at, .. } => after == at,
            ItemShown::Completed { at, .. } => after == at,
        },
    ensures
        before <= after,
{
    law_timeline_complete_and_ordered(messages, executions);
}

/// How many executions are finished.
pub open spec fn finished_count(executions: Seq<ExecutionRow>) -> nat {
    executions.filter(|e: ExecutionRow| e.finished_at is Some).len()
}

/// The timeline has one entry for each message, one for each execution and one
/// more for each finished execution.
pub proof fn law_timeline_length(messages: Seq<MessageRow>, executions: Seq<ExecutionRow>)
    ensures
        timeline(messages, executions).len() == messages.len() + executions.len() + finished_count(
            executions,
        ),
    decreases executions.len(),
{
    reveal(Seq::filter);
    sort::lemma_sorted_members(unsorted_items(messages, executions));
    if executions.len() > 0 {
        law_timeline_length(messages, executions.drop_last());
        sort::lemma_sorted_members(unsorted_items(messages, executions.drop_last()));
    }
}

// ── What is shown of it ──────────────────────────────────────────────────────

/// The highest id among the messages.
pub proof fn law_highest_id_of_messages(messages: Seq<MessageRow>, i: int)
    ensures
        messages.len() == 0 <==> highest_id(messages) is None,
        0 <= i < messages.len() ==> highest_id(messages) is Some && highest_id(messages)->0
            >= messages[i].id,
        highest_id(messages) matches Some(m) ==> exists|k: int|
            0 <= k < messages.len() && (#[trigger] messages[k]).id == m,
    decreases messages.len(),
{
    if messages.len() > 0 {
        let rest = messages.drop_last();
        law_highest_id_of_messages(rest, i);
        if let Some(m) = highest_id(rest) {
            if m >= messages.last().id {
                let k = choose|k: int| 0 <= k < rest.len() && (#[trigger] rest[k]).id == m;
                assert(messages[k].id == m);
            } else {
                assert(messages[messages.len() - 1].id == messages.last().id);
            }
        } else {
            assert(messages[messages.len() - 1].id == messages.last().id);
        }
    }
}

/// A conversation that is followed shows its end; any other stays where it is, as
/// long as that is not past the end.
pub proof fn law_conversation_stays_inside(v: ConversationViewState, lines: usize, rows: usize)
    ensures
        lines >= rows && v.follow_mode ==> settled(v, lines, rows).scroll_offset == lines - rows,
        lines < rows ==> settled(v, lines, rows).scroll_offset == 0,
        lines >= rows && !v.follow_mode && v.scroll_offset <= lines - rows ==> settled(
            v,
            lines,
            rows,
        ).scroll_offset == v.scroll_offset,
        lines >= rows && !v.follow_mode && v.scroll_offset > lines - rows ==> settled(
            v,
            lines,
            rows,
        ).scroll_offset == lines - rows,
        settled(v, lines, rows).visible_rows == rows,
        settled(v, lines, rows).messages == v.messages && settled(v, lines, rows).follow_mode
            == v.follow_mode,
{
}

/// What is told of a message: from whom, to whom, with what intent and when, and
/// its body below, or that it is empty.
pub proof fn law_message_is_told(m: MessageRow, now: i64)
    ensures
        ({
            let h = message_lines(m, now)[0];
            &&& h[0].text == m.from_alias@
            &&& h[0].style.fg == Some(Color::Blue) <==> m.from_alias@ == "operator"@
            &&& h[2].text == m.to_alias@
            &&& h[4].text == "["@ + m.intent@ + "]"@
            &&& h[6].text == clock::stamp(m.created_at, now)
            &&& m.intent@ == "dispatch"@ ==> h[4].style.fg == Some(Color::Cyan)
            &&& m.intent@ == "review-request"@ ==> h[4].style.fg == Some(Color::Yellow)
            &&& m.intent@ == "changes-requested"@ ==> h[4].style.fg == Some(Color::Red)
            &&& m.intent@ == "error"@ ==> h[4].style.fg == Some(Color::Red)
            &&& m.intent@ != "dispatch"@ && m.intent@ != "review-request"@ && m.intent@
                != "changes-requested"@ && m.intent@ != "error"@ ==> h[4].style.fg == Some(
                Color::DarkGray,
            )
        }),
        m.body@.len() == 0 ==> message_lines(m, now).len() == 2 && message_lines(m, now)[1][1].text
            == "(empty)"@,
        m.body@.len() > 0 ==> message_lines(m, now).skip(1) == markdown::md_lines(
            markdown::markdown_tokens(m.body@),
            markdown::border_prefix(Some(TEXT_DIM)),
        ),
{
    reveal_strlit("dispatch");
    reveal_strlit("review-request");
    reveal_strlit("changes-requested");
    reveal_strlit("error");
    assert("dispatch"@.len() == 8 && "review-request"@.len() == 14 && "changes-requested"@.len()
        == 17 && "error"@.len() == 5);
    let md = markdown::md_lines(
        markdown::markdown_tokens(m.body@),
        markdown::border_prefix(Some(TEXT_DIM)),
    );
    if m.body@.len() > 0 {
        assert(message_lines(m, now).skip(1) =~= md);
    }
}

/// What is told of an execution: by whom and when it was started, and how and
/// when it ended.
pub proof fn law_executions_are_told(
    agent: Seq<char>,
    at: i64,
    duration: Option<i64>,
    now: i64,
)
    ensures
        started_line(agent, at, now)[0].text == "  ▶ Execution started ("@ + agent + ")"@,
        started_line(agent, at, now)[2].text == clock::stamp(at, now),
        completed_line(agent, at, duration, true, now)[2].text == clock::stamp(at, now),
        duration matches Some(ms) ==> {
            &&& completed_line(agent, at, duration, true, now)[0].text == "  ✓ Completed"@ + (
            " in "@ + views::duration_ms_text(ms as int)) + " ("@ + agent + ")"@
            &&& completed_line(agent, at, duration, false, now)[0].text == "  ✗ Failed"@ + (
            " in "@ + views::duration_ms_text(ms as int)) + " ("@ + agent + ")"@
        },
        duration is None ==> {
            &&& completed_line(agent, at, duration, true, now)[0].text == "  ✓ Completed"@ + ""@
                + " ("@ + agent + ")"@
            &&& completed_line(agent, at, duration, false, now)[0].text == "  ✗ Failed"@ + ""@
                + " ("@ + agent + ")"@
        },
        completed_line(agent, at, duration, true, now)[0].style.fg == Some(SUCCESS_DIM),
        completed_line(agent, at, duration, false, now)[0].style.fg == Some(FAILURE),
{
}

/// The items are shown one after the other, each by its own lines.
pub proof fn law_items_are_shown_in_order(
    items: Seq<ItemShown>,
    x: ItemShown,
    m: MessageRow,
    agent: Seq<char>,
    at: i64,
    width: nat,
    now: i64,
)
    ensures
        items_lines(Seq::empty(), width, now).len() == 0,
        items_lines(items.push(x), width, now) == items_lines(items, width, now) + item_lines(
            x,
            width,
            now,
        ),
        item_lines(ItemShown::Message(m), width, now).drop_last() == message_lines(m, now),
        item_lines(ItemShown::Message(m), width, now).last()[0].text == text::repeated("─"@, width),
        item_lines(ItemShown::Started { agent, at }, width, now)[0] == started_line(agent, at, now),
        conversation_lines(Seq::empty(), Seq::empty(), width, now)[0][0].text == "  No messages."@,
{
    assert(items.push(x).drop_last() =~= items);
    assert(item_lines(ItemShown::Message(m), width, now).drop_last() =~= message_lines(m, now));
    law_timeline_length(Seq::empty(), Seq::empty());
    assert(Seq::<ExecutionRow>::empty().filter(|e: ExecutionRow| e.finished_at is Some).len() == 0)
        by {
        reveal(Seq::filter);
    }
}

/// The title tells the thread, its state and batch, and whether it is followed.
pub proof fn law_title_of_a_conversation(v: ConversationViewState)
    ensures
        ({
            let t = conversation_title(v);
            &&& v.thread_id@.len() <= 20 ==> t[1].text == v.thread_id@
            &&& t[3].text == v.thread_status@ && t[3].style.fg == Some(
                theme::thread_color(v.thread_status@),
            )
            &&& v.batch_id matches Some(b) ==> t[5].text == b@ && t.len() == 8
            &&& v.batch_id is None ==> t.len() == 6
            &&& v.follow_mode ==> t[t.len() - 2].text == "  ◉ follow"@
            &&& !v.follow_mode ==> t[t.len() - 2].text == ""@
        }),
{
}

/// A conversation takes the rows of its lines and of its frame, none where the
/// frame leaves it no column.
pub proof fn law_rows_of_a_conversation(lines: Seq<Seq<SpanView>>, width: u16)
    ensures
        width <= 4 ==> framed_rows(lines, width) == 0,
        width > 4 && style::wrapped_rows(lines, (width - 4) as u16) + 2 <= usize::MAX
            ==> framed_rows(lines, width) == style::wrapped_rows(lines, (width - 4) as u16) + 2,
{
}

} // verus!
