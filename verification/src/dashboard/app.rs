//! The state of the dashboard, and what keys, clicks, events and fresh data do
//! to it.
//!
//! Nothing here reads the store or a clock. What has to be read comes back as an
//! `Effect`; what was read, and the time, are handed in.
use crate::dashboard::geometry::{AgentsClickCache, HistoryClickCache, OpsClickCache, TAB_COUNT};
use crate::dashboard::geometry;
use crate::dashboard::progress::ProgressSummaries;
use crate::dashboard::views::activity::{
    ops_selectable_count, ops_selected_target, ActivityData, OpsSelectable, OpsTarget,
};
use crate::dashboard::views::activity;
use crate::dashboard::views::conversation::ConversationViewState;
use crate::dashboard::views::executions::{
    history_selectable_count, history_selected_target, HistorySelectable, HistoryTarget,
};
use crate::dashboard::views::executions;
use crate::dashboard::views::log_viewer::ExecutionDetailState;
use crate::store::{AgentCostSummary, ExecutionRow};
use crate::text::str_eq;
use crate::text;
use vstd::prelude::*;

verus! {

/// Milliseconds between two looks at the input.
pub const TICK_RATE_MS: u64 = 250;

/// Threads that the Ops tab reads at most.
pub const ACTIVITY_ROW_LIMIT: i64 = 250;

/// Executions that the History tab reads at most.
pub const HISTORY_ROW_LIMIT: i64 = 200;

/// Executions that the History tab shows of a batch.
pub const HISTORY_GROUP_VISIBLE_LIMIT: usize = 10;

/// Merges that the Ops tab reads at most.
pub const MERGE_QUEUE_FETCH_LIMIT: i64 = 20;

/// Lines of the help.
pub const HELP_LINE_COUNT: u16 = 21;

/// Timeline events that are read at most when an execution is opened.
pub const TIMELINE_EVENT_LIMIT: i64 = 500;

/// Milliseconds that a refresh may take.
pub const REFRESH_TIMEOUT_MS: u64 = 500;

/// Lines that the mouse wheel scrolls in an overlay.
pub const MOUSE_SCROLL_STEP: usize = 3;

// ── Data ─────────────────────────────────────────────────────────────────────

/// An execution as the Agents tab shows it.
#[derive(Clone, Debug)]
pub struct ExecutionSummary {
    pub status: String,
    pub duration_ms: Option<i64>,
    /// When it finished, in seconds since the epoch.
    pub finished_at: Option<i64>,
}

/// What the Agents tab is drawn from.
#[derive(Clone, Debug)]
pub struct AgentsData {
    pub executions_by_agent: Vec<(String, Vec<ExecutionSummary>)>,
    pub active_counts: Vec<(String, i64)>,
    pub heartbeat_age_secs: Option<u64>,
    /// When the data was fetched, on the dashboard's millisecond clock.
    pub fetched_at: u64,
    pub cost_by_agent: Vec<AgentCostSummary>,
    /// Backend, state and failures of each circuit breaker.
    pub circuit_states: Vec<(String, String, u32)>,
}

/// What the History tab is drawn from.
#[derive(Clone, Debug)]
pub struct ExecutionsData {
    /// The most recent executions, newest first.
    pub executions: Vec<ExecutionRow>,
    /// When the data was fetched, on the dashboard's millisecond clock.
    pub fetched_at: u64,
}

/// How often a schedule has run.
#[derive(Clone, Debug)]
pub struct ScheduleRuns {
    pub name: String,
    pub last_fired_at: i64,
    pub run_count: u64,
}

/// What an attempt to read data gave.
#[derive(Debug)]
pub enum Refreshed<T> {
    Loaded(T),
    Failed(String),
    TimedOut,
}

/// What surrounds the dashboard at a moment.
#[derive(Clone, Debug)]
pub struct Moment {
    /// Seconds since the epoch.
    pub now: i64,
    /// The dashboard's millisecond clock.
    pub now_ms: u64,
    /// Seconds after which an active thread counts as stale.
    pub stale_active_secs: i64,
    /// Aliases of the configured agents.
    pub agents: Vec<String>,
}

/// A key.
#[derive(Clone, Copy, Debug, PartialEq, Eq, Structural)]
pub enum Key {
    Char(char),
    Up,
    Down,
    PageUp,
    PageDown,
    Tab,
    BackTab,
    Enter,
    Esc,
    Other,
}

/// What the mouse did.
#[derive(Clone, Copy, Debug, PartialEq, Eq, Structural)]
pub enum Mouse {
    LeftDown,
    ScrollUp,
    ScrollDown,
    Other,
}

/// What has to be read next.
#[derive(Clone, Debug)]
pub enum Effect {
    Nothing,
    RefreshActivity,
    RefreshAgents,
    RefreshExecutions,
    RefreshSchedules,
    /// Open the detail view of the execution with this id.
    OpenExecution(String),
    /// Open the detail view of an execution of the History list, by its position.
    OpenListed(usize),
    /// Open the conversation of the thread with this id.
    OpenConversation(String),
}

/// What an effect asks for.
pub enum EffectView {
    Nothing,
    RefreshActivity,
    RefreshAgents,
    RefreshExecutions,
    RefreshSchedules,
    OpenExecution(Seq<char>),
    OpenListed(int),
    OpenConversation(Seq<char>),
}

impl View for Effect {
    type V = EffectView;

    open spec fn view(&self) -> EffectView {
        match *self {
            Effect::Nothing => EffectView::Nothing,
            Effect::RefreshActivity => EffectView::RefreshActivity,
            Effect::RefreshAgents => EffectView::RefreshAgents,
            Effect::RefreshExecutions => EffectView::RefreshExecutions,
            Effect::RefreshSchedules => EffectView::RefreshSchedules,
            Effect::OpenExecution(id) => EffectView::OpenExecution(id@),
            Effect::OpenListed(i) => EffectView::OpenListed(i as int),
            Effect::OpenConversation(id) => EffectView::OpenConversation(id@),
        }
    }
}

/// The state of the dashboard.
#[derive(Debug)]
pub struct App {
    pub active_tab: usize,
    pub should_quit: bool,
    pub confirm_quit: bool,
    /// Milliseconds between two reads of the same data.
    pub poll_interval_ms: u64,
    pub activity_data: Option<ActivityData>,
    pub activity_selected: usize,
    pub agents_data: Option<AgentsData>,
    pub agents_selected: usize,
    pub executions_data: Option<ExecutionsData>,
    pub executions_selected: usize,
    pub viewing_log: Option<ExecutionDetailState>,
    pub viewing_conversation: Option<ConversationViewState>,
    pub show_help: bool,
    pub help_scroll: u16,
    /// Rows of the help in sight when it was last drawn.
    pub help_viewport_height: u16,
    /// The batch that the Ops tab is narrowed to.
    pub drill_batch: Option<String>,
    /// The batch that the History tab is narrowed to.
    pub history_drill_batch: Option<String>,
    /// The agent that the History tab is narrowed to.
    pub history_agent_filter: Option<String>,
    pub show_hint_banner: bool,
    pub log_dir: String,
    pub activity_refresh_error: Option<String>,
    pub agents_refresh_error: Option<String>,
    pub executions_refresh_error: Option<String>,
    pub last_activity_attempt: Option<u64>,
    pub last_agents_attempt: Option<u64>,
    pub last_executions_attempt: Option<u64>,
    pub progress: ProgressSummaries,
    pub schedule_runs: Option<Vec<ScheduleRuns>>,
    pub last_schedule_attempt: Option<u64>,
    pub settings_scroll: u16,
    /// Lines of the settings when they were last drawn.
    pub settings_line_count: u16,
    /// Rows of the settings in sight when they were last drawn.
    pub settings_viewport_height: u16,
    pub ops_clicks: OpsClickCache,
    pub history_clicks: HistoryClickCache,
    pub agents_clicks: AgentsClickCache,
}

// ── What the state means ─────────────────────────────────────────────────────

/// The executions that an agent filter lets through.
pub open spec fn filtered(execs: Seq<ExecutionRow>, agent: Option<Seq<char>>) -> Seq<ExecutionRow>
    decreases execs.len(),
{
    if execs.len() == 0 {
        seq![]
    } else {
        let rest = filtered(execs.drop_last(), agent);
        match agent {
            Some(a) if execs.last().agent_alias@ != a => rest,
            _ => rest.push(execs.last()),
        }
    }
}

/// The last position in a list of `count` entries.
pub open spec fn last_of(count: nat) -> usize {
    if count == 0 {
        0
    } else {
        (count - 1) as usize
    }
}

/// One position further, up to `last`.
pub open spec fn step_down(selected: usize, last: usize) -> usize {
    if selected >= last {
        last
    } else {
        (selected + 1) as usize
    }
}

/// One position back, down to the first.
pub open spec fn step_up(selected: usize) -> usize {
    if selected == 0 {
        0
    } else {
        (selected - 1) as usize
    }
}

/// A position kept within a list of `count` entries.
pub open spec fn kept_within(selected: usize, count: nat) -> usize {
    if selected > last_of(count) {
        last_of(count)
    } else {
        selected
    }
}

impl App {
    /// What the Ops tab lists.
    pub open spec fn ops_list(self, at: Moment) -> Seq<OpsTarget> {
        match self.activity_data {
            Some(d) => activity::ops_targets(
                d.rows@,
                d.merge_ops@,
                text::opt_text(self.drill_batch),
                at.now,
                at.stale_active_secs,
            ),
            None => seq![],
        }
    }

    /// What the Ops tab has selected.
    pub open spec fn ops_selection(self, at: Moment) -> Option<OpsTarget> {
        let list = self.ops_list(at);
        if self.activity_selected < list.len() {
            Some(list[self.activity_selected as int])
        } else {
            None
        }
    }

    /// The executions of the History tab, filtered.
    pub open spec fn history_rows(self) -> Seq<ExecutionRow> {
        match self.executions_data {
            Some(d) => filtered(d.executions@, text::opt_text(self.history_agent_filter)),
            None => seq![],
        }
    }

    /// What the History tab lists.
    pub open spec fn history_list(self) -> Seq<HistoryTarget> {
        match self.executions_data {
            Some(_) => executions::history_targets(
                self.history_rows(),
                text::opt_text(self.history_drill_batch),
                HISTORY_GROUP_VISIBLE_LIMIT as nat,
            ),
            None => seq![],
        }
    }

    /// What the History tab has selected.
    pub open spec fn history_selection(self) -> Option<HistoryTarget> {
        let list = self.history_list();
        if self.executions_selected < list.len() {
            Some(list[self.executions_selected as int])
        } else {
            None
        }
    }

    /// How far the settings can be scrolled.
    pub open spec fn settings_end(self) -> u16 {
        if self.settings_line_count >= self.settings_viewport_height {
            (self.settings_line_count - self.settings_viewport_height) as u16
        } else {
            0
        }
    }

    /// How far the help can be scrolled.
    pub open spec fn help_end(self) -> u16 {
        if self.help_viewport_height >= HELP_LINE_COUNT {
            0
        } else {
            (HELP_LINE_COUNT - self.help_viewport_height) as u16
        }
    }
}

// ── Construction ─────────────────────────────────────────────────────────────

impl App {
    /// The dashboard before anything was read, on its first tab.
    pub fn new(log_dir: String, poll_interval_ms: u64) -> (r: App)
        ensures
            r.active_tab == 0,
            !r.should_quit && !r.confirm_quit && !r.show_help,
            r.show_hint_banner,
            r.poll_interval_ms == poll_interval_ms,
            r.log_dir == log_dir,
            r.activity_data is None && r.agents_data is None && r.executions_data is None,
            r.activity_selected == 0 && r.agents_selected == 0 && r.executions_selected == 0,
            r.viewing_log is None && r.viewing_conversation is None,
            r.help_scroll == 0 && r.help_viewport_height == 0,
            r.drill_batch is None,
            r.history_drill_batch is None && r.history_agent_filter is None,
            r.activity_refresh_error is None && r.agents_refresh_error is None,
            r.executions_refresh_error is None,
            r.last_activity_attempt is None && r.last_agents_attempt is None,
            r.last_executions_attempt is None && r.last_schedule_attempt is None,
            forall|id: Seq<char>| (#[trigger] r.progress.shown(id)) is None,
            r.schedule_runs is None,
            r.settings_scroll == 0 && r.settings_line_count == 0,
            r.settings_viewport_height == 0,
            r.ops_clicks.slot_geometry@.len() == 0 && r.ops_clicks.scroll == 0,
            r.ops_clicks.list_rect == geometry::no_rect(),
            r.history_clicks.selectable_to_row@.len() == 0,
            r.history_clicks.scroll_offset == 0 && r.history_clicks.header_rows == 0,
            r.history_clicks.table_rect == geometry::no_rect(),
            r.agents_clicks.card_geometry@.len() == 0,
            r.agents_clicks.list_rect == geometry::no_rect(),
    {
        App {
            active_tab: 0,
            should_quit: false,
            confirm_quit: false,
            poll_interval_ms,
            activity_data: None,
            activity_selected: 0,
            agents_data: None,
            agents_selected: 0,
            executions_data: None,
            executions_selected: 0,
            viewing_log: None,
            viewing_conversation: None,
            show_help: false,
            help_scroll: 0,
            help_viewport_height: 0,
            drill_batch: None,
            history_drill_batch: None,
            history_agent_filter: None,
            show_hint_banner: true,
            log_dir,
            activity_refresh_error: None,
            agents_refresh_error: None,
            executions_refresh_error: None,
            last_activity_attempt: None,
            last_agents_attempt: None,
            last_executions_attempt: None,
            progress: ProgressSummaries::new(),
            schedule_runs: None,
            last_schedule_attempt: None,
            settings_scroll: 0,
            settings_line_count: 0,
            settings_viewport_height: 0,
            ops_clicks: OpsClickCache::new(),
            history_clicks: HistoryClickCache::new(),
            agents_clicks: AgentsClickCache::new(),
        }
    }

    /// Executions that the History tab shows of a batch.
    pub fn history_group_visible_limit(&self) -> (r: usize)
        ensures
            r == HISTORY_GROUP_VISIBLE_LIMIT,
    {
        HISTORY_GROUP_VISIBLE_LIMIT
    }

    /// The progress of a running execution.
    pub fn get_progress_summary(&self, execution_id: &str) -> (r: Option<&str>)
        ensures
            match r {
                Some(s) => self.progress.shown(execution_id@) matches Some(e) && (e).0 == s@,
                None => self.progress.shown(execution_id@) is None,
            },
    {
        self.progress.get_progress_summary(execution_id)
    }
}

// ── Tabs ─────────────────────────────────────────────────────────────────────

/// The tab behind a tab, after the last one the first.
pub open spec fn tab_after(tab: usize) -> usize {
    ((tab + 1) % 4) as usize
}

/// The tab before a tab, before the first one the last.
pub open spec fn tab_before(tab: usize) -> usize {
    if tab == 0 {
        3
    } else {
        (tab - 1) as usize
    }
}

/// Going to the next tab and back changes nothing, and the other way round.
pub proof fn law_tab_steps_cancel(tab: usize)
    requires
        tab < TAB_COUNT,
    ensures
        tab_before(tab_after(tab)) == tab,
        tab_after(tab_before(tab)) == tab,
        tab_after(tab) < TAB_COUNT,
        tab_before(tab) < TAB_COUNT,
{
}

impl App {
    /// Goes to the next tab.
    pub fn next_tab(&mut self)
        requires
            old(self).active_tab < TAB_COUNT,
        ensures
            *final(self) == (App { active_tab: tab_after(old(self).active_tab), ..*old(self) }),
    {
        self.active_tab = (self.active_tab + 1) % TAB_COUNT;
    }

    /// Goes to the previous tab.
    pub fn prev_tab(&mut self)
        ensures
            *final(self) == (App { active_tab: tab_before(old(self).active_tab), ..*old(self) }),
    {
        if self.active_tab == 0 {
            self.active_tab = TAB_COUNT - 1;
        } else {
            self.active_tab -= 1;
        }
    }
}

// ── Selection ────────────────────────────────────────────────────────────────

/// The state with the selection of the active tab moved up.
pub open spec fn row_before(a: App) -> App {
    if a.active_tab == 0 {
        App { activity_selected: step_up(a.activity_selected), ..a }
    } else if a.active_tab == 1 {
        App { agents_selected: step_up(a.agents_selected), ..a }
    } else if a.active_tab == 2 {
        App { executions_selected: step_up(a.executions_selected), ..a }
    } else if a.active_tab == 3 {
        App {
            settings_scroll: if a.settings_scroll == 0 {
                0
            } else {
                (a.settings_scroll - 1) as u16
            },
            ..a
        }
    } else {
        a
    }
}

/// The state with the selection of the active tab moved down.
pub open spec fn row_after(a: App, at: Moment) -> App {
    if a.active_tab == 0 {
        App {
            activity_selected: step_down(a.activity_selected, last_of(a.ops_list(at).len())),
            ..a
        }
    } else if a.active_tab == 1 {
        App { agents_selected: step_down(a.agents_selected, last_of(at.agents@.len())), ..a }
    } else if a.active_tab == 2 {
        App {
            executions_selected: step_down(a.executions_selected, last_of(a.history_list().len())),
            ..a
        }
    } else if a.active_tab == 3 {
        App {
            settings_scroll: if a.settings_scroll >= a.settings_end() {
                a.settings_end()
            } else {
                (a.settings_scroll + 1) as u16
            },
            ..a
        }
    } else {
        a
    }
}

/// The state with the first entry of the active tab selected.
pub open spec fn row_first(a: App) -> App {
    if a.active_tab == 0 {
        App { activity_selected: 0, ..a }
    } else if a.active_tab == 1 {
        App { agents_selected: 0, ..a }
    } else if a.active_tab == 2 {
        App { executions_selected: 0, ..a }
    } else if a.active_tab == 3 {
        App { settings_scroll: 0, ..a }
    } else {
        a
    }
}

/// The state with the last entry of the active tab selected.
pub open spec fn row_last(a: App, at: Moment) -> App {
    if a.active_tab == 0 {
        App { activity_selected: last_of(a.ops_list(at).len()), ..a }
    } else if a.active_tab == 1 {
        App { agents_selected: last_of(at.agents@.len()), ..a }
    } else if a.active_tab == 2 {
        App { executions_selected: last_of(a.history_list().len()), ..a }
    } else if a.active_tab == 3 {
        App { settings_scroll: a.settings_end(), ..a }
    } else {
        a
    }
}

/// An optional string as a borrowed one.
fn borrowed(a: &Option<String>) -> (r: Option<&str>)
    ensures
        activity::drill_text(r) == text::opt_text(*a),
{
    match a {
        Some(s) => Some(s.as_str()),
        None => None,
    }
}

fn one_down(selected: usize, count: usize) -> (r: usize)
    ensures
        r == step_down(selected, last_of(count as nat)),
{
    let last: usize = count.saturating_sub(1);
    if selected >= last {
        last
    } else {
        selected + 1
    }
}

impl App {
    /// How many entries the Ops tab lists.
    fn ops_count(&self, at: &Moment) -> (r: usize)
        ensures
            r == self.ops_list(*at).len(),
    {
        match &self.activity_data {
            Some(d) => ops_selectable_count(
                d.rows.as_slice(),
                d.merge_ops.as_slice(),
                borrowed(&self.drill_batch),
                at.now,
                at.stale_active_secs,
            ),
            None => 0,
        }
    }

    /// What the Ops tab has selected.
    pub fn selected_activity_target(&self, at: &Moment) -> (r: Option<OpsSelectable>)
        ensures
            match r {
                Some(t) => self.ops_selection(*at) == Some(t@),
                None => self.ops_selection(*at) is None,
            },
    {
        match &self.activity_data {
            Some(d) => ops_selected_target(
                d.rows.as_slice(),
                d.merge_ops.as_slice(),
                borrowed(&self.drill_batch),
                self.activity_selected,
                at.now,
                at.stale_active_secs,
            ),
            None => None,
        }
    }

    /// The executions of the History tab, filtered.
    pub fn effective_executions(&self) -> (r: Option<Vec<ExecutionRow>>)
        ensures
            match r {
                Some(v) => self.executions_data is Some && v@ == self.history_rows(),
                None => self.executions_data is None,
            },
    {
        match &self.executions_data {
            None => None,
            Some(d) => Some(filter_executions(&d.executions, &self.history_agent_filter)),
        }
    }

    /// How many entries the History tab lists.
    pub(crate) fn history_count(&self) -> (r: usize)
        ensures
            r == self.history_list().len(),
    {
        match self.effective_executions() {
            Some(v) => history_selectable_count(
                v.as_slice(),
                borrowed(&self.history_drill_batch),
                HISTORY_GROUP_VISIBLE_LIMIT,
            ),
            None => 0,
        }
    }

    /// What the History tab has selected.
    pub fn selected_history_target(&self) -> (r: Option<HistorySelectable>)
        ensures
            match r {
                Some(t) => self.history_selection() == Some(t@),
                None => self.history_selection() is None,
            },
    {
        match self.effective_executions() {
            Some(v) => history_selected_target(
                v.as_slice(),
                borrowed(&self.history_drill_batch),
                self.executions_selected,
                HISTORY_GROUP_VISIBLE_LIMIT,
            ),
            None => None,
        }
    }

    /// Moves the selection of the active tab up.
    pub fn select_prev_row(&mut self)
        ensures
            *final(self) == row_before(*old(self)),
    {
        match self.active_tab {
            0 => {
                self.activity_selected = self.activity_selected.saturating_sub(1);
            },
            1 => {
                self.agents_selected = self.agents_selected.saturating_sub(1);
            },
            2 => {
                self.executions_selected = self.executions_selected.saturating_sub(1);
            },
            3 => {
                self.settings_scroll = self.settings_scroll.saturating_sub(1);
            },
            _ => {},
        }
    }

    /// Moves the selection of the active tab down.
    pub fn select_next_row(&mut self, at: &Moment)
        ensures
            *final(self) == row_after(*old(self), *at),
    {
        match self.active_tab {
            0 => {
                let count: usize = self.ops_count(at);
                self.activity_selected = one_down(self.activity_selected, count);
            },
            1 => {
                self.agents_selected = one_down(self.agents_selected, at.agents.len());
            },
            2 => {
                let count: usize = self.history_count();
                self.executions_selected = one_down(self.executions_selected, count);
            },
            3 => {
                let end: u16 = self.settings_line_count.saturating_sub(
                    self.settings_viewport_height,
                );
                self.settings_scroll = if self.settings_scroll >= end {
                    end
                } else {
                    self.settings_scroll + 1
                };
            },
            _ => {},
        }
    }

    /// Selects the first entry of the active tab.
    pub fn select_first_row(&mut self)
        ensures
            *final(self) == row_first(*old(self)),
    {
        match self.active_tab {
            0 => {
                self.activity_selected = 0;
            },
            1 => {
                self.agents_selected = 0;
            },
            2 => {
                self.executions_selected = 0;
            },
            3 => {
                self.settings_scroll = 0;
            },
            _ => {},
        }
    }

    /// Selects the last entry of the active tab.
    pub fn select_last_row(&mut self, at: &Moment)
        ensures
            *final(self) == row_last(*old(self), *at),
    {
        match self.active_tab {
            0 => {
                self.activity_selected = self.ops_count(at).saturating_sub(1);
            },
            1 => {
                self.agents_selected = at.agents.len().saturating_sub(1);
            },
            2 => {
                self.executions_selected = self.history_count().saturating_sub(1);
            },
            3 => {
                self.settings_scroll = self.settings_line_count.saturating_sub(
                    self.settings_viewport_height,
                );
            },
            _ => {},
        }
    }
}

fn filter_executions(execs: &Vec<ExecutionRow>, agent: &Option<String>) -> (r: Vec<ExecutionRow>)
    ensures
        r@ == filtered(execs@, text::opt_text(*agent)),
{
    let mut out: Vec<ExecutionRow> = Vec::new();
    let mut i: usize = 0;
    while i < execs.len()
        invariant
            i <= execs@.len(),
            out@ == filtered(execs@.take(i as int), text::opt_text(*agent)),
        decreases execs@.len() - i,
    {
        assert(execs@.take(i + 1).drop_last() =~= execs@.take(i as int));
        let keep: bool = match agent {
            Some(a) => str_eq(execs[i].agent_alias.as_str(), a.as_str()),
            None => true,
        };
        if keep {
            out.push(execs[i].duplicate());
        }
        i += 1;
    }
    assert(execs@.take(i as int) =~= execs@);
    out
}

/// Moving down or up by one keeps the selection of a list within it.
pub proof fn law_selection_stays_inside(selected: usize, count: nat)
    requires
        0 < count <= usize::MAX,
    ensures
        step_down(selected, last_of(count)) < count,
        selected < count ==> step_up(selected) < count,
        kept_within(selected, count) < count,
        selected < count ==> kept_within(selected, count) == selected,
{
}

/// Moving down and then up returns to the same entry, unless it was the last.
pub proof fn law_down_then_up(selected: usize, count: nat)
    requires
        selected + 1 < count <= usize::MAX,
    ensures
        step_up(step_down(selected, last_of(count))) == selected,
{
}

/// With an agent asked for, the executions of that agent are listed, each of them
/// and in order; without one, all are.
pub proof fn law_history_keeps_to_the_agent(
    execs: Seq<ExecutionRow>,
    e: ExecutionRow,
    agent: Option<Seq<char>>,
)
    ensures
        filtered(execs.push(e), agent) == if agent is None || e.agent_alias@ == agent->0 {
            filtered(execs, agent).push(e)
        } else {
            filtered(execs, agent)
        },
        filtered(Seq::empty(), agent).len() == 0,
{
    assert(execs.push(e).drop_last() =~= execs);
    assert(execs.push(e).last() == e);
}

/// The History tab lists what the agent and the batch that were asked for leave,
/// ten executions of a batch at most.
pub proof fn law_history_lists_what_is_left(a: App, d: ExecutionsData)
    requires
        a.executions_data == Some(d),
    ensures
        a.history_rows() == filtered(
            d.executions@,
            match a.history_agent_filter {
                Some(agent) => Some(agent@),
                None => None,
            },
        ),
        a.history_list() == executions::history_targets(
            a.history_rows(),
            match a.history_drill_batch {
                Some(batch) => Some(batch@),
                None => None,
            },
            10,
        ),
        a.executions_selected < a.history_list().len() ==> a.history_selection() == Some(
            a.history_list()[a.executions_selected as int],
        ),
        a.executions_selected >= a.history_list().len() ==> a.history_selection() is None,
{
}

/// The Ops tab lists the entries of its data for the batch that it is narrowed to,
/// and selects one of them.
pub proof fn law_ops_lists_its_data(a: App, d: ActivityData, at: Moment)
    requires
        a.activity_data == Some(d),
    ensures
        a.ops_list(at) == activity::ops_targets(
            d.rows@,
            d.merge_ops@,
            match a.drill_batch {
                Some(batch) => Some(batch@),
                None => None,
            },
            at.now,
            at.stale_active_secs,
        ),
        a.activity_selected < a.ops_list(at).len() ==> a.ops_selection(at) == Some(
            a.ops_list(at)[a.activity_selected as int],
        ),
        a.activity_selected >= a.ops_list(at).len() ==> a.ops_selection(at) is None,
{
}

/// Moving up and down changes the selection of the tab in view by one, within its
/// list, and of no other tab.
pub proof fn law_rows_of_the_tab_in_view(a: App, at: Moment)
    requires
        a.active_tab < TAB_COUNT,
    ensures
        ({
            let up = row_before(a);
            let down = row_after(a, at);
            let ops = a.ops_list(at).len();
            let history = a.history_list().len();
            &&& a.active_tab != 0 ==> up.activity_selected == a.activity_selected
                && down.activity_selected == a.activity_selected
            &&& a.active_tab != 1 ==> up.agents_selected == a.agents_selected
                && down.agents_selected == a.agents_selected
            &&& a.active_tab != 2 ==> up.executions_selected == a.executions_selected
                && down.executions_selected == a.executions_selected
            &&& a.active_tab != 3 ==> up.settings_scroll == a.settings_scroll
                && down.settings_scroll == a.settings_scroll
            &&& a.active_tab == 0 && a.activity_selected > 0 ==> up.activity_selected
                == a.activity_selected - 1
            &&& a.active_tab == 0 && a.activity_selected == 0 ==> up.activity_selected == 0
            &&& a.active_tab == 0 && a.activity_selected + 1 < ops <= usize::MAX
                ==> down.activity_selected == a.activity_selected + 1
            &&& a.active_tab == 0 && 0 < ops <= usize::MAX && a.activity_selected + 1 >= ops
                ==> down.activity_selected == ops - 1
            &&& a.active_tab == 1 && a.agents_selected > 0 ==> up.agents_selected
                == a.agents_selected - 1
            &&& a.active_tab == 1 && a.agents_selected + 1 < at.agents@.len() <= usize::MAX
                ==> down.agents_selected == a.agents_selected + 1
            &&& a.active_tab == 2 && a.executions_selected > 0 ==> up.executions_selected
                == a.executions_selected - 1
            &&& a.active_tab == 2 && a.executions_selected + 1 < history <= usize::MAX
                ==> down.executions_selected == a.executions_selected + 1
            &&& a.active_tab == 2 && 0 < history <= usize::MAX && a.executions_selected + 1
                >= history ==> down.executions_selected == history - 1
            &&& a.active_tab == 3 && a.settings_scroll > 0 ==> up.settings_scroll
                == a.settings_scroll - 1
            &&& a.active_tab == 3 && a.settings_scroll + a.settings_viewport_height
                < a.settings_line_count ==> down.settings_scroll == a.settings_scroll + 1
            &&& up.active_tab == a.active_tab && down.active_tab == a.active_tab
            &&& up.drill_batch == a.drill_batch && down.drill_batch == a.drill_batch
            &&& up.history_drill_batch == a.history_drill_batch && down.history_drill_batch
                == a.history_drill_batch
        }),
{
}

/// The first and the last entry of the tab in view.
pub proof fn law_ends_of_the_tab_in_view(a: App, at: Moment)
    requires
        a.active_tab < TAB_COUNT,
    ensures
        a.active_tab == 0 ==> row_first(a) == (App { activity_selected: 0, ..a }),
        a.active_tab == 1 ==> row_first(a) == (App { agents_selected: 0, ..a }),
        a.active_tab == 2 ==> row_first(a) == (App { executions_selected: 0, ..a }),
        a.active_tab == 3 ==> row_first(a) == (App { settings_scroll: 0, ..a }),
        a.active_tab == 0 && 0 < a.ops_list(at).len() <= usize::MAX ==> row_last(
            a,
            at,
        ).activity_selected == a.ops_list(at).len() - 1,
        a.active_tab == 1 && 0 < at.agents@.len() <= usize::MAX ==> row_last(a, at).agents_selected
            == at.agents@.len() - 1,
        a.active_tab == 2 && 0 < a.history_list().len() <= usize::MAX ==> row_last(
            a,
            at,
        ).executions_selected == a.history_list().len() - 1,
        a.active_tab == 3 && a.settings_line_count >= a.settings_viewport_height ==> row_last(
            a,
            at,
        ).settings_scroll == a.settings_line_count - a.settings_viewport_height,
{
}

/// The tabs follow each other in a ring of four.
pub proof fn law_tabs_in_a_ring(tab: usize)
    requires
        tab < 4,
    ensures
        tab < 3 ==> tab_after(tab) == tab + 1,
        tab == 3 ==> tab_after(tab) == 0,
        tab > 0 ==> tab_before(tab) == tab - 1,
        tab == 0 ==> tab_before(tab) == 3,
{
}

} // verus!
