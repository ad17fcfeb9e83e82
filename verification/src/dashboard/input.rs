//! Keys and the mouse.
use crate::dashboard::actions;
use crate::dashboard::app::{
    App, Effect, EffectView, Key, Moment, Mouse, MOUSE_SCROLL_STEP, HELP_LINE_COUNT,
};
use crate::dashboard::app;
use crate::dashboard::geometry::{detect_log_tab_click, detect_tab_click, Rect, TAB_COUNT};
use crate::dashboard::geometry;
use crate::dashboard::views::activity::{OpsSelectable, OpsTarget};
use crate::dashboard::views::conversation::ConversationViewState;
use crate::dashboard::views::executions::{HistorySelectable, HistoryTarget};
use crate::dashboard::views::log_viewer::{ExecutionDetailState, Tab as LogTab, TabState};
use crate::dashboard::views::log_viewer;
use crate::store::MergeOperation;
use crate::text::str_eq;
use crate::text;
use vstd::prelude::*;

verus! {

// ── Help and filters ─────────────────────────────────────────────────────────

/// The state with the help opened at its first line, or closed.
pub open spec fn help_toggled(a: App) -> App {
    App {
        show_help: !a.show_help,
        help_scroll: if a.show_help {
            a.help_scroll
        } else {
            0
        },
        ..a
    }
}

/// The state with the innermost filter of the active tab dropped. In the History
/// tab the batch goes before the agent.
pub open spec fn filters_cleared(a: App) -> App {
    if a.active_tab == 0 && a.drill_batch is Some {
        App { drill_batch: None, activity_selected: 0, ..a }
    } else if a.active_tab == 2 && a.history_drill_batch is Some {
        App { history_drill_batch: None, executions_selected: 0, ..a }
    } else if a.active_tab == 2 && a.history_agent_filter is Some {
        App { history_agent_filter: None, executions_selected: 0, ..a }
    } else {
        a
    }
}

impl App {
    /// Opens the help at its first line, or closes it.
    pub fn toggle_help(&mut self)
        ensures
            *final(self) == help_toggled(*old(self)),
    {
        self.show_help = !self.show_help;
        if self.show_help {
            self.help_scroll = 0;
        }
    }

    /// Drops the innermost filter of the active tab.
    pub fn clear_drill_filters(&mut self)
        ensures
            *final(self) == filters_cleared(*old(self)),
    {
        if self.active_tab == 0 && self.drill_batch.is_some() {
            self.drill_batch = None;
            self.activity_selected = 0;
        }
        if self.active_tab == 2 {
            if self.history_drill_batch.is_some() {
                self.history_drill_batch = None;
                self.executions_selected = 0;
            } else if self.history_agent_filter.is_some() {
                self.history_agent_filter = None;
                self.executions_selected = 0;
            }
        }
    }
}

// ── Opening ──────────────────────────────────────────────────────────────────

/// What opening the selected item comes to.
pub enum EnterView {
    /// Narrow the Ops tab to a batch.
    DrillOps(Seq<char>),
    /// Show the executions of an agent.
    DrillAgent(Seq<char>),
    /// Narrow the History tab to a batch.
    DrillHistory(Seq<char>),
    /// Read something.
    Open(EffectView),
}

/// What opening the selected item comes to. In the Ops tab a batch is drilled
/// into, a merge opens the conversation of its thread, and a thread opens its
/// latest execution. In the Agents tab an agent leads to its executions. In the
/// History tab a batch is drilled into and an execution is opened.
pub open spec fn enter_choice(a: App, at: Moment) -> EnterView {
    let nothing = EnterView::Open(EffectView::Nothing);
    if a.active_tab == 0 {
        match (a.activity_data, a.ops_selection(at)) {
            (Some(d), Some(OpsTarget::Batch(id))) => EnterView::DrillOps(id),
            (Some(d), Some(OpsTarget::MergeOp(id))) => match actions::op_named(d.merge_ops@, id) {
                Some(op) => EnterView::Open(EffectView::OpenConversation(op.thread_id@)),
                None => nothing,
            },
            (Some(d), Some(OpsTarget::Thread(i))) => if i < d.rows@.len() {
                match text::opt_text(d.rows@[i as int].execution_id) {
                    Some(id) => EnterView::Open(EffectView::OpenExecution(id)),
                    None => nothing,
                }
            } else {
                nothing
            },
            _ => nothing,
        }
    } else if a.active_tab == 1 {
        if a.agents_selected < at.agents@.len() {
            EnterView::DrillAgent(at.agents@[a.agents_selected as int]@)
        } else {
            nothing
        }
    } else if a.active_tab == 2 {
        match a.history_selection() {
            Some(HistoryTarget::Batch(id)) => EnterView::DrillHistory(id),
            Some(HistoryTarget::Execution(i)) => if i < a.history_rows().len() {
                EnterView::Open(EffectView::OpenListed(i as int))
            } else {
                nothing
            },
            None => nothing,
        }
    } else {
        nothing
    }
}

/// Whether `b` and `e` are what opening the selected item of `a` leads to.
pub open spec fn entered(a: App, at: Moment, b: App, e: EffectView) -> bool {
    match enter_choice(a, at) {
        EnterView::DrillOps(id) => {
            &&& e == EffectView::RefreshActivity
            &&& text::opt_text(b.drill_batch) == Some(id)
            &&& b == (App { drill_batch: b.drill_batch, activity_selected: 0, ..a })
        },
        EnterView::DrillAgent(alias) => {
            &&& e == EffectView::RefreshExecutions
            &&& text::opt_text(b.history_agent_filter) == Some(alias)
            &&& b == (App {
                history_agent_filter: b.history_agent_filter,
                history_drill_batch: None,
                executions_selected: 0,
                active_tab: 2,
                ..a
            })
        },
        EnterView::DrillHistory(id) => {
            &&& e == EffectView::RefreshExecutions
            &&& text::opt_text(b.history_drill_batch) == Some(id)
            &&& b == (App { history_drill_batch: b.history_drill_batch, executions_selected: 0, ..a })
        },
        EnterView::Open(effect) => e == effect && b == a,
    }
}

/// The conversation that belongs to the selected item: that of the selected
/// thread, or of the selected execution.
pub open spec fn conversation_choice(a: App, at: Moment) -> EffectView {
    if a.active_tab == 0 {
        match (a.activity_data, a.ops_selection(at)) {
            (Some(d), Some(OpsTarget::Thread(i))) => if i < d.rows@.len() {
                EffectView::OpenConversation(d.rows@[i as int].thread_id@)
            } else {
                EffectView::Nothing
            },
            _ => EffectView::Nothing,
        }
    } else if a.active_tab == 2 {
        match a.history_selection() {
            Some(HistoryTarget::Execution(i)) => if i < a.history_rows().len() {
                EffectView::OpenConversation(a.history_rows()[i as int].thread_id@)
            } else {
                EffectView::Nothing
            },
            _ => EffectView::Nothing,
        }
    } else {
        EffectView::Nothing
    }
}

fn merge_thread(ops: &Vec<MergeOperation>, id: &str) -> (r: Option<String>)
    ensures
        text::opt_text(r) == match actions::op_named(ops@, id@) {
            Some(op) => Some(op.thread_id@),
            None => None,
        },
{
    let mut k: usize = 0;
    assert(ops@.skip(0) =~= ops@);
    while k < ops.len()
        invariant
            k <= ops@.len(),
            actions::op_named(ops@, id@) == actions::op_named(ops@.skip(k as int), id@),
        decreases ops@.len() - k,
    {
        if str_eq(ops[k].id.as_str(), id) {
            return Some(ops[k].thread_id.clone());
        }
        assert(ops@.skip(k as int).skip(1) =~= ops@.skip(k + 1));
        k += 1;
    }
    None
}

impl App {
    /// Opens the selected item.
    pub fn enter(&mut self, at: &Moment) -> (r: Effect)
        ensures
            entered(*old(self), *at, *final(self), r@),
    {
        if self.active_tab == 0 {
            match self.selected_activity_target(at) {
                Some(OpsSelectable::Batch(id)) => {
                    self.drill_batch = Some(id);
                    self.activity_selected = 0;
                    Effect::RefreshActivity
                },
                Some(OpsSelectable::MergeOp(id)) => match &self.activity_data {
                    Some(d) => match merge_thread(&d.merge_ops, id.as_str()) {
                        Some(thread_id) => Effect::OpenConversation(thread_id),
                        None => Effect::Nothing,
                    },
                    None => Effect::Nothing,
                },
                Some(OpsSelectable::Thread(i)) => match &self.activity_data {
                    Some(d) => if i < d.rows.len() {
                        match &d.rows[i].execution_id {
                            Some(id) => Effect::OpenExecution(id.clone()),
                            None => Effect::Nothing,
                        }
                    } else {
                        Effect::Nothing
                    },
                    None => Effect::Nothing,
                },
                None => Effect::Nothing,
            }
        } else if self.active_tab == 1 {
            if self.agents_selected < at.agents.len() {
                let alias: String = at.agents[self.agents_selected].clone();
                self.history_agent_filter = Some(alias);
                self.history_drill_batch = None;
                self.executions_selected = 0;
                self.active_tab = 2;
                Effect::RefreshExecutions
            } else {
                Effect::Nothing
            }
        } else if self.active_tab == 2 {
            match self.selected_history_target() {
                Some(HistorySelectable::Batch(id)) => {
                    self.history_drill_batch = Some(id);
                    self.executions_selected = 0;
                    Effect::RefreshExecutions
                },
                Some(HistorySelectable::Execution(i)) => match self.effective_executions() {
                    Some(v) => if i < v.len() {
                        Effect::OpenListed(i)
                    } else {
                        Effect::Nothing
                    },
                    None => Effect::Nothing,
                },
                None => Effect::Nothing,
            }
        } else {
            Effect::Nothing
        }
    }

    /// Opens the conversation that belongs to the selected item.
    pub fn open_conversation(&self, at: &Moment) -> (r: Effect)
        ensures
            r@ == conversation_choice(*self, *at),
    {
        if self.active_tab == 0 {
            match (&self.activity_data, self.selected_activity_target(at)) {
                (Some(d), Some(OpsSelectable::Thread(i))) => if i < d.rows.len() {
                    Effect::OpenConversation(d.rows[i].thread_id.clone())
                } else {
                    Effect::Nothing
                },
                _ => Effect::Nothing,
            }
        } else if self.active_tab == 2 {
            match (self.selected_history_target(), self.effective_executions()) {
                (Some(HistorySelectable::Execution(i)), Some(v)) => if i < v.len() {
                    Effect::OpenConversation(v[i].thread_id.clone())
                } else {
                    Effect::Nothing
                },
                _ => Effect::Nothing,
            }
        } else {
            Effect::Nothing
        }
    }
}

// ── Overlays ─────────────────────────────────────────────────────────────────

/// At least one row.
pub open spec fn page_of(visible_rows: usize) -> usize {
    if visible_rows == 0 {
        1
    } else {
        visible_rows
    }
}

/// Whether `w` is `v` with another state of its active tab.
pub open spec fn active_tab_set(
    v: ExecutionDetailState,
    w: ExecutionDetailState,
    ts: TabState,
) -> bool {
    w.same_but_tab_states(v) && w.tab_states@ == v.tab_states@.update(v.active_tab.position(), ts)
}

/// Whether `w` is what a key makes of the detail view `v`.
pub open spec fn detail_key(v: ExecutionDetailState, key: Key, w: ExecutionDetailState) -> bool {
    let ts = v.active();
    let page = page_of(v.visible_rows);
    match key {
        Key::Up | Key::Char('k') => active_tab_set(
            v,
            w,
            TabState { scroll_offset: log_viewer::up_by(ts.scroll_offset, 1), follow: false },
        ),
        Key::Down | Key::Char('j') => active_tab_set(
            v,
            w,
            TabState { scroll_offset: log_viewer::down_by(ts.scroll_offset, 1), follow: ts.follow },
        ),
        Key::PageUp => active_tab_set(
            v,
            w,
            TabState { scroll_offset: log_viewer::up_by(ts.scroll_offset, page), follow: false },
        ),
        Key::PageDown => active_tab_set(
            v,
            w,
            TabState { scroll_offset: log_viewer::down_by(ts.scroll_offset, page), follow: ts.follow },
        ),
        Key::Char('g') => active_tab_set(v, w, TabState { scroll_offset: 0, follow: false }),
        Key::Char('G') => active_tab_set(
            v,
            w,
            TabState { scroll_offset: usize::MAX, follow: ts.follow },
        ),
        Key::Char('f') => active_tab_set(
            v,
            w,
            TabState {
                scroll_offset: if ts.follow {
                    ts.scroll_offset
                } else {
                    usize::MAX
                },
                follow: !ts.follow,
            },
        ),
        Key::Tab => w == (ExecutionDetailState {
            active_tab: LogTab::at((v.active_tab.position() + 1) % 3),
            ..v
        }),
        Key::BackTab => w == (ExecutionDetailState {
            active_tab: LogTab::at((v.active_tab.position() + 2) % 3),
            ..v
        }),
        Key::Char('1') => w == (ExecutionDetailState { active_tab: LogTab::Input, ..v }),
        Key::Char('2') => w == (ExecutionDetailState { active_tab: LogTab::Output, ..v }),
        Key::Char('3') => w == (ExecutionDetailState { active_tab: LogTab::Timeline, ..v }),
        Key::Char('J') => w == (ExecutionDetailState {
            json_view_mode: log_viewer::other_mode(v.json_view_mode),
            ..v
        }),
        _ => w == v,
    }
}

impl ExecutionDetailState {
    /// Handles a key other than the one that closes the view.
    pub fn handle_key(&mut self, key: Key)
        ensures
            detail_key(*old(self), key, *final(self)),
    {
        let page: usize = if self.visible_rows == 0 {
            1
        } else {
            self.visible_rows
        };
        match key {
            Key::Up | Key::Char('k') => self.scroll_up(1),
            Key::Down | Key::Char('j') => self.scroll_down(1),
            Key::PageUp => self.scroll_up(page),
            Key::PageDown => self.scroll_down(page),
            Key::Char('g') => self.scroll_to_top(),
            Key::Char('G') => self.scroll_to_bottom(),
            Key::Char('f') => self.toggle_follow(),
            Key::Tab => self.next_tab(),
            Key::BackTab => self.prev_tab(),
            Key::Char('1') => self.set_tab(LogTab::Input),
            Key::Char('2') => self.set_tab(LogTab::Output),
            Key::Char('3') => self.set_tab(LogTab::Timeline),
            Key::Char('J') => self.toggle_pretty_json(),
            _ => {},
        }
    }
}

/// What a key makes of a conversation view.
pub open spec fn conversation_key(v: ConversationViewState, key: Key) -> ConversationViewState {
    let page = page_of(v.visible_rows);
    match key {
        Key::Up | Key::Char('k') => ConversationViewState {
            scroll_offset: log_viewer::up_by(v.scroll_offset, 1),
            follow_mode: false,
            ..v
        },
        Key::Down | Key::Char('j') => ConversationViewState {
            scroll_offset: log_viewer::down_by(v.scroll_offset, 1),
            ..v
        },
        Key::PageUp => ConversationViewState {
            scroll_offset: log_viewer::up_by(v.scroll_offset, page),
            follow_mode: false,
            ..v
        },
        Key::PageDown => ConversationViewState {
            scroll_offset: log_viewer::down_by(v.scroll_offset, page),
            ..v
        },
        Key::Char('g') => ConversationViewState { scroll_offset: 0, follow_mode: false, ..v },
        Key::Char('G') => ConversationViewState { scroll_offset: usize::MAX, ..v },
        Key::Char('f') => ConversationViewState {
            follow_mode: !v.follow_mode,
            scroll_offset: if v.follow_mode {
                v.scroll_offset
            } else {
                usize::MAX
            },
            ..v
        },
        _ => v,
    }
}

impl ConversationViewState {
    /// Handles a key other than the one that closes the view.
    pub fn handle_key(&mut self, key: Key)
        ensures
            *final(self) == conversation_key(*old(self), key),
    {
        let page: usize = if self.visible_rows == 0 {
            1
        } else {
            self.visible_rows
        };
        match key {
            Key::Up | Key::Char('k') => self.scroll_up(1),
            Key::Down | Key::Char('j') => self.scroll_down(1),
            Key::PageUp => self.scroll_up(page),
            Key::PageDown => self.scroll_down(page),
            Key::Char('g') => self.scroll_to_top(),
            Key::Char('G') => self.scroll_to_bottom(),
            Key::Char('f') => self.toggle_follow(),
            _ => {},
        }
    }
}

/// Whether `b` and `e` are what a key makes of the open detail view.
pub open spec fn log_viewer_key(a: App, key: Key, b: App, e: EffectView) -> bool {
    if key == Key::Esc {
        e == EffectView::RefreshActivity && b == (App { viewing_log: None, ..a })
    } else {
        &&& e == EffectView::Nothing
        &&& b == (App { viewing_log: b.viewing_log, ..a })
        &&& match (a.viewing_log, b.viewing_log) {
            (Some(v), Some(w)) => detail_key(v, key, w),
            (None, None) => true,
            _ => false,
        }
    }
}

/// The state and effect that a key leads to while a conversation is open.
pub open spec fn conversation_view_key(a: App, key: Key) -> (App, EffectView) {
    if key == Key::Esc {
        (
            App { viewing_conversation: None, ..a },
            if a.active_tab == 2 {
                EffectView::RefreshExecutions
            } else {
                EffectView::RefreshActivity
            },
        )
    } else {
        (
            App {
                viewing_conversation: match a.viewing_conversation {
                    Some(v) => Some(conversation_key(v, key)),
                    None => None,
                },
                ..a
            },
            EffectView::Nothing,
        )
    }
}

/// The state after a key in the quit dialog.
pub open spec fn quit_key(a: App, key: Key) -> App {
    match key {
        Key::Char('y') | Key::Char('Y') => App { should_quit: true, ..a },
        Key::Char('n') | Key::Char('N') | Key::Esc => App { confirm_quit: false, ..a },
        _ => a,
    }
}

/// The state after a key in the help.
pub open spec fn help_key(a: App, key: Key) -> App {
    match key {
        Key::Esc | Key::Enter | Key::Char('?') => help_toggled(a),
        Key::Up | Key::Char('k') => App {
            help_scroll: if a.help_scroll == 0 {
                0
            } else {
                (a.help_scroll - 1) as u16
            },
            ..a
        },
        Key::Down | Key::Char('j') => App {
            help_scroll: if a.help_scroll >= a.help_end() {
                a.help_end()
            } else {
                (a.help_scroll + 1) as u16
            },
            ..a
        },
        _ => a,
    }
}

impl App {
    /// Closes the detail view. The Ops tab has to be read again.
    pub fn close_log_viewer(&mut self) -> (r: Effect)
        ensures
            *final(self) == (App { viewing_log: None, ..*old(self) }),
            r@ == EffectView::RefreshActivity,
    {
        self.viewing_log = None;
        Effect::RefreshActivity
    }

    /// Closes the conversation. The list behind it has to be read again.
    pub fn close_conversation(&mut self) -> (r: Effect)
        ensures
            (*final(self), r@) == conversation_view_key(*old(self), Key::Esc),
    {
        self.viewing_conversation = None;
        if self.active_tab == 2 {
            Effect::RefreshExecutions
        } else {
            Effect::RefreshActivity
        }
    }

    /// Handles a key while the detail view is open.
    pub fn handle_log_viewer_key(&mut self, key: Key) -> (r: Effect)
        ensures
            log_viewer_key(*old(self), key, *final(self), r@),
    {
        if key == Key::Esc {
            return self.close_log_viewer();
        }
        match &mut self.viewing_log {
            Some(v) => v.handle_key(key),
            None => {},
        }
        Effect::Nothing
    }

    /// Handles a key while a conversation is open.
    pub fn handle_conversation_key(&mut self, key: Key) -> (r: Effect)
        ensures
            (*final(self), r@) == conversation_view_key(*old(self), key),
    {
        if key == Key::Esc {
            return self.close_conversation();
        }
        match &mut self.viewing_conversation {
            Some(v) => v.handle_key(key),
            None => {},
        }
        Effect::Nothing
    }

    /// Handles a key in the quit dialog.
    pub fn handle_quit_confirm_key(&mut self, key: Key)
        ensures
            *final(self) == quit_key(*old(self), key),
    {
        match key {
            Key::Char('y') | Key::Char('Y') => {
                self.should_quit = true;
            },
            Key::Char('n') | Key::Char('N') | Key::Esc => {
                self.confirm_quit = false;
            },
            _ => {},
        }
    }

    /// Handles a key in the help.
    pub fn handle_help_key(&mut self, key: Key)
        ensures
            *final(self) == help_key(*old(self), key),
    {
        let end: u16 = HELP_LINE_COUNT.saturating_sub(self.help_viewport_height);
        match key {
            Key::Esc | Key::Enter | Key::Char('?') => self.toggle_help(),
            Key::Up | Key::Char('k') => {
                self.help_scroll = self.help_scroll.saturating_sub(1);
            },
            Key::Down | Key::Char('j') => {
                self.help_scroll = if self.help_scroll >= end {
                    end
                } else {
                    self.help_scroll + 1
                };
            },
            _ => {},
        }
    }
}

// ── Lists ────────────────────────────────────────────────────────────────────

/// What the manual refresh reads.
pub open spec fn refresh_of(tab: usize) -> EffectView {
    if tab == 0 {
        EffectView::RefreshActivity
    } else if tab == 1 {
        EffectView::RefreshAgents
    } else if tab == 2 {
        EffectView::RefreshExecutions
    } else if tab == 3 {
        EffectView::RefreshSchedules
    } else {
        EffectView::Nothing
    }
}

/// The state and effect that a key other than Enter leads to in a list.
pub open spec fn list_key(before: App, key: Key, at: Moment) -> (App, EffectView) {
    let a = App { show_hint_banner: false, ..before };
    let none = EffectView::Nothing;
    match key {
        Key::Char('q') => (App { confirm_quit: true, ..a }, none),
        Key::Char('?') => (help_toggled(a), none),
        Key::Char('r') => (a, refresh_of(a.active_tab)),
        Key::Char('1') => (App { active_tab: 0, ..a }, none),
        Key::Char('2') => (App { active_tab: 1, ..a }, none),
        Key::Char('3') => (App { active_tab: 2, ..a }, none),
        Key::Char('4') => (App { active_tab: 3, ..a }, none),
        Key::Tab => (App { active_tab: app::tab_after(a.active_tab), ..a }, none),
        Key::BackTab => (App { active_tab: app::tab_before(a.active_tab), ..a }, none),
        Key::Up | Key::Char('k') => (app::row_before(a), none),
        Key::Down | Key::Char('j') => (app::row_after(a, at), none),
        Key::Char('g') => (app::row_first(a), none),
        Key::Char('G') => (app::row_last(a, at), none),
        Key::Esc | Key::Char('x') => (filters_cleared(a), none),
        Key::Char('c') => (a, conversation_choice(a, at)),
        _ => (a, none),
    }
}

/// Whether `b` and `e` are what a key leads to in a list.
pub open spec fn list_keyed(a: App, key: Key, at: Moment, b: App, e: EffectView) -> bool {
    if key == Key::Enter {
        entered(App { show_hint_banner: false, ..a }, at, b, e)
    } else {
        (b, e) == list_key(a, key, at)
    }
}

impl App {
    /// Whether the active tab is one of the tabs.
    pub open spec fn wf(self) -> bool {
        self.active_tab < TAB_COUNT
    }

    /// Handles a key in a list.
    pub fn handle_list_key(&mut self, key: Key, at: &Moment) -> (r: Effect)
        requires
            old(self).wf(),
        ensures
            list_keyed(*old(self), key, *at, *final(self), r@),
            final(self).wf(),
    {
        self.show_hint_banner = false;
        match key {
            Key::Enter => {
                return self.enter(at);
            },
            Key::Char('q') => {
                self.confirm_quit = true;
            },
            Key::Char('?') => self.toggle_help(),
            Key::Char('r') => {
                return match self.active_tab {
                    0 => Effect::RefreshActivity,
                    1 => Effect::RefreshAgents,
                    2 => Effect::RefreshExecutions,
                    _ => Effect::RefreshSchedules,
                };
            },
            Key::Char('1') => {
                self.active_tab = 0;
            },
            Key::Char('2') => {
                self.active_tab = 1;
            },
            Key::Char('3') => {
                self.active_tab = 2;
            },
            Key::Char('4') => {
                self.active_tab = 3;
            },
            Key::Tab => self.next_tab(),
            Key::BackTab => self.prev_tab(),
            Key::Up | Key::Char('k') => self.select_prev_row(),
            Key::Down | Key::Char('j') => self.select_next_row(at),
            Key::Char('g') => self.select_first_row(),
            Key::Char('G') => self.select_last_row(at),
            Key::Esc | Key::Char('x') => self.clear_drill_filters(),
            Key::Char('c') => {
                return self.open_conversation(at);
            },
            _ => {},
        }
        Effect::Nothing
    }

    /// Handles a key: Ctrl+C quits at once; then an open conversation comes
    /// first, an open detail view next, the quit dialog, the help, and the list.
    pub fn handle_key(&mut self, key: Key, ctrl: bool, at: &Moment) -> (r: Effect)
        requires
            old(self).wf(),
        ensures
            keyed(*old(self), key, ctrl, *at, *final(self), r@),
            final(self).wf(),
    {
        if key == Key::Char('c') && ctrl {
            self.should_quit = true;
            return Effect::Nothing;
        }
        if self.viewing_conversation.is_some() {
            self.handle_conversation_key(key)
        } else if self.viewing_log.is_some() {
            self.handle_log_viewer_key(key)
        } else if self.confirm_quit {
            self.handle_quit_confirm_key(key);
            Effect::Nothing
        } else if self.show_help {
            self.handle_help_key(key);
            Effect::Nothing
        } else {
            self.handle_list_key(key, at)
        }
    }
}

/// Whether `b` and `e` are what a key leads to.
pub open spec fn keyed(a: App, key: Key, ctrl: bool, at: Moment, b: App, e: EffectView) -> bool {
    if key == Key::Char('c') && ctrl {
        b == (App { should_quit: true, ..a }) && e == EffectView::Nothing
    } else if a.viewing_conversation is Some {
        (b, e) == conversation_view_key(a, key)
    } else if a.viewing_log is Some {
        log_viewer_key(a, key, b, e)
    } else if a.confirm_quit {
        b == quit_key(a, key) && e == EffectView::Nothing
    } else if a.show_help {
        b == help_key(a, key) && e == EffectView::Nothing
    } else {
        list_keyed(a, key, at, b, e)
    }
}

/// Only Ctrl+C and a yes in the quit dialog end the dashboard; `q` in a list
/// opens the dialog.
pub proof fn law_quit_only_when_confirmed(
    a: App,
    key: Key,
    ctrl: bool,
    at: Moment,
    b: App,
    e: EffectView,
)
    requires
        keyed(a, key, ctrl, at, b, e),
        !a.should_quit,
    ensures
        b.should_quit ==> (key == Key::Char('c') && ctrl) || (a.confirm_quit && (key == Key::Char(
            'y',
        ) || key == Key::Char('Y'))),
        a.viewing_conversation is None && a.viewing_log is None && !a.confirm_quit && !a.show_help
            && key == Key::Char('q') ==> b.confirm_quit && e == EffectView::Nothing,
{
}

/// While an overlay is open, keys leave the lists as they are.
pub proof fn law_overlays_keep_lists(
    a: App,
    key: Key,
    ctrl: bool,
    at: Moment,
    b: App,
    e: EffectView,
)
    requires
        keyed(a, key, ctrl, at, b, e),
        a.viewing_conversation is Some || a.viewing_log is Some || a.confirm_quit || a.show_help,
    ensures
        b.active_tab == a.active_tab,
        b.activity_selected == a.activity_selected,
        b.agents_selected == a.agents_selected,
        b.executions_selected == a.executions_selected,
        b.drill_batch == a.drill_batch,
        b.history_drill_batch == a.history_drill_batch,
        b.history_agent_filter == a.history_agent_filter,
{
}

// ── Mouse ────────────────────────────────────────────────────────────────────

/// Whether `b` is what the mouse makes of the open detail view. `bar` is where
/// its tab bar was drawn.
pub open spec fn log_viewer_mouse(
    a: App,
    mouse: Mouse,
    col: u16,
    row: u16,
    bar: Option<Rect>,
    b: App,
) -> bool {
    &&& b == (App { viewing_log: b.viewing_log, ..a })
    &&& match (a.viewing_log, b.viewing_log) {
        (Some(v), Some(w)) => match mouse {
            Mouse::LeftDown => match bar {
                Some(rect) => match geometry::clicked_log_tab(col, row, rect, v.timeline_events@.len()) {
                    Some(i) => w == (ExecutionDetailState {
                        active_tab: LogTab::at(i as int),
                        ..v
                    }),
                    None => w == v,
                },
                None => w == v,
            },
            Mouse::ScrollUp => active_tab_set(
                v,
                w,
                TabState {
                    scroll_offset: log_viewer::up_by(v.active().scroll_offset, MOUSE_SCROLL_STEP),
                    follow: false,
                },
            ),
            Mouse::ScrollDown => active_tab_set(
                v,
                w,
                TabState {
                    scroll_offset: log_viewer::down_by(v.active().scroll_offset, MOUSE_SCROLL_STEP),
                    follow: v.active().follow,
                },
            ),
            Mouse::Other => w == v,
        },
        (None, None) => true,
        _ => false,
    }
}

/// What the mouse makes of an open conversation.
pub open spec fn conversation_mouse(a: App, mouse: Mouse) -> App {
    App {
        viewing_conversation: match a.viewing_conversation {
            Some(v) => match mouse {
                Mouse::ScrollUp => Some(
                    ConversationViewState {
                        scroll_offset: log_viewer::up_by(v.scroll_offset, MOUSE_SCROLL_STEP),
                        follow_mode: false,
                        ..v
                    },
                ),
                Mouse::ScrollDown => Some(
                    ConversationViewState {
                        scroll_offset: log_viewer::down_by(v.scroll_offset, MOUSE_SCROLL_STEP),
                        ..v
                    },
                ),
                _ => Some(v),
            },
            None => None,
        },
        ..a
    }
}

/// Whether `b` and `e` are what a click on slot `slot` of the selected list
/// leads to: it selects an entry, and opens the one that is selected already.
pub open spec fn clicked(a: App, row: u16, at: Moment, b: App, e: EffectView) -> bool {
    if a.active_tab == 0 {
        match a.ops_clicks.hit(row) {
            Some(slot) => if a.activity_selected == slot {
                entered(a, at, b, e)
            } else {
                b == (App { activity_selected: slot, ..a }) && e == EffectView::Nothing
            },
            None => b == a && e == EffectView::Nothing,
        }
    } else if a.active_tab == 1 {
        match a.agents_clicks.hit(row) {
            Some(card) => b == (App { agents_selected: card, ..a }) && e == EffectView::Nothing,
            None => b == a && e == EffectView::Nothing,
        }
    } else if a.active_tab == 2 {
        match a.history_clicks.hit(row) {
            Some(slot) => if a.executions_selected == slot {
                entered(a, at, b, e)
            } else {
                b == (App { executions_selected: slot, ..a }) && e == EffectView::Nothing
            },
            None => b == a && e == EffectView::Nothing,
        }
    } else {
        b == a && e == EffectView::Nothing
    }
}

/// Whether `b` and `e` are what the mouse leads to in a list whose tab bar
/// stands at `tab_bar`.
pub open spec fn list_mouse(
    a: App,
    mouse: Mouse,
    col: u16,
    row: u16,
    tab_bar: Rect,
    at: Moment,
    b: App,
    e: EffectView,
) -> bool {
    match mouse {
        Mouse::LeftDown => {
            let c = App { show_hint_banner: false, ..a };
            let tab = if geometry::within(row as int, tab_bar.y as int, tab_bar.height as int) {
                geometry::clicked_tab(col, tab_bar)
            } else {
                None
            };
            match tab {
                Some(i) => b == (App { active_tab: i, ..c }) && e == EffectView::Nothing,
                None => clicked(c, row, at, b, e),
            }
        },
        Mouse::ScrollUp => b == app::row_before(a) && e == EffectView::Nothing,
        Mouse::ScrollDown => b == app::row_after(a, at) && e == EffectView::Nothing,
        Mouse::Other => b == a && e == EffectView::Nothing,
    }
}

impl App {
    /// Handles the mouse while the detail view is open.
    pub fn handle_log_viewer_mouse(
        &mut self,
        mouse: Mouse,
        col: u16,
        row: u16,
        tab_bar: Option<Rect>,
    )
        ensures
            log_viewer_mouse(*old(self), mouse, col, row, tab_bar, *final(self)),
    {
        match &mut self.viewing_log {
            Some(v) => match mouse {
                Mouse::LeftDown => {
                    if let Some(rect) = tab_bar {
                        let events: usize = v.timeline_events.len();
                        if let Some(i) = detect_log_tab_click(col, row, rect, events) {
                            v.set_tab(LogTab::from_index(i));
                        }
                    }
                },
                Mouse::ScrollUp => v.scroll_up(MOUSE_SCROLL_STEP),
                Mouse::ScrollDown => v.scroll_down(MOUSE_SCROLL_STEP),
                Mouse::Other => {},
            },
            None => {},
        }
    }

    /// Handles the mouse while a conversation is open.
    pub fn handle_conversation_mouse(&mut self, mouse: Mouse)
        ensures
            *final(self) == conversation_mouse(*old(self), mouse),
    {
        match &mut self.viewing_conversation {
            Some(v) => match mouse {
                Mouse::ScrollUp => v.scroll_up(MOUSE_SCROLL_STEP),
                Mouse::ScrollDown => v.scroll_down(MOUSE_SCROLL_STEP),
                _ => {},
            },
            None => {},
        }
    }

    /// Handles a click below the tab bar.
    fn handle_click(&mut self, row: u16, at: &Moment) -> (r: Effect)
        ensures
            clicked(*old(self), row, *at, *final(self), r@),
    {
        match self.active_tab {
            0 => if let Some(slot) = self.ops_clicks.clicked_slot(row) {
                if self.activity_selected == slot {
                    return self.enter(at);
                }
                self.activity_selected = slot;
            },
            1 => if let Some(card) = self.agents_clicks.clicked_card(row) {
                self.agents_selected = card;
            },
            2 => if let Some(slot) = self.history_clicks.clicked_slot(row) {
                if self.executions_selected == slot {
                    return self.enter(at);
                }
                self.executions_selected = slot;
            },
            _ => {},
        }
        Effect::Nothing
    }

    /// Handles the mouse in a list.
    pub fn handle_list_mouse(
        &mut self,
        mouse: Mouse,
        col: u16,
        row: u16,
        tab_bar: Rect,
        at: &Moment,
    ) -> (r: Effect)
        requires
            old(self).wf(),
        ensures
            list_mouse(*old(self), mouse, col, row, tab_bar, *at, *final(self), r@),
            final(self).wf(),
    {
        match mouse {
            Mouse::LeftDown => {
                self.show_hint_banner = false;
                if tab_bar.has_row(row) {
                    if let Some(i) = detect_tab_click(col, tab_bar) {
                        self.active_tab = i;
                        return Effect::Nothing;
                    }
                }
                self.handle_click(row, at)
            },
            Mouse::ScrollUp => {
                self.select_prev_row();
                Effect::Nothing
            },
            Mouse::ScrollDown => {
                self.select_next_row(at);
                Effect::Nothing
            },
            Mouse::Other => Effect::Nothing,
        }
    }

    /// Handles the mouse. The quit dialog and the help take no clicks. `log_bar`
    /// is where the tab bar of the detail view was drawn.
    pub fn handle_mouse(
        &mut self,
        mouse: Mouse,
        col: u16,
        row: u16,
        tab_bar: Rect,
        log_bar: Option<Rect>,
        at: &Moment,
    ) -> (r: Effect)
        requires
            old(self).wf(),
        ensures
            final(self).wf(),
            if old(self).viewing_conversation is Some {
                *final(self) == conversation_mouse(*old(self), mouse) && r@ == EffectView::Nothing
            } else if old(self).viewing_log is Some {
                log_viewer_mouse(*old(self), mouse, col, row, log_bar, *final(self)) && r@
                    == EffectView::Nothing
            } else if old(self).confirm_quit || old(self).show_help {
                *final(self) == *old(self) && r@ == EffectView::Nothing
            } else {
                list_mouse(*old(self), mouse, col, row, tab_bar, *at, *final(self), r@)
            },
    {
        if self.viewing_conversation.is_some() {
            self.handle_conversation_mouse(mouse);
            Effect::Nothing
        } else if self.viewing_log.is_some() {
            self.handle_log_viewer_mouse(mouse, col, row, log_bar);
            Effect::Nothing
        } else if self.confirm_quit || self.show_help {
            Effect::Nothing
        } else {
            self.handle_list_mouse(mouse, col, row, tab_bar, at)
        }
    }
}

// ── Laws of opening and closing ──────────────────────────────────────────────

/// What Enter opens: in the Ops tab the latest execution of the selected thread,
/// the conversation of the thread of the selected merge, or the threads of the
/// selected batch; in the Agents tab the executions of the selected agent; in the
/// History tab the selected execution or the executions of the selected batch.
pub proof fn law_enter_opens_the_selected(a: App, at: Moment, b: App, e: EffectView)
    requires
        entered(a, at, b, e),
        a.active_tab < TAB_COUNT,
    ensures
        a.active_tab == 0 ==> (a.activity_data matches Some(d) ==> {
            &&& a.ops_selection(at) matches Some(OpsTarget::Thread(i)) ==> (i < d.rows@.len() ==> (
            d.rows@[i as int].execution_id matches Some(x) ==> e == EffectView::OpenExecution(x@)))
            &&& a.ops_selection(at) matches Some(OpsTarget::Thread(i)) ==> (i < d.rows@.len()
                && d.rows@[i as int].execution_id is None ==> e == EffectView::Nothing)
            &&& a.ops_selection(at) matches Some(OpsTarget::MergeOp(id)) ==> (
            e matches EffectView::OpenConversation(t) ==> exists|k: int|
                0 <= k < d.merge_ops@.len() && (#[trigger] d.merge_ops@[k]).id@ == id
                    && d.merge_ops@[k].thread_id@ == t)
            &&& a.ops_selection(at) matches Some(OpsTarget::MergeOp(id)) ==> ((exists|k: int|
                0 <= k < d.merge_ops@.len() && (#[trigger] d.merge_ops@[k]).id@ == id)
                ==> e is OpenConversation)
            &&& a.ops_selection(at) matches Some(OpsTarget::Batch(id)) ==> b.drill_batch is Some
                && b.drill_batch->0@ == id && b.activity_selected == 0 && e
                == EffectView::RefreshActivity && b.active_tab == 0
        }),
        a.active_tab == 1 && a.agents_selected < at.agents@.len() ==> b.active_tab == 2
            && b.history_agent_filter is Some && b.history_agent_filter->0@
            == at.agents@[a.agents_selected as int]@ && b.history_drill_batch is None
            && b.executions_selected == 0 && e == EffectView::RefreshExecutions,
        a.active_tab == 2 ==> {
            &&& a.history_selection() matches Some(HistoryTarget::Execution(i)) ==> (i
                < a.history_rows().len() ==> e == EffectView::OpenListed(i as int) && b == a)
            &&& a.history_selection() matches Some(HistoryTarget::Batch(id))
                ==> b.history_drill_batch is Some && b.history_drill_batch->0@ == id
                && b.executions_selected == 0 && b.history_agent_filter == a.history_agent_filter
                && e == EffectView::RefreshExecutions
        },
        a.active_tab == 3 ==> b == a && e == EffectView::Nothing,
{
    if a.active_tab == 0 && a.activity_data is Some {
        let d = a.activity_data->0;
        if let Some(OpsTarget::MergeOp(id)) = a.ops_selection(at) {
            actions::law_first_operation_of_its_id(d.merge_ops@, id);
        }
    }
}

/// The conversation that belongs to the selected item is that of its own thread.
pub proof fn law_conversation_of_the_selected(a: App, at: Moment)
    ensures
        a.active_tab == 0 ==> (a.activity_data matches Some(d) ==> (a.ops_selection(at) matches Some(
            OpsTarget::Thread(i),
        ) ==> (i < d.rows@.len() ==> conversation_choice(a, at) == EffectView::OpenConversation(
            d.rows@[i as int].thread_id@,
        )))),
        a.active_tab == 2 ==> (a.history_selection() matches Some(HistoryTarget::Execution(i)) ==> (i
            < a.history_rows().len() ==> conversation_choice(a, at) == EffectView::OpenConversation(
            a.history_rows()[i as int].thread_id@,
        ))),
        a.active_tab != 0 && a.active_tab != 2 ==> conversation_choice(a, at)
            == EffectView::Nothing,
{
}

/// What a filter hid is shown again once it is dropped: in the History tab the
/// batch goes first and the agent after it; in the Ops tab the batch. The
/// selection starts over, and nothing else changes.
pub proof fn law_filters_are_dropped(a: App)
    ensures
        a.active_tab == 0 && a.drill_batch is Some ==> filters_cleared(a).drill_batch is None
            && filters_cleared(a).activity_selected == 0,
        a.active_tab == 2 && a.history_drill_batch is Some ==> {
            &&& filters_cleared(a).history_drill_batch is None
            &&& filters_cleared(a).executions_selected == 0
            &&& filters_cleared(a).history_agent_filter == a.history_agent_filter
        },
        a.active_tab == 2 && a.history_drill_batch is None && a.history_agent_filter is Some ==> {
            &&& filters_cleared(a).history_agent_filter is None
            &&& filters_cleared(a).executions_selected == 0
        },
        a.active_tab == 1 || a.active_tab == 3 ==> filters_cleared(a) == a,
        a.active_tab == 0 ==> filters_cleared(a).history_drill_batch == a.history_drill_batch
            && filters_cleared(a).history_agent_filter == a.history_agent_filter
            && filters_cleared(a).executions_selected == a.executions_selected,
        a.active_tab == 2 ==> filters_cleared(a).drill_batch == a.drill_batch
            && filters_cleared(a).activity_selected == a.activity_selected,
        filters_cleared(a).active_tab == a.active_tab,
{
}

/// What the keys do in a list: the digits go to the tabs, `q` asks before the end,
/// `?` opens the help, `r` reads the tab in view again, the arrows and letters
/// move, and Esc and `x` drop a filter.
pub proof fn law_keys_in_a_list(a: App, at: Moment)
    requires
        a.active_tab < TAB_COUNT,
        !a.show_help,
    ensures
        list_key(a, Key::Char('1'), at).0.active_tab == 0,
        list_key(a, Key::Char('2'), at).0.active_tab == 1,
        list_key(a, Key::Char('3'), at).0.active_tab == 2,
        list_key(a, Key::Char('4'), at).0.active_tab == 3,
        list_key(a, Key::Char('q'), at).0.confirm_quit,
        !list_key(a, Key::Char('q'), at).0.should_quit || a.should_quit,
        list_key(a, Key::Char('?'), at).0.show_help,
        list_key(a, Key::Char('?'), at).0.help_scroll == 0,
        a.active_tab == 0 ==> list_key(a, Key::Char('r'), at).1 == EffectView::RefreshActivity,
        a.active_tab == 1 ==> list_key(a, Key::Char('r'), at).1 == EffectView::RefreshAgents,
        a.active_tab == 2 ==> list_key(a, Key::Char('r'), at).1 == EffectView::RefreshExecutions,
        a.active_tab == 3 ==> list_key(a, Key::Char('r'), at).1 == EffectView::RefreshSchedules,
        ({
            let c = App { show_hint_banner: false, ..a };
            &&& list_key(a, Key::Up, at).0 == app::row_before(c)
            &&& list_key(a, Key::Char('k'), at) == list_key(a, Key::Up, at)
            &&& list_key(a, Key::Down, at).0 == app::row_after(c, at)
            &&& list_key(a, Key::Char('j'), at) == list_key(a, Key::Down, at)
            &&& list_key(a, Key::Char('g'), at).0 == app::row_first(c)
            &&& list_key(a, Key::Char('G'), at).0 == app::row_last(c, at)
            &&& list_key(a, Key::Esc, at).0 == filters_cleared(c)
            &&& list_key(a, Key::Char('x'), at) == list_key(a, Key::Esc, at)
            &&& list_key(a, Key::Char('c'), at) == (c, conversation_choice(c, at))
        }),
        a.active_tab < 3 ==> list_key(a, Key::Tab, at).0.active_tab == a.active_tab + 1,
        a.active_tab == 3 ==> list_key(a, Key::Tab, at).0.active_tab == 0,
        a.active_tab > 0 ==> list_key(a, Key::BackTab, at).0.active_tab == a.active_tab - 1,
        a.active_tab == 0 ==> list_key(a, Key::BackTab, at).0.active_tab == 3,
{
}

/// Esc closes what is open on top: a conversation before a detail view, and those
/// before the quit dialog and the help. What stood behind is read again.
pub proof fn law_esc_closes_what_is_on_top(
    a: App,
    ctrl: bool,
    at: Moment,
    b: App,
    e: EffectView,
)
    requires
        keyed(a, Key::Esc, ctrl, at, b, e),
    ensures
        a.viewing_conversation is Some ==> b.viewing_conversation is None && b.viewing_log
            == a.viewing_log,
        a.viewing_conversation is Some && a.active_tab == 2 ==> e == EffectView::RefreshExecutions,
        a.viewing_conversation is Some && a.active_tab != 2 ==> e == EffectView::RefreshActivity,
        a.viewing_conversation is None && a.viewing_log is Some ==> b.viewing_log is None && e
            == EffectView::RefreshActivity,
        a.viewing_conversation is None && a.viewing_log is None && a.confirm_quit
            ==> !b.confirm_quit && b.should_quit == a.should_quit,
        a.viewing_conversation is None && a.viewing_log is None && !a.confirm_quit && a.show_help
            ==> !b.show_help,
{
}

/// The quit dialog: yes ends the dashboard, no and Esc close the dialog, any other
/// key does nothing.
pub proof fn law_quit_dialog(a: App, key: Key)
    requires
        a.confirm_quit,
        !a.should_quit,
    ensures
        quit_key(a, key).should_quit <==> key == Key::Char('y') || key == Key::Char('Y'),
        !quit_key(a, key).confirm_quit <==> key == Key::Char('n') || key == Key::Char('N') || key
            == Key::Esc,
{
}

/// In the help, the arrows scroll by a line within its lines, and Esc, Enter and
/// `?` close it.
pub proof fn law_keys_in_the_help(a: App)
    requires
        a.show_help,
        a.help_viewport_height < HELP_LINE_COUNT,
    ensures
        !help_key(a, Key::Esc).show_help && !help_key(a, Key::Enter).show_help && !help_key(
            a,
            Key::Char('?'),
        ).show_help,
        a.help_scroll > 0 ==> help_key(a, Key::Up).help_scroll == a.help_scroll - 1,
        a.help_scroll == 0 ==> help_key(a, Key::Up).help_scroll == 0,
        a.help_scroll + a.help_viewport_height < HELP_LINE_COUNT ==> help_key(
            a,
            Key::Down,
        ).help_scroll == a.help_scroll + 1,
        help_key(a, Key::Down).help_scroll + a.help_viewport_height <= HELP_LINE_COUNT,
        help_key(a, Key::Char('k')) == help_key(a, Key::Up),
        help_key(a, Key::Char('j')) == help_key(a, Key::Down),
{
}

/// What scrolling does to a conversation: up by a line or a page and no further
/// than its beginning, which ends following; down as far; `g` to the beginning,
/// `G` to the end, and `f` turns following on or off.
pub proof fn law_keys_in_a_conversation(v: ConversationViewState)
    requires
        v.visible_rows > 0,
        v.scroll_offset + v.visible_rows <= usize::MAX,
        v.scroll_offset < usize::MAX,
    ensures
        v.scroll_offset > 0 ==> conversation_key(v, Key::Up).scroll_offset == v.scroll_offset - 1,
        v.scroll_offset >= v.visible_rows ==> conversation_key(v, Key::PageUp).scroll_offset
            == v.scroll_offset - v.visible_rows,
        v.scroll_offset < v.visible_rows ==> conversation_key(v, Key::PageUp).scroll_offset == 0,
        !conversation_key(v, Key::Up).follow_mode && !conversation_key(v, Key::PageUp).follow_mode,
        conversation_key(v, Key::Down).scroll_offset == v.scroll_offset + 1,
        conversation_key(v, Key::PageDown).scroll_offset == v.scroll_offset + v.visible_rows,
        conversation_key(v, Key::Down).follow_mode == v.follow_mode,
        conversation_key(v, Key::Char('g')).scroll_offset == 0 && !conversation_key(
            v,
            Key::Char('g'),
        ).follow_mode,
        conversation_key(v, Key::Char('G')).scroll_offset == usize::MAX,
        conversation_key(v, Key::Char('f')).follow_mode != v.follow_mode,
        !v.follow_mode ==> conversation_key(v, Key::Char('f')).scroll_offset == usize::MAX,
        v.follow_mode ==> conversation_key(v, Key::Char('f')).scroll_offset == v.scroll_offset,
{
}

/// What the keys do in the detail view: the digits go to its tabs, Tab and back
/// through them, and scrolling moves the tab in view alone.
pub proof fn law_keys_in_the_detail_view(
    v: ExecutionDetailState,
    key: Key,
    w: ExecutionDetailState,
)
    requires
        detail_key(v, key, w),
        v.tab_states@.len() == 3,
    ensures
        key == Key::Char('1') ==> w.active_tab == LogTab::Input,
        key == Key::Char('2') ==> w.active_tab == LogTab::Output,
        key == Key::Char('3') ==> w.active_tab == LogTab::Timeline,
        key == Key::Up && v.active().scroll_offset > 0 ==> w.tab_states@[v.active_tab.position()].scroll_offset
            == v.active().scroll_offset - 1 && !w.tab_states@[v.active_tab.position()].follow,
        key == Key::Down && v.active().scroll_offset < usize::MAX
            ==> w.tab_states@[v.active_tab.position()].scroll_offset == v.active().scroll_offset + 1
            && w.tab_states@[v.active_tab.position()].follow == v.active().follow,
        key == Key::Char('g') ==> w.tab_states@[v.active_tab.position()].scroll_offset == 0,
        key == Key::Char('G') ==> w.tab_states@[v.active_tab.position()].scroll_offset
            == usize::MAX,
        key == Key::Char('f') ==> w.tab_states@[v.active_tab.position()].follow
            != v.active().follow,
        forall|i: int|
            0 <= i < 3 && i != v.active_tab.position() ==> #[trigger] w.tab_states@[i]
                == v.tab_states@[i],
        w.execution == v.execution && w.timeline_events == v.timeline_events,
{
}

/// A click selects the entry that it hits; a second click on the selected entry
/// opens it as Enter does. A click that hits nothing changes nothing.
pub proof fn law_clicks(a: App, row: u16, at: Moment, b: App, e: EffectView)
    requires
        clicked(a, row, at, b, e),
    ensures
        a.active_tab == 0 ==> (a.ops_clicks.hit(row) matches Some(slot) ==> if slot
            == a.activity_selected {
            entered(a, at, b, e)
        } else {
            b.activity_selected == slot && e == EffectView::Nothing && b.drill_batch
                == a.drill_batch
        }),
        a.active_tab == 1 ==> (a.agents_clicks.hit(row) matches Some(card) ==> b.agents_selected
            == card && e == EffectView::Nothing),
        a.active_tab == 2 ==> (a.history_clicks.hit(row) matches Some(slot) ==> if slot
            == a.executions_selected {
            entered(a, at, b, e)
        } else {
            b.executions_selected == slot && e == EffectView::Nothing && b.history_drill_batch
                == a.history_drill_batch
        }),
        a.active_tab == 0 && a.ops_clicks.hit(row) is None ==> b == a && e == EffectView::Nothing,
        a.active_tab == 1 && a.agents_clicks.hit(row) is None ==> b == a && e == EffectView::Nothing,
        a.active_tab == 2 && a.history_clicks.hit(row) is None ==> b == a && e
            == EffectView::Nothing,
        a.active_tab == 3 ==> b == a && e == EffectView::Nothing,
{
}

/// The wheel moves the selection of a list by one, and scrolls an overlay by three
/// lines.
pub proof fn law_wheel(
    a: App,
    col: u16,
    row: u16,
    tab_bar: Rect,
    at: Moment,
    up: App,
    down: App,
    e: EffectView,
    f: EffectView,
)
    requires
        list_mouse(a, Mouse::ScrollUp, col, row, tab_bar, at, up, e),
        list_mouse(a, Mouse::ScrollDown, col, row, tab_bar, at, down, f),
    ensures
        up == app::row_before(a) && e == EffectView::Nothing,
        down == app::row_after(a, at) && f == EffectView::Nothing,
        a.viewing_conversation matches Some(v) ==> (v.scroll_offset >= 3 ==> conversation_mouse(
            a,
            Mouse::ScrollUp,
        ).viewing_conversation->0.scroll_offset == v.scroll_offset - 3),
        a.viewing_conversation matches Some(v) ==> (v.scroll_offset + 3 <= usize::MAX
            ==> conversation_mouse(a, Mouse::ScrollDown).viewing_conversation->0.scroll_offset
            == v.scroll_offset + 3),
{
}

/// In the detail view a click on the tab bar goes to the tab that it hits, and the
/// wheel scrolls the tab in view by three lines; upwards that ends following.
pub proof fn law_mouse_in_the_detail_view(
    a: App,
    mouse: Mouse,
    col: u16,
    row: u16,
    bar: Option<Rect>,
    b: App,
    v: ExecutionDetailState,
)
    requires
        log_viewer_mouse(a, mouse, col, row, bar, b),
        a.viewing_log == Some(v),
        v.tab_states@.len() == 3,
    ensures
        b.viewing_log is Some,
        mouse == Mouse::LeftDown ==> (bar matches Some(r) ==> {
            let hit = geometry::clicked_log_tab(col, row, r, v.timeline_events@.len());
            &&& hit == Some(0usize) ==> b.viewing_log->0.active_tab == LogTab::Input
            &&& hit == Some(1usize) ==> b.viewing_log->0.active_tab == LogTab::Output
            &&& hit == Some(2usize) ==> b.viewing_log->0.active_tab == LogTab::Timeline
            &&& hit is None ==> b.viewing_log == a.viewing_log
        }),
        mouse == Mouse::LeftDown && bar is None ==> b.viewing_log == a.viewing_log,
        mouse == Mouse::ScrollUp && v.active().scroll_offset >= 3
            ==> b.viewing_log->0.tab_states@[v.active_tab.position()].scroll_offset
            == v.active().scroll_offset - 3,
        mouse == Mouse::ScrollUp && v.active().scroll_offset < 3
            ==> b.viewing_log->0.tab_states@[v.active_tab.position()].scroll_offset == 0,
        mouse == Mouse::ScrollUp
            ==> !b.viewing_log->0.tab_states@[v.active_tab.position()].follow,
        mouse == Mouse::ScrollDown && v.active().scroll_offset + 3 <= usize::MAX
            ==> b.viewing_log->0.tab_states@[v.active_tab.position()].scroll_offset
            == v.active().scroll_offset + 3,
        mouse == Mouse::ScrollDown ==> b.viewing_log->0.tab_states@[v.active_tab.position()].follow
            == v.active().follow,
        b.active_tab == a.active_tab && b.viewing_conversation == a.viewing_conversation,
{
}

/// In a list a click on the tab bar goes to the tab that it hits, and any other
/// click to the entry that it hits; both put the tip away.
pub proof fn law_clicks_in_a_list(
    a: App,
    col: u16,
    row: u16,
    bar: Rect,
    at: Moment,
    b: App,
    e: EffectView,
    tab: usize,
)
    requires
        list_mouse(a, Mouse::LeftDown, col, row, bar, at, b, e),
    ensures
        bar.y <= row < bar.y + bar.height && geometry::clicked_tab(col, bar) == Some(tab)
            ==> b.active_tab == tab && e == EffectView::Nothing && !b.show_hint_banner
            && b.activity_selected == a.activity_selected,
        !(bar.y <= row < bar.y + bar.height) || geometry::clicked_tab(col, bar) is None ==> clicked(
            App { show_hint_banner: false, ..a },
            row,
            at,
            b,
            e,
        ),
{
}

/// In a conversation or a detail view of no height a page is a line; the help
/// opens at its first line.
pub proof fn law_pages_are_a_line_at_least(v: ConversationViewState, a: App)
    requires
        v.visible_rows == 0,
        0 < v.scroll_offset < usize::MAX,
        !a.show_help,
    ensures
        conversation_key(v, Key::PageUp).scroll_offset == v.scroll_offset - 1,
        conversation_key(v, Key::PageDown).scroll_offset == v.scroll_offset + 1,
        help_toggled(a).show_help && help_toggled(a).help_scroll == 0,
        !help_toggled(help_toggled(a)).show_help,
{
}

/// A key goes to what is on top: Ctrl+C ends the dashboard wherever it is pressed;
/// any other key goes to the conversation, else to the detail view, else to the
/// quit dialog, else to the help, else to the list.
pub proof fn law_keys_go_to_what_is_on_top(
    a: App,
    key: Key,
    ctrl: bool,
    at: Moment,
    b: App,
    e: EffectView,
    v: ConversationViewState,
)
    requires
        keyed(a, key, ctrl, at, b, e),
    ensures
        key == Key::Char('c') && ctrl ==> b.should_quit && e == EffectView::Nothing,
        !(key == Key::Char('c') && ctrl) && key != Key::Esc && a.viewing_conversation == Some(v)
            ==> b.viewing_conversation == Some(conversation_key(v, key)) && e
            == EffectView::Nothing && b.viewing_log == a.viewing_log,
        !(key == Key::Char('c') && ctrl) && key != Key::Esc && a.viewing_conversation is None
            && a.viewing_log is Some ==> b.viewing_log is Some && detail_key(
            a.viewing_log->0,
            key,
            b.viewing_log->0,
        ) && e == EffectView::Nothing,
        !(key == Key::Char('c') && ctrl) && a.viewing_conversation is None && a.viewing_log is None
            ==> {
            &&& a.confirm_quit ==> b == quit_key(a, key)
            &&& !a.confirm_quit && a.show_help ==> b == help_key(a, key)
            &&& !a.confirm_quit && !a.show_help && key == Key::Enter ==> entered(
                App { show_hint_banner: false, ..a },
                at,
                b,
                e,
            )
            &&& !a.confirm_quit && !a.show_help && key != Key::Enter ==> (b, e) == list_key(
                a,
                key,
                at,
            )
        },
{
}

} // verus!
