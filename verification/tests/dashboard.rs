//! Refreshing, selecting and drawing the dashboard.
use compas::dashboard::actions::{
    execute_action, resolve_action_target, truncate_id, worktree_lookup, ActionOutcome,
    ActionTarget, BatchAbandon, BatchRun,
};
use compas::dashboard::app::{
    App, Effect, ExecutionsData, Key, Moment, Mouse, Refreshed, ScheduleRuns,
};
use compas::dashboard::chrome::{help_legend, help_lines, quit_line, status_bar_line};
use compas::dashboard::geometry::{
    AgentsClickCache, HistoryClickCache, OpsClickCache, Rect, HISTORY_BANNER_ROWS,
};
use compas::dashboard::progress::ProgressSummaries;
use compas::dashboard::refresh::{
    activity_loaded, agents_loaded, heartbeat_age, input_payload, is_data_stale, log_path,
};
use compas::dashboard::views::activity::{ActivityData, OpsSelectable};
use compas::dashboard::views::dispatch_prompt::{
    dispatch_prompt_lines, dispatch_prompt_title, DispatchPromptState, DispatchStep,
};
use compas::dashboard::views::executions::{build_history_table, history_filter_banner};
use compas::dashboard::views::log_viewer::LogFile;
use compas::dashboard::views::ops_lines::compute_scroll;
use compas::dashboard::views::ops_list::{build_ops_list, lay_out_ops_list};
use compas::dashboard::views::threads::{threads_notice, threads_rows};
use compas::events::OrchestratorEvent;
use compas::lifecycle::{AbandonOutcome, CloseOutcome, CloseStatus, LifecycleError, ReopenOutcome};
use compas::store::{
    ExecutionEventRow, ExecutionRow, MergeOperation, MessageRow, ThreadRow, ThreadStatusView,
};
use compas::style::Line;
use ratatui::layout::{Constraint, Layout};

fn text_of(line: &Line) -> String {
    line.spans.iter().map(|s| s.text.as_str()).collect()
}

fn row(thread_id: &str, batch: Option<&str>, status: &str, exec: Option<&str>) -> ThreadStatusView {
    ThreadStatusView {
        thread_id: thread_id.to_string(),
        batch_id: batch.map(|b| b.to_string()),
        summary: None,
        thread_status: status.to_string(),
        thread_created_at: 0,
        thread_updated_at: 90,
        execution_id: exec.map(|_| format!("e-{thread_id}")),
        agent_alias: Some("dev".to_string()),
        execution_status: exec.map(|e| e.to_string()),
        queued_at: None,
        started_at: None,
        finished_at: None,
        duration_ms: None,
        error_detail: None,
        parsed_intent: None,
        prompt_hash: None,
        eligible_at: None,
        eligible_reason: None,
    }
}

fn execution(id: &str, agent: &str, batch: Option<&str>) -> ExecutionRow {
    ExecutionRow {
        id: id.to_string(),
        thread_id: format!("t-{id}"),
        batch_id: batch.map(|b| b.to_string()),
        agent_alias: agent.to_string(),
        dispatch_message_id: Some(1),
        status: "completed".to_string(),
        queued_at: 10,
        picked_up_at: None,
        started_at: None,
        finished_at: None,
        duration_ms: None,
        exit_code: None,
        output_preview: None,
        error_detail: None,
        parsed_intent: None,
        prompt_hash: None,
        attempt_number: 1,
        retry_after: None,
        error_category: None,
        original_dispatch_message_id: None,
        pid: None,
        eligible_at: None,
        eligible_reason: None,
    }
}

fn activity(rows: Vec<ThreadStatusView>, merge_ops: Vec<MergeOperation>) -> ActivityData {
    ActivityData {
        rows,
        thread_counts: vec![],
        queue_depth: 0,
        heartbeat: None,
        fetched_at: 100_000,
        cost_summary: None,
        merge_ops,
    }
}

fn merge_op(id: &str) -> MergeOperation {
    MergeOperation {
        id: id.to_string(),
        thread_id: "t-merge".to_string(),
        source_branch: "compas/t-merge".to_string(),
        target_branch: "main".to_string(),
        merge_strategy: "merge".to_string(),
        requested_by: "operator".to_string(),
        status: "queued".to_string(),
        push_requested: false,
        queued_at: 1,
        claimed_at: None,
        started_at: None,
        finished_at: None,
        duration_ms: None,
        result_summary: None,
        error_detail: None,
        conflict_files: None,
        commit_message: None,
    }
}

fn app() -> App {
    App::new("/logs".to_string(), 2_000)
}

fn moment() -> Moment {
    Moment {
        now: 100,
        now_ms: 100_000,
        stale_active_secs: 3_600,
        agents: vec!["dev".to_string(), "qa".to_string()],
    }
}

// ── Refreshing ───────────────────────────────────────────────

#[test]
fn data_goes_stale_after_the_interval() {
    assert!(is_data_stale(None, None, 2_000, 0));
    assert!(!is_data_stale(None, Some(1_000), 2_000, 2_999));
    assert!(is_data_stale(None, Some(1_000), 2_000, 3_000));
    assert!(!is_data_stale(Some(2_000), Some(0), 2_000, 3_999));
    assert!(is_data_stale(Some(2_000), Some(3_000), 2_000, 4_000));
}

#[test]
fn refreshes_follow_the_tab() {
    let mut a = app();
    let due = a.begin_refresh(100_000);
    assert!(due.activity && !due.agents && !due.executions && !due.schedules);
    let due = a.begin_refresh(100_001);
    assert!(!due.activity);
    a.active_tab = 2;
    assert!(a.begin_refresh(100_002).executions);
    a.active_tab = 3;
    assert!(a.begin_refresh(100_003).schedules);
    a.active_tab = 1;
    assert!(a.begin_refresh(100_004).agents);
    a.apply_activity(Refreshed::Loaded(activity(vec![], vec![])), &moment());
    a.invalidate_data(200_000);
    assert!(a.begin_refresh(200_000).activity);
}

#[test]
fn failed_refreshes_keep_the_data() {
    let mut a = app();
    let rows = vec![row("t", None, "Active", Some("executing"))];
    a.activity_selected = 9;
    a.apply_activity(Refreshed::Loaded(activity(rows, vec![])), &moment());
    assert_eq!(a.activity_selected, 0);
    a.apply_activity(Refreshed::Failed("disk".to_string()), &moment());
    assert_eq!(a.activity_refresh_error.as_deref(), Some("activity: disk"));
    assert_eq!(a.activity_data.as_ref().unwrap().rows.len(), 1);
    a.apply_activity(Refreshed::TimedOut, &moment());
    assert_eq!(a.activity_refresh_error.as_deref(), Some("activity: timeout"));
    a.apply_executions(Refreshed::TimedOut, 1);
    assert_eq!(a.executions_refresh_error.as_deref(), Some("history: timeout"));
    a.apply_agents(Refreshed::Failed("x".to_string()), &moment());
    assert_eq!(a.agents_refresh_error.as_deref(), Some("agents: x"));
    let bar = text_of(&status_bar_line(&a));
    assert!(bar.contains("⚠ activity: timeout; agents: x; history: timeout"), "{bar}");
    a.apply_schedules(Refreshed::Loaded(vec![ScheduleRuns {
        name: "n".to_string(),
        last_fired_at: 1,
        run_count: 2,
    }]));
    a.apply_schedules(Refreshed::TimedOut);
    assert_eq!(a.schedule_runs.as_ref().unwrap()[0].run_count, 2);
}

#[test]
fn progress_is_debounced() {
    let mut p = ProgressSummaries::new();
    p.record("e", "one", 10_000);
    p.record("e", "two", 11_499);
    assert_eq!(p.get_progress_summary("e"), Some("one"));
    p.record("e", "two", 11_500);
    assert_eq!(p.get_progress_summary("e"), Some("two"));
    p.retain(&vec!["other".to_string()]);
    assert_eq!(p.get_progress_summary("e"), None);

    let mut a = app();
    a.on_event(
        &OrchestratorEvent::ExecutionProgress {
            execution_id: "e".to_string(),
            thread_id: "t".to_string(),
            agent_alias: "dev".to_string(),
            summary: "working".to_string(),
        },
        5_000,
    );
    assert_eq!(a.get_progress_summary("e"), Some("working"));
    a.on_event(
        &OrchestratorEvent::ExecutionCompleted {
            execution_id: "e".to_string(),
            thread_id: "t".to_string(),
            agent_alias: "dev".to_string(),
            success: true,
            duration_ms: 1,
        },
        5_001,
    );
    assert_eq!(a.get_progress_summary("e"), None);
}

#[test]
fn running_executions_keep_their_summaries() {
    let mut a = app();
    let rows = vec![
        row("a", None, "Active", Some("executing")),
        row("b", None, "Completed", Some("completed")),
    ];
    a.apply_activity(Refreshed::Loaded(activity(rows, vec![])), &moment());
    assert_eq!(a.running_executions(), vec!["e-a"]);
    a.apply_progress(
        &vec![("e-a".to_string(), Some("x".to_string())), ("e-b".to_string(), Some("y".to_string()))],
        1,
    );
    assert_eq!(a.get_progress_summary("e-a"), Some("x"));
    assert_eq!(a.get_progress_summary("e-b"), None);
    assert_eq!(heartbeat_age(&Some(("w".to_string(), 90, 0, None)), 100), Some(10));
    assert_eq!(heartbeat_age(&Some(("w".to_string(), 190, 0, None)), 100), Some(0));
    assert_eq!(heartbeat_age(&None, 100), None);
}

// ── Overlays ─────────────────────────────────────────────────

fn message(id: i64, to: &str, thread: &str) -> MessageRow {
    MessageRow {
        id,
        thread_id: thread.to_string(),
        from_alias: "operator".to_string(),
        to_alias: to.to_string(),
        intent: "dispatch".to_string(),
        body: "go".to_string(),
        batch_id: None,
        created_at: 5,
    }
}

#[test]
fn any_event_and_missed_events_make_data_old() {
    let fresh = || {
        let mut a = app();
        a.apply_activity(Refreshed::Loaded(activity(vec![], vec![])), &moment());
        a
    };
    let due = |a: &mut App, at| a.begin_refresh(at).activity;
    let started = OrchestratorEvent::ExecutionStarted {
        execution_id: "e".to_string(),
        thread_id: "t".to_string(),
        agent_alias: "dev".to_string(),
    };
    let now = moment().now_ms;
    let mut a = fresh();
    a.take_events(&vec![], false, now);
    assert!(!due(&mut a, now));
    let mut a = fresh();
    a.take_events(&vec![started], false, now);
    assert!(due(&mut a, now));
    let mut a = fresh();
    a.take_events(&vec![], true, now);
    assert!(due(&mut a, now));
}

#[test]
fn only_some_queries_fail_a_refresh() {
    let gone = || "gone".to_string();
    let d = activity_loaded(Ok(vec![]), Ok(vec![]), Err(gone()), Err(gone()), Err(gone()), Err(gone()), 7)
        .unwrap();
    assert_eq!((d.queue_depth, d.heartbeat.is_none(), d.fetched_at), (0, true, 7));
    assert!(d.cost_summary.is_none() && d.merge_ops.is_empty());
    let failed = activity_loaded(
        Ok(vec![]),
        Err(gone()),
        Ok(1),
        Ok(None),
        Err(gone()),
        Ok(vec![]),
        7,
    );
    assert_eq!(failed.unwrap_err(), "gone");
    let listed = vec![
        ("dev".to_string(), Ok(vec![execution("e", "dev", None)])),
        ("qa".to_string(), Err(gone())),
    ];
    let beat = Ok(Some(("w".to_string(), 90, 1, None)));
    let d = agents_loaded(Ok(vec![]), beat, &listed, Err(gone()), Err(gone()), 100, 8).unwrap();
    assert_eq!(d.heartbeat_age_secs, Some(10));
    assert_eq!((d.executions_by_agent[0].1.len(), d.executions_by_agent[1].1.len()), (1, 0));
    let failed = agents_loaded(Err(gone()), Ok(None), &vec![], Ok(vec![]), Ok(vec![]), 100, 8);
    assert_eq!(failed.unwrap_err(), "gone");
}

#[test]
fn input_is_shown_only_where_it_is_linked() {
    let e = execution("e", "dev", None);
    assert_eq!(input_payload(&e, Some(message(1, "dev", "t-e"))), (Some("go".to_string()), true));
    assert_eq!(input_payload(&e, Some(message(1, "qa", "t-e"))), (None, false));
    assert_eq!(input_payload(&e, Some(message(1, "dev", "t-x"))), (None, false));
    assert_eq!(input_payload(&e, None), (None, false));
    assert_eq!(log_path("/logs", "e"), "/logs/e.log");
    assert_eq!(log_path("/logs/", "e"), "/logs/e.log");
    assert_eq!(log_path("/", "e"), "/e.log");
    assert_eq!(log_path("", "e"), "e.log");
    assert_eq!(log_path("logs", "/tmp/e"), "/tmp/e.log");
    assert_eq!(log_path("logs", ""), "logs/.log");
    for (dir, id) in [("/logs", "e"), ("/logs/", "a/b"), ("", "e"), ("d", "/e"), ("d//", "e")] {
        let joined = std::path::Path::new(dir).join(format!("{id}.log"));
        assert_eq!(log_path(dir, id), joined.to_string_lossy());
    }
}

#[test]
fn overlays_poll_and_close() {
    let mut a = app();
    let mut e = execution("e", "dev", None);
    e.status = "executing".to_string();
    let event = ExecutionEventRow {
        id: 1,
        execution_id: "e".to_string(),
        event_type: "tool_call".to_string(),
        summary: "ls".to_string(),
        detail: None,
        timestamp_ms: 1,
        event_index: 6,
        tool_name: None,
    };
    let log = LogFile { path: "/logs/e.log".to_string(), content: Some("l\n".to_string()), len: Some(2) };
    a.show_execution(e, None, log, vec![event.clone()]);
    assert_eq!(a.viewing_log.as_ref().unwrap().file_pos, 2);
    assert_eq!(a.timeline_poll(), Some(("e".to_string(), Some(6))));
    a.apply_timeline(vec![event]);
    assert_eq!(a.viewing_log.as_ref().unwrap().timeline_events.len(), 2);
    assert!(!a.begin_refresh(100_000).activity);
    assert!(matches!(a.handle_key(Key::Esc, false, &moment()), Effect::RefreshActivity));
    assert!(a.viewing_log.is_none());

    let thread = ThreadRow {
        thread_id: "t".to_string(),
        batch_id: None,
        summary: None,
        status: "Active".to_string(),
        created_at: 0,
        updated_at: 0,
    };
    a.show_conversation("t".to_string(), Some(thread), vec![message(3, "dev", "t")], vec![]);
    assert_eq!(a.conversation_poll(), Some(("t".to_string(), 3)));
    a.apply_conversation(vec![message(4, "dev", "t")], vec![], Some("Completed".to_string()));
    assert_eq!(a.viewing_conversation.as_ref().unwrap().last_message_id, Some(4));
    assert_eq!(a.conversation_poll(), None);
    a.active_tab = 2;
    assert!(matches!(a.handle_key(Key::Esc, false, &moment()), Effect::RefreshExecutions));
}

// ── Selecting ────────────────────────────────────────────────

#[test]
fn enter_drills_and_opens() {
    let mut a = app();
    let rows = vec![
        row("a", Some("b-1"), "Active", Some("executing")),
        row("b", None, "Active", Some("executing")),
    ];
    a.apply_activity(Refreshed::Loaded(activity(rows, vec![merge_op("m-1")])), &moment());
    let mut opened = Vec::new();
    let mut drilled = false;
    for i in 0..8 {
        a.activity_selected = i;
        match a.selected_activity_target(&moment()) {
            Some(OpsSelectable::Thread(idx)) => {
                let id = a.activity_data.as_ref().unwrap().rows[idx].execution_id.clone().unwrap();
                match a.enter(&moment()) {
                    Effect::OpenExecution(e) => assert_eq!(e, id),
                    other => panic!("unexpected effect {other:?}"),
                }
                opened.push(id);
            }
            Some(OpsSelectable::MergeOp(_)) => match a.enter(&moment()) {
                Effect::OpenConversation(t) => assert_eq!(t, "t-merge"),
                other => panic!("unexpected effect {other:?}"),
            },
            Some(OpsSelectable::Batch(b)) if !drilled => {
                assert!(matches!(a.enter(&moment()), Effect::RefreshActivity));
                assert_eq!(a.drill_batch.as_deref(), Some(b.as_str()));
                a.handle_list_key(Key::Esc, &moment());
                assert!(a.drill_batch.is_none());
                drilled = true;
            }
            _ => {}
        }
    }
    assert!(drilled && opened.contains(&"e-a".to_string()) && opened.contains(&"e-b".to_string()));

    a.active_tab = 1;
    a.agents_selected = 1;
    assert!(matches!(a.enter(&moment()), Effect::RefreshExecutions));
    assert_eq!((a.active_tab, a.history_agent_filter.as_deref()), (2, Some("qa")));
}

#[test]
fn history_is_filtered_by_agent() {
    let mut a = app();
    a.executions_data = Some(ExecutionsData {
        executions: vec![execution("1", "dev", None), execution("2", "qa", None)],
        fetched_at: 0,
    });
    a.history_agent_filter = Some("qa".to_string());
    let shown = a.effective_executions().unwrap();
    assert_eq!((shown.len(), shown[0].id.as_str()), (1, "2"));
    a.active_tab = 2;
    a.select_last_row(&moment());
    assert_eq!(a.executions_selected, 1);
    // The conversation is that of the selected row.
    match a.open_conversation(&moment()) {
        Effect::OpenConversation(t) => assert_eq!(t, "t-2"),
        other => panic!("unexpected effect {other:?}"),
    }
    a.clear_drill_filters();
    assert!(a.history_agent_filter.is_none());
}

#[test]
fn selection_stays_inside() {
    let mut a = app();
    a.active_tab = 1;
    for _ in 0..5 {
        a.select_next_row(&moment());
    }
    assert_eq!(a.agents_selected, 1);
    a.select_prev_row();
    a.select_prev_row();
    assert_eq!(a.agents_selected, 0);
    for _ in 0..4 {
        a.next_tab();
    }
    assert_eq!(a.active_tab, 1);
    a.prev_tab();
    a.prev_tab();
    assert_eq!(a.active_tab, 3);
    a.settings_line_count = 20;
    a.settings_viewport_height = 15;
    a.select_last_row(&moment());
    assert_eq!(a.settings_scroll, 5);
}

#[test]
fn clicks_select_and_wheels_scroll() {
    let mut a = app();
    let tab_bar = Rect::new(0, 0, 80, 3);
    a.handle_list_mouse(Mouse::LeftDown, 20, 1, tab_bar, &moment());
    assert_eq!(a.active_tab, 2);
    assert!(!a.show_hint_banner);
    a.active_tab = 1;
    a.agents_clicks =
        AgentsClickCache { card_geometry: vec![(0, 3), (3, 3)], list_rect: Rect::new(0, 3, 80, 20) };
    a.handle_list_mouse(Mouse::LeftDown, 5, 7, tab_bar, &moment());
    assert_eq!(a.agents_selected, 1);
    a.handle_list_mouse(Mouse::ScrollUp, 5, 7, tab_bar, &moment());
    assert_eq!(a.agents_selected, 0);
    let c = OpsClickCache { slot_geometry: vec![(0, 1)], scroll: 0, list_rect: Rect::new(0, 3, 80, 5) };
    assert_eq!((c.clicked_slot(2), c.clicked_slot(3), c.clicked_slot(8)), (None, Some(0), None));
    assert!(matches!(
        a.handle_mouse(Mouse::LeftDown, 1, 1, tab_bar, None, &moment()),
        Effect::Nothing
    ));
    assert_eq!(a.active_tab, 0);
    // Control and C quits at once.
    a.handle_key(Key::Char('c'), true, &moment());
    assert!(a.should_quit);
}

// ── Drawing ──────────────────────────────────────────────────

#[test]
fn ops_list_slots_are_targets() {
    let rows = vec![
        row("a", Some("b-1"), "Active", Some("executing")),
        row("b", None, "Completed", Some("completed")),
    ];
    let data = activity(rows, vec![merge_op("m-1")]);
    let list = build_ops_list(&data, None, 0, &ProgressSummaries::new(), 80, 20, 100, 3_600);
    assert_eq!(list.sel_to_row.len(), list.slot_geometry.len());
    assert_eq!(list.sel_to_row[list.selected_slot], list.selected_item);
    for pair in list.slot_geometry.windows(2) {
        assert!(pair[0].0 + pair[0].1 <= pair[1].0);
    }
    let all: String = list.items.iter().flatten().map(text_of).collect();
    assert!(all.contains("b-1") && all.contains("main"), "{all}");
    // The selection is kept inside the visible rows.
    for (selected, visible, total) in [(0, 5, 20), (7, 5, 20), (19, 5, 20), (3, 5, 4)] {
        let scroll = compute_scroll(selected, visible, total);
        assert!(scroll <= selected && selected < scroll + visible);
    }
}

fn cells(r: ratatui::layout::Rect) -> Rect {
    Rect::new(r.x, r.y, r.width, r.height)
}

#[test]
fn areas_are_split_by_rows() {
    let fill = Constraint::Fill(1);
    for height in [0, 1, 2, 3, 24, 200] {
        let area = ratatui::layout::Rect::new(3, 4, 80, height);
        let [list, footer] = Layout::vertical([fill, Constraint::Length(1)]).areas(area);
        assert_eq!(cells(area).split_footer(), (cells(list), cells(footer)));
        let length = Constraint::Length(HISTORY_BANNER_ROWS);
        let [banner, table] = Layout::vertical([length, fill]).areas(area);
        assert_eq!(cells(area).split_top(HISTORY_BANNER_ROWS), (cells(banner), cells(table)));
    }
}

#[test]
fn ops_clicks_stop_above_the_footer() {
    let rows = vec![
        row("a", Some("b-1"), "Active", Some("executing")),
        row("b", None, "Completed", Some("completed")),
    ];
    let data = activity(rows, vec![merge_op("m-1")]);
    let summaries = ProgressSummaries::new();
    let area = Rect::new(1, 4, 80, 9);
    let (list, cache) = lay_out_ops_list(&data, None, 0, &summaries, area, 100, 3_600);
    assert_eq!(cache.list_rect, Rect::new(1, 4, 80, 8));
    assert_eq!((&cache.slot_geometry, cache.scroll), (&list.slot_geometry, list.scroll));
    for row in 0..20u16 {
        let expected = if (4..12).contains(&row) {
            let at = (row - 4) as usize + list.scroll;
            list.slot_geometry.iter().position(|(y, h)| (*y..y + h).contains(&at))
        } else {
            None
        };
        assert_eq!(cache.clicked_slot(row), expected, "row {row}");
    }
    assert_eq!(cache.clicked_slot(12), None);
}

#[test]
fn history_clicks_stay_below_the_banner() {
    let area = Rect::new(0, 5, 80, 10);
    let open = HistoryClickCache::drawn(vec![0, 1, 2], area, false, 0);
    assert_eq!((open.table_rect, open.header_rows), (area, 1));
    assert_eq!((open.clicked_slot(5), open.clicked_slot(6)), (None, Some(0)));
    let filtered = HistoryClickCache::drawn(vec![0, 1, 2], area, true, 1);
    assert_eq!(filtered.table_rect, Rect::new(0, 7, 80, 8));
    assert_eq!((filtered.clicked_slot(6), filtered.clicked_slot(8)), (None, Some(1)));
}

#[test]
fn history_table_maps_slots_to_rows() {
    let executions =
        vec![execution("1", "dev", Some("b")), execution("2", "dev", Some("b")), execution("3", "dev", None)];
    let table = build_history_table(&executions, None, 99, 10);
    assert_eq!(table.selectable_to_row.len(), 5);
    assert_eq!(table.selected, 4);
    assert_eq!(table.selected_row, table.selectable_to_row[4]);
    assert!(text_of(&history_filter_banner("b")).contains('b'));
}

#[test]
fn chrome_is_complete() {
    assert_eq!(help_lines().len(), 21);
    assert_eq!(help_legend(20), Some(" ↑/↓ scroll "));
    assert_eq!(help_legend(21), None);
    assert_eq!(text_of(&quit_line()), "Are you sure you want to quit? y/n");
    assert!(text_of(&status_bar_line(&app())).contains("press ? for keymap"));
}

#[test]
fn threads_are_listed() {
    assert_eq!(text_of(&threads_notice(&None).unwrap()), "  Fetching…");
    assert_eq!(text_of(&threads_notice(&Some(vec![])).unwrap()), "  No threads");
    let rows = vec![row("01KMVABCDEFGHIJK", Some("a-long-batch"), "Active", None)];
    let shown = threads_rows(&rows, 0, 100);
    let cells: Vec<&str> = shown[0].cells.spans.iter().map(|s| s.text.as_str()).collect();
    assert_eq!(cells, vec!["01KMVABCDEFG…", "Active", "dev", "a-long-b…", "10s"]);
    let rows = vec![row("éééééééééééé", Some("éééééééé"), "Active", None)];
    let shown = threads_rows(&rows, 0, 100);
    assert_eq!(shown[0].cells.spans[0].text, "éééééééééééé");
    assert_eq!(shown[0].cells.spans[3].text, "éééééééé");
}

#[test]
fn dispatch_prompt_shows_its_step() {
    let mut p = DispatchPromptState::new(vec!["dev".to_string(), "qa".to_string()], None, None);
    assert!(matches!(p.step, DispatchStep::SelectAgent));
    p.selected_agent = 1;
    assert_eq!(p.selected_agent_alias(), Some("qa"));
    let text: String = dispatch_prompt_lines(&p).iter().map(text_of).collect();
    assert!(text.contains("dev") && text.contains("qa"));
    p.step = DispatchStep::Confirm;
    p.instruction = "fix it".to_string();
    let text: String = dispatch_prompt_lines(&p).iter().map(text_of).collect();
    assert!(text.contains("fix it"), "{text}");
    assert!(!dispatch_prompt_title(&p).is_empty());
}

// ── Actions ──────────────────────────────────────────────────

fn abandoned(cancelled: u64) -> AbandonOutcome {
    AbandonOutcome {
        thread_id: "t".to_string(),
        status: "Abandoned".to_string(),
        executions_cancelled: cancelled,
        processes_killed: 1,
        worktree_branch: None,
    }
}

fn not_found() -> LifecycleError {
    LifecycleError::ThreadNotFound { thread_id: "t".to_string() }
}

fn thread_row(status: &str) -> ThreadRow {
    ThreadRow {
        thread_id: "t".to_string(),
        batch_id: None,
        summary: None,
        status: status.to_string(),
        created_at: 0,
        updated_at: 0,
    }
}

#[test]
fn actions_report_their_outcome() {
    let say = |o| {
        let r = execute_action(o);
        (r.message, r.is_error)
    };
    assert_eq!(
        say(ActionOutcome::ThreadAbandoned(Ok(abandoned(2)))),
        ("Thread abandoned (2 cancelled, 1 killed)".to_string(), false)
    );
    assert_eq!(say(ActionOutcome::TimedOut), ("Action timed out".to_string(), true));
    assert_eq!(
        say(ActionOutcome::ThreadAbandoned(Err(not_found()))),
        (not_found().message(), true)
    );
    let closed = CloseOutcome { thread_id: "t".to_string(), status: "Completed".to_string() };
    assert_eq!(
        say(ActionOutcome::ThreadClosed(CloseStatus::Completed, Ok(closed))),
        ("Thread closed as completed".to_string(), false)
    );
    let reopened = ReopenOutcome {
        thread_id: "t".to_string(),
        previous_status: "Failed".to_string(),
        new_status: "Active".to_string(),
    };
    assert_eq!(
        say(ActionOutcome::ThreadReopened(Ok(reopened))),
        ("Thread reopened (Failed → Active)".to_string(), false)
    );
    assert_eq!(say(ActionOutcome::MergeCancelled(Ok(true))), ("Merge cancelled".to_string(), false));
    assert_eq!(
        say(ActionOutcome::MergeCancelled(Ok(false))),
        ("Cannot cancel: merge is no longer queued".to_string(), true)
    );
    assert_eq!(say(ActionOutcome::MergeCancelled(Err("x".to_string()))), ("x".to_string(), true));
    assert_eq!(say(ActionOutcome::MergeNotQueued), ("Not yet implemented".to_string(), true));
}

#[test]
fn batch_actions_add_up() {
    assert_eq!(
        BatchAbandon::refusal("b", &Ok(vec![])).unwrap(),
        "No threads found for batch 'b'"
    );
    assert_eq!(
        BatchAbandon::refusal("b", &Err("x".to_string())).unwrap(),
        "failed to list batch threads: x"
    );
    assert!(!BatchAbandon::takes(&thread_row("Failed")));
    assert!(BatchAbandon::takes(&thread_row("Bogus")));
    let mut b = BatchAbandon::new();
    b.record(&thread_row("Active"), Ok(abandoned(3)));
    let r = execute_action(ActionOutcome::BatchAbandoned(Ok(b.clone())));
    assert_eq!(r.message, "Batch abandoned (1 threads, 3 executions cancelled)");
    b.record(&thread_row("Active"), Err(not_found()));
    let r = execute_action(ActionOutcome::BatchAbandoned(Ok(b)));
    assert_eq!(
        r.message,
        format!("Batch partially abandoned (1 threads, 3 cancelled); errors: t: {}", not_found().message())
    );
    assert!(r.is_error);
}

#[test]
fn a_batch_is_abandoned_in_order_also_after_a_failure() {
    let named = |id: &str, status: &str| {
        let mut t = thread_row(status);
        t.thread_id = id.to_string();
        t
    };
    let threads =
        vec![named("a", "Active"), named("b", "Completed"), named("c", "Bogus"), named("d", "Active")];
    let mut run = BatchRun::begin("b", Ok(threads)).unwrap();
    let mut asked = Vec::new();
    while let Some(id) = run.pending() {
        asked.push(id.to_string());
        let failed = id == "a";
        run.record(if failed { Err(not_found()) } else { Ok(abandoned(2)) });
    }
    assert_eq!(asked, ["a", "c", "d"]);
    let r = execute_action(ActionOutcome::BatchAbandoned(Ok(run.totals)));
    assert_eq!(
        r.message,
        format!("Batch partially abandoned (2 threads, 4 cancelled); errors: a: {}", not_found().message())
    );
    assert!(r.is_error);
    assert_eq!(BatchRun::begin("b", Ok(vec![])).unwrap_err(), "No threads found for batch 'b'");
    assert_eq!(
        BatchRun::begin("b", Err("x".to_string())).unwrap_err(),
        "failed to list batch threads: x"
    );
}

#[test]
fn action_targets_are_resolved() {
    let rows = vec![row("a", None, "Active", None)];
    let ops = vec![merge_op("m-1")];
    let s = OpsSelectable::Thread(0);
    assert_eq!(worktree_lookup(&s, &rows), Some("a"));
    assert!(matches!(
        resolve_action_target(&s, &rows, &ops, true),
        Some(ActionTarget::Thread { has_worktree: true, .. })
    ));
    assert!(resolve_action_target(&OpsSelectable::Thread(5), &rows, &ops, false).is_none());
    assert!(matches!(
        resolve_action_target(&OpsSelectable::MergeOp("m-1".to_string()), &rows, &ops, false),
        Some(ActionTarget::MergeOp { status, .. }) if status == "queued"
    ));
    assert!(resolve_action_target(&OpsSelectable::MergeOp("m-2".to_string()), &rows, &ops, false).is_none());
    assert!(matches!(
        resolve_action_target(&OpsSelectable::Batch("b".to_string()), &rows, &ops, false),
        Some(ActionTarget::Batch { batch_id }) if batch_id == "b"
    ));
    assert_eq!(truncate_id("01KMVABCDEFGHIJKLMNOP", 12), "01KMVABCDEFG…");
}
