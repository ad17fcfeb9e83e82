//! Fresh data, events, and what is read when.
use crate::dashboard::app::{
    App, ExecutionSummary, ExecutionsData, AgentsData, Moment, Refreshed, ScheduleRuns,
    TIMELINE_EVENT_LIMIT,
};
use crate::dashboard::app;
use crate::dashboard::progress::ProgressSummaries;
use crate::dashboard::progress;
use crate::dashboard::views::activity::{ops_selectable_count, ActivityData};
use crate::dashboard::views::conversation::ConversationViewState;
use crate::dashboard::views::conversation;
use crate::dashboard::views::log_viewer::{ExecutionDetailState, LogFile, TabState};
use crate::dashboard::views::log_viewer;
use crate::dashboard::views::payload::JsonViewMode;
use crate::dashboard::views::{elapsed, is_running_exec_status};
use crate::dashboard::views;
use crate::events::OrchestratorEvent;
use crate::store::{
    AgentCostSummary, CostSummary, ExecutionEventRow, ExecutionRow, MergeOperation, MessageRow,
    ThreadRow, ThreadStatusView,
};
use crate::text::{cat, cat3, str_eq};
use crate::text;
use vstd::prelude::*;

verus! {

// ── Staleness ────────────────────────────────────────────────────────────────

/// Milliseconds since `then`, none if it lies ahead.
pub open spec fn age(now_ms: u64, then: u64) -> u64 {
    if now_ms >= then {
        (now_ms - then) as u64
    } else {
        0
    }
}

/// Whether data has to be read again: it is as old as `interval`, or there is
/// none and the last attempt is as old, or there was no attempt.
pub open spec fn stale(
    fetched_at: Option<u64>,
    last_attempt: Option<u64>,
    interval: u64,
    now_ms: u64,
) -> bool {
    match fetched_at {
        Some(t) => age(now_ms, t) >= interval,
        None => match last_attempt {
            Some(t) => age(now_ms, t) >= interval,
            None => true,
        },
    }
}

/// Whether data has to be read again. While there is none, the last attempt
/// holds off the next one.
pub fn is_data_stale(
    data_fetched_at: Option<u64>,
    last_attempt: Option<u64>,
    interval: u64,
    now_ms: u64,
) -> (r: bool)
    ensures
        r == stale(data_fetched_at, last_attempt, interval, now_ms),
{
    match data_fetched_at {
        Some(t) => now_ms.saturating_sub(t) >= interval,
        None => match last_attempt {
            Some(t) => now_ms.saturating_sub(t) >= interval,
            None => true,
        },
    }
}

/// What has to be read.
#[derive(Clone, Copy, Debug, PartialEq, Eq, Structural)]
pub struct Due {
    pub activity: bool,
    pub agents: bool,
    pub executions: bool,
    pub schedules: bool,
}

/// What has to be read: the Ops data whenever they are stale and no overlay is
/// open, the data of the other tabs when they are stale and the tab is active.
pub open spec fn due(a: App, now_ms: u64) -> Due {
    let interval = a.poll_interval_ms;
    Due {
        activity: a.viewing_log is None && a.viewing_conversation is None && stale(
            match a.activity_data {
                Some(d) => Some(d.fetched_at),
                None => None,
            },
            a.last_activity_attempt,
            interval,
            now_ms,
        ),
        agents: a.active_tab == 1 && stale(
            match a.agents_data {
                Some(d) => Some(d.fetched_at),
                None => None,
            },
            a.last_agents_attempt,
            interval,
            now_ms,
        ),
        executions: a.active_tab == 2 && stale(
            match a.executions_data {
                Some(d) => Some(d.fetched_at),
                None => None,
            },
            a.last_executions_attempt,
            interval,
            now_ms,
        ),
        schedules: a.active_tab == 3 && stale(None, a.last_schedule_attempt, interval, now_ms),
    }
}

/// The time of an attempt that is made, or of the last one.
pub open spec fn attempt(made: bool, last: Option<u64>, now_ms: u64) -> Option<u64> {
    if made {
        Some(now_ms)
    } else {
        last
    }
}

impl App {
    /// What has to be read now. The attempts are noted.
    pub fn begin_refresh(&mut self, now_ms: u64) -> (r: Due)
        ensures
            r == due(*old(self), now_ms),
            *final(self) == (App {
                last_activity_attempt: attempt(r.activity, old(self).last_activity_attempt, now_ms),
                last_agents_attempt: attempt(r.agents, old(self).last_agents_attempt, now_ms),
                last_executions_attempt: attempt(
                    r.executions,
                    old(self).last_executions_attempt,
                    now_ms,
                ),
                last_schedule_attempt: attempt(r.schedules, old(self).last_schedule_attempt, now_ms),
                ..*old(self)
            }),
    {
        let interval: u64 = self.poll_interval_ms;
        let activity: bool = self.viewing_log.is_none() && self.viewing_conversation.is_none()
            && is_data_stale(
            match &self.activity_data {
                Some(d) => Some(d.fetched_at),
                None => None,
            },
            self.last_activity_attempt,
            interval,
            now_ms,
        );
        let agents: bool = self.active_tab == 1 && is_data_stale(
            match &self.agents_data {
                Some(d) => Some(d.fetched_at),
                None => None,
            },
            self.last_agents_attempt,
            interval,
            now_ms,
        );
        let executions: bool = self.active_tab == 2 && is_data_stale(
            match &self.executions_data {
                Some(d) => Some(d.fetched_at),
                None => None,
            },
            self.last_executions_attempt,
            interval,
            now_ms,
        );
        let schedules: bool = self.active_tab == 3 && is_data_stale(
            None,
            self.last_schedule_attempt,
            interval,
            now_ms,
        );
        if activity {
            self.last_activity_attempt = Some(now_ms);
        }
        if agents {
            self.last_agents_attempt = Some(now_ms);
        }
        if executions {
            self.last_executions_attempt = Some(now_ms);
        }
        if schedules {
            self.last_schedule_attempt = Some(now_ms);
        }
        Due { activity, agents, executions, schedules }
    }
}

/// A time at which data are old enough to be read again: one second more than
/// the interval ago, or now if the clock has not run that long.
pub open spec fn long_ago(now_ms: u64, interval: u64) -> u64 {
    if now_ms >= interval + 1000 {
        (now_ms - interval - 1000) as u64
    } else {
        now_ms
    }
}

/// The state with all data marked as old, and attempts forgotten where there
/// are no data.
pub open spec fn invalidated(a: App, now_ms: u64) -> App {
    let then = long_ago(now_ms, a.poll_interval_ms);
    App {
        activity_data: match a.activity_data {
            Some(d) => Some(ActivityData { fetched_at: then, ..d }),
            None => None,
        },
        last_activity_attempt: match a.activity_data {
            Some(_) => a.last_activity_attempt,
            None => None,
        },
        agents_data: match a.agents_data {
            Some(d) => Some(AgentsData { fetched_at: then, ..d }),
            None => None,
        },
        last_agents_attempt: match a.agents_data {
            Some(_) => a.last_agents_attempt,
            None => None,
        },
        executions_data: match a.executions_data {
            Some(d) => Some(ExecutionsData { fetched_at: then, ..d }),
            None => None,
        },
        last_executions_attempt: match a.executions_data {
            Some(_) => a.last_executions_attempt,
            None => None,
        },
        last_schedule_attempt: None,
        ..a
    }
}

impl App {
    /// Marks all data as old, so that they are read at the next tick.
    pub fn invalidate_data(&mut self, now_ms: u64)
        ensures
            *final(self) == invalidated(*old(self), now_ms),
    {
        let span: u64 = self.poll_interval_ms.saturating_add(1000);
        let then: u64 = if self.poll_interval_ms <= u64::MAX - 1000 && now_ms >= span {
            now_ms - span
        } else {
            now_ms
        };
        match &mut self.activity_data {
            Some(d) => {
                d.fetched_at = then;
            },
            None => {
                self.last_activity_attempt = None;
            },
        }
        match &mut self.agents_data {
            Some(d) => {
                d.fetched_at = then;
            },
            None => {
                self.last_agents_attempt = None;
            },
        }
        match &mut self.executions_data {
            Some(d) => {
                d.fetched_at = then;
            },
            None => {
                self.last_executions_attempt = None;
            },
        }
        self.last_schedule_attempt = None;
    }
}

/// Once everything was invalidated, the data of the Ops tab and of the active
/// tab are due, as long as the clock has run for longer than the interval.
pub proof fn law_invalidated_is_due(a: App, now_ms: u64, later: u64)
    requires
        a.poll_interval_ms + 1000 <= now_ms <= later,
        a.viewing_log is None,
        a.viewing_conversation is None,
    ensures
        due(invalidated(a, now_ms), later).activity,
        a.active_tab == 1 ==> due(invalidated(a, now_ms), later).agents,
        a.active_tab == 2 ==> due(invalidated(a, now_ms), later).executions,
        a.active_tab == 3 ==> due(invalidated(a, now_ms), later).schedules,
{
}

/// While data are missing, an attempt to read them holds off the next one until
/// the interval has passed.
pub proof fn law_attempts_hold_off(a: App, now_ms: u64, later: u64)
    requires
        now_ms <= later < now_ms + a.poll_interval_ms,
    ensures
        a.activity_data is None && a.last_activity_attempt == Some(now_ms) ==> !due(
            a,
            later,
        ).activity,
        a.agents_data is None && a.last_agents_attempt == Some(now_ms) ==> !due(a, later).agents,
        a.executions_data is None && a.last_executions_attempt == Some(now_ms) ==> !due(
            a,
            later,
        ).executions,
        a.last_schedule_attempt == Some(now_ms) ==> !due(a, later).schedules,
{
}

// ── Results ──────────────────────────────────────────────────────────────────

/// The worker as it was last heard of: id, last beat, start and version.
pub type Heartbeat = Option<(String, i64, i64, Option<String>)>;

/// The value that was read, or another one.
pub open spec fn read_or<T>(r: Result<T, String>, default: T) -> T {
    match r {
        Ok(v) => v,
        Err(_) => default,
    }
}

/// The Ops data from what its queries gave. It fails if and only if the threads
/// or their counts could not be read; anything else that could not be read is
/// missing.
pub fn activity_loaded(
    rows: Result<Vec<ThreadStatusView>, String>,
    thread_counts: Result<Vec<(String, i64)>, String>,
    queue_depth: Result<i64, String>,
    heartbeat: Result<Heartbeat, String>,
    cost: Result<CostSummary, String>,
    merge_ops: Result<Vec<MergeOperation>, String>,
    fetched_at: u64,
) -> (r: Result<ActivityData, String>)
    ensures
        r is Err <==> rows is Err || thread_counts is Err,
        rows matches Err(e) ==> r == Err::<ActivityData, String>(e),
        rows is Ok ==> (thread_counts matches Err(e) ==> r == Err::<ActivityData, String>(e)),
        r matches Ok(d) ==> {
            &&& rows == Ok::<Vec<ThreadStatusView>, String>(d.rows)
            &&& thread_counts == Ok::<Vec<(String, i64)>, String>(d.thread_counts)
            &&& d.queue_depth == read_or(queue_depth, 0)
            &&& d.heartbeat == read_or(heartbeat, None)
            &&& d.cost_summary == match cost {
                Ok(c) => Some(c),
                Err(_) => None,
            }
            &&& match merge_ops {
                Ok(ops) => d.merge_ops == ops,
                Err(_) => d.merge_ops@.len() == 0,
            }
            &&& d.fetched_at == fetched_at
        },
{
    let rows: Vec<ThreadStatusView> = match rows {
        Ok(rows) => rows,
        Err(e) => {
            return Err(e);
        },
    };
    let thread_counts: Vec<(String, i64)> = match thread_counts {
        Ok(counts) => counts,
        Err(e) => {
            return Err(e);
        },
    };
    Ok(
        ActivityData {
            rows,
            thread_counts,
            queue_depth: match queue_depth {
                Ok(n) => n,
                Err(_) => 0,
            },
            heartbeat: match heartbeat {
                Ok(h) => h,
                Err(_) => None,
            },
            fetched_at,
            cost_summary: match cost {
                Ok(c) => Some(c),
                Err(_) => None,
            },
            merge_ops: match merge_ops {
                Ok(ops) => ops,
                Err(_) => Vec::new(),
            },
        },
    )
}

/// An agent's executions as they are shown; none where they could not be read.
pub open spec fn summaries_of(rows: Result<Vec<ExecutionRow>, String>) -> Seq<ExecutionSummary> {
    match rows {
        Ok(v) => v@.map_values(|e: ExecutionRow| summary_of(e)),
        Err(_) => seq![],
    }
}

fn summarize_all(rows: &Result<Vec<ExecutionRow>, String>) -> (r: Vec<ExecutionSummary>)
    ensures
        r@ == summaries_of(*rows),
{
    let mut out: Vec<ExecutionSummary> = Vec::new();
    match rows {
        Ok(v) => {
            let mut i: usize = 0;
            while i < v.len()
                invariant
                    i <= v@.len(),
                    out@ == v@.take(i as int).map_values(|e: ExecutionRow| summary_of(e)),
                decreases v@.len() - i,
            {
                out.push(summarize(&v[i]));
                i += 1;
                assert(out@ =~= v@.take(i as int).map_values(|e: ExecutionRow| summary_of(e)));
            }
            assert(v@.take(i as int) =~= v@);
        },
        Err(_) => {},
    }
    out
}

/// The data of the Agents tab from what its queries gave. It fails if and only
/// if the running executions could not be counted; anything else that could not
/// be read is missing.
pub fn agents_loaded(
    active_counts: Result<Vec<(String, i64)>, String>,
    heartbeat: Result<Heartbeat, String>,
    executions: &Vec<(String, Result<Vec<ExecutionRow>, String>)>,
    cost_by_agent: Result<Vec<AgentCostSummary>, String>,
    circuit_states: Result<Vec<(String, String, u32)>, String>,
    now: i64,
    fetched_at: u64,
) -> (r: Result<AgentsData, String>)
    ensures
        active_counts matches Err(e) ==> r == Err::<AgentsData, String>(e),
        active_counts matches Ok(counts) ==> {
            &&& r matches Ok(d)
            &&& d.active_counts == counts
            &&& d.heartbeat_age_secs == age_of(read_or(heartbeat, None), now)
            &&& d.executions_by_agent@.len() == executions@.len()
            &&& forall|i: int|
                0 <= i < executions@.len() ==> (#[trigger] d.executions_by_agent@[i]).0@
                    == executions@[i].0@ && d.executions_by_agent@[i].1@ == summaries_of(
                    executions@[i].1,
                )
            &&& match cost_by_agent {
                Ok(costs) => d.cost_by_agent == costs,
                Err(_) => d.cost_by_agent@.len() == 0,
            }
            &&& match circuit_states {
                Ok(states) => d.circuit_states == states,
                Err(_) => d.circuit_states@.len() == 0,
            }
            &&& d.fetched_at == fetched_at
        },
{
    let active_counts: Vec<(String, i64)> = match active_counts {
        Ok(counts) => counts,
        Err(e) => {
            return Err(e);
        },
    };
    let heartbeat: Heartbeat = match heartbeat {
        Ok(h) => h,
        Err(_) => None,
    };
    let mut executions_by_agent: Vec<(String, Vec<ExecutionSummary>)> = Vec::new();
    let mut i: usize = 0;
    while i < executions.len()
        invariant
            i <= executions@.len(),
            executions_by_agent@.len() == i,
            forall|k: int|
                0 <= k < i ==> (#[trigger] executions_by_agent@[k]).0@ == executions@[k].0@
                    && executions_by_agent@[k].1@ == summaries_of(executions@[k].1),
        decreases executions@.len() - i,
    {
        executions_by_agent.push((executions[i].0.clone(), summarize_all(&executions[i].1)));
        i += 1;
    }
    Ok(
        AgentsData {
            executions_by_agent,
            active_counts,
            heartbeat_age_secs: heartbeat_age(&heartbeat, now),
            fetched_at,
            cost_by_agent: match cost_by_agent {
                Ok(costs) => costs,
                Err(_) => Vec::new(),
            },
            circuit_states: match circuit_states {
                Ok(states) => states,
                Err(_) => Vec::new(),
            },
        },
    )
}

/// What is noted of an attempt that failed.
pub open spec fn refresh_error<T>(name: Seq<char>, result: Refreshed<T>) -> Option<Seq<char>> {
    match result {
        Refreshed::Loaded(_) => None,
        Refreshed::Failed(e) => Some(name + ": "@ + e@),
        Refreshed::TimedOut => Some(name + ": timeout"@),
    }
}

impl App {
    /// Takes over what reading the Ops data gave. The selection stays within the
    /// list; after a failure the old data stay, and are not read again at once.
    pub fn apply_activity(&mut self, result: Refreshed<ActivityData>, at: &Moment)
        ensures
            text::opt_text(final(self).activity_refresh_error) == refresh_error("activity"@, result),
            match result {
                Refreshed::Loaded(d) => {
                    let a = App { activity_data: Some(d), ..*old(self) };
                    *final(self) == (App {
                        activity_selected: app::kept_within(
                            old(self).activity_selected,
                            a.ops_list(*at).len(),
                        ),
                        activity_refresh_error: None,
                        ..a
                    })
                },
                _ => *final(self) == (App {
                    activity_data: match old(self).activity_data {
                        Some(d) => Some(ActivityData { fetched_at: at.now_ms, ..d }),
                        None => None,
                    },
                    activity_refresh_error: final(self).activity_refresh_error,
                    ..*old(self)
                }),
            },
    {
        match result {
            Refreshed::Loaded(d) => {
                let count: usize = ops_selectable_count(
                    d.rows.as_slice(),
                    d.merge_ops.as_slice(),
                    match &self.drill_batch {
                        Some(b) => Some(b.as_str()),
                        None => None,
                    },
                    at.now,
                    at.stale_active_secs,
                );
                let last: usize = count.saturating_sub(1);
                if self.activity_selected > last {
                    self.activity_selected = last;
                }
                self.activity_data = Some(d);
                self.activity_refresh_error = None;
            },
            Refreshed::Failed(e) => {
                self.activity_refresh_error = Some(cat("activity: ", e.as_str()));
                proof {
                    lemma_prefixes();
                    assert("activity: "@ + e@ =~= "activity"@ + ": "@ + e@);
                }
                match &mut self.activity_data {
                    Some(d) => {
                        d.fetched_at = at.now_ms;
                    },
                    None => {},
                }
            },
            Refreshed::TimedOut => {
                self.activity_refresh_error = Some("activity: timeout".to_owned());
                proof {
                    lemma_prefixes();
                }
                match &mut self.activity_data {
                    Some(d) => {
                        d.fetched_at = at.now_ms;
                    },
                    None => {},
                }
            },
        }
    }

    /// Takes over what reading the agents' data gave.
    pub fn apply_agents(&mut self, result: Refreshed<AgentsData>, at: &Moment)
        ensures
            text::opt_text(final(self).agents_refresh_error) == refresh_error("agents"@, result),
            match result {
                Refreshed::Loaded(d) => *final(self) == (App {
                    agents_data: Some(d),
                    agents_selected: app::kept_within(old(self).agents_selected, at.agents@.len()),
                    agents_refresh_error: None,
                    ..*old(self)
                }),
                _ => *final(self) == (App {
                    agents_data: match old(self).agents_data {
                        Some(d) => Some(AgentsData { fetched_at: at.now_ms, ..d }),
                        None => None,
                    },
                    agents_refresh_error: final(self).agents_refresh_error,
                    ..*old(self)
                }),
            },
    {
        match result {
            Refreshed::Loaded(d) => {
                self.agents_data = Some(d);
                let last: usize = at.agents.len().saturating_sub(1);
                if self.agents_selected > last {
                    self.agents_selected = last;
                }
                self.agents_refresh_error = None;
            },
            Refreshed::Failed(e) => {
                self.agents_refresh_error = Some(cat("agents: ", e.as_str()));
                proof {
                    lemma_prefixes();
                    assert("agents: "@ + e@ =~= "agents"@ + ": "@ + e@);
                }
                match &mut self.agents_data {
                    Some(d) => {
                        d.fetched_at = at.now_ms;
                    },
                    None => {},
                }
            },
            Refreshed::TimedOut => {
                self.agents_refresh_error = Some("agents: timeout".to_owned());
                proof {
                    lemma_prefixes();
                }
                match &mut self.agents_data {
                    Some(d) => {
                        d.fetched_at = at.now_ms;
                    },
                    None => {},
                }
            },
        }
    }

    /// Takes over what reading the executions gave. The selection stays within
    /// the filtered list.
    pub fn apply_executions(&mut self, result: Refreshed<Vec<ExecutionRow>>, now_ms: u64)
        ensures
            text::opt_text(final(self).executions_refresh_error) == refresh_error("history"@, result),
            match result {
                Refreshed::Loaded(rows) => {
                    let a = App {
                        executions_data: Some(
                            ExecutionsData { executions: rows, fetched_at: now_ms },
                        ),
                        ..*old(self)
                    };
                    *final(self) == (App {
                        executions_selected: app::kept_within(
                            old(self).executions_selected,
                            a.history_list().len(),
                        ),
                        executions_refresh_error: None,
                        ..a
                    })
                },
                _ => *final(self) == (App {
                    executions_data: match old(self).executions_data {
                        Some(d) => Some(ExecutionsData { fetched_at: now_ms, ..d }),
                        None => None,
                    },
                    executions_refresh_error: final(self).executions_refresh_error,
                    ..*old(self)
                }),
            },
    {
        match result {
            Refreshed::Loaded(rows) => {
                self.executions_data = Some(
                    ExecutionsData { executions: rows, fetched_at: now_ms },
                );
                let last: usize = self.history_count().saturating_sub(1);
                if self.executions_selected > last {
                    self.executions_selected = last;
                }
                self.executions_refresh_error = None;
            },
            Refreshed::Failed(e) => {
                self.executions_refresh_error = Some(cat("history: ", e.as_str()));
                proof {
                    lemma_prefixes();
                    assert("history: "@ + e@ =~= "history"@ + ": "@ + e@);
                }
                match &mut self.executions_data {
                    Some(d) => {
                        d.fetched_at = now_ms;
                    },
                    None => {},
                }
            },
            Refreshed::TimedOut => {
                self.executions_refresh_error = Some("history: timeout".to_owned());
                proof {
                    lemma_prefixes();
                }
                match &mut self.executions_data {
                    Some(d) => {
                        d.fetched_at = now_ms;
                    },
                    None => {},
                }
            },
        }
    }

    /// Takes over what reading the schedules gave; after a failure the old
    /// counts stay.
    pub fn apply_schedules(&mut self, result: Refreshed<Vec<ScheduleRuns>>)
        ensures
            *final(self) == (App {
                schedule_runs: match result {
                    Refreshed::Loaded(runs) => Some(runs),
                    _ => old(self).schedule_runs,
                },
                ..*old(self)
            }),
    {
        match result {
            Refreshed::Loaded(runs) => {
                self.schedule_runs = Some(runs);
            },
            _ => {},
        }
    }
}

proof fn lemma_prefixes()
    ensures
        "activity: "@ == "activity"@ + ": "@,
        "activity: timeout"@ == "activity"@ + ": timeout"@,
        "agents: "@ == "agents"@ + ": "@,
        "agents: timeout"@ == "agents"@ + ": timeout"@,
        "history: "@ == "history"@ + ": "@,
        "history: timeout"@ == "history"@ + ": timeout"@,
{
    reveal_strlit(": ");
    reveal_strlit(": timeout");
    reveal_strlit("activity");
    reveal_strlit("activity: ");
    reveal_strlit("activity: timeout");
    reveal_strlit("agents");
    reveal_strlit("agents: ");
    reveal_strlit("agents: timeout");
    reveal_strlit("history");
    reveal_strlit("history: ");
    reveal_strlit("history: timeout");
    assert("activity: "@ =~= "activity"@ + ": "@);
    assert("activity: timeout"@ =~= "activity"@ + ": timeout"@);
    assert("agents: "@ =~= "agents"@ + ": "@);
    assert("agents: timeout"@ =~= "agents"@ + ": timeout"@);
    assert("history: "@ =~= "history"@ + ": "@);
    assert("history: timeout"@ =~= "history"@ + ": timeout"@);
}

/// How old the worker's last heartbeat is, in seconds.
pub open spec fn age_of(heartbeat: Heartbeat, now: i64) -> Option<u64> {
    match heartbeat {
        Some(h) => Some(views::since(now, h.1) as u64),
        None => None,
    }
}

/// How old the worker's last heartbeat is, in seconds.
pub fn heartbeat_age(heartbeat: &Heartbeat, now: i64) -> (r: Option<u64>)
    ensures
        r == age_of(*heartbeat, now),
{
    match heartbeat {
        Some(h) => Some(elapsed(now, h.1) as u64),
        None => None,
    }
}

/// An execution as the Agents tab shows it.
pub open spec fn summary_of(e: ExecutionRow) -> ExecutionSummary {
    ExecutionSummary {
        status: e.status,
        duration_ms: e.duration_ms,
        finished_at: e.finished_at,
    }
}

/// An execution as the Agents tab shows it.
pub fn summarize(e: &ExecutionRow) -> (r: ExecutionSummary)
    ensures
        r == summary_of(*e),
{
    ExecutionSummary {
        status: e.status.clone(),
        duration_ms: e.duration_ms,
        finished_at: e.finished_at,
    }
}

// ── Progress ─────────────────────────────────────────────────────────────────

/// Whether a row has a running execution.
pub open spec fn runs(t: ThreadStatusView) -> bool {
    t.execution_status matches Some(s) && views::running_status(s@)
}

/// The ids of the running executions, in row order.
pub open spec fn running_ids(rows: Seq<ThreadStatusView>) -> Seq<Seq<char>>
    decreases rows.len(),
{
    if rows.len() == 0 {
        seq![]
    } else {
        let rest = running_ids(rows.drop_last());
        match rows.last().execution_id {
            Some(id) if runs(rows.last()) => rest.push(id@),
            _ => rest,
        }
    }
}

impl App {
    /// The ids of the running executions of the Ops data.
    pub fn running_executions(&self) -> (r: Vec<String>)
        ensures
            text::texts(r@) == match self.activity_data {
                Some(d) => running_ids(d.rows@),
                None => seq![],
            },
    {
        let mut out: Vec<String> = Vec::new();
        assert(text::texts(out@) =~= Seq::<Seq<char>>::empty());
        let rows: &Vec<ThreadStatusView> = match &self.activity_data {
            Some(d) => &d.rows,
            None => {
                return out;
            },
        };
        let mut i: usize = 0;
        while i < rows.len()
            invariant
                i <= rows@.len(),
                text::texts(out@) == running_ids(rows@.take(i as int)),
            decreases rows@.len() - i,
        {
            let ghost before = text::texts(out@);
            assert(rows@.take(i + 1).drop_last() =~= rows@.take(i as int));
            let running: bool = match &rows[i].execution_status {
                Some(s) => is_running_exec_status(s.as_str()),
                None => false,
            };
            if running {
                if let Some(id) = &rows[i].execution_id {
                    out.push(id.clone());
                    assert(text::texts(out@) =~= before.push(id@));
                }
            }
            i += 1;
        }
        assert(rows@.take(i as int) =~= rows@);
        out
    }
}

/// What is shown for `id` after the summaries in `found` were offered in order.
pub open spec fn offered(
    shown: Option<(Seq<char>, u64)>,
    found: Seq<(String, Option<String>)>,
    id: Seq<char>,
    now_ms: u64,
) -> Option<(Seq<char>, u64)>
    decreases found.len(),
{
    if found.len() == 0 {
        shown
    } else {
        let before = offered(shown, found.drop_last(), id, now_ms);
        match found.last().1 {
            Some(s) if found.last().0@ == id && progress::takes_over(before, s@, now_ms) => Some(
                (s@, now_ms),
            ),
            _ => before,
        }
    }
}

impl App {
    /// Takes over the latest summaries of executions, and drops those of
    /// executions that no longer run. Without Ops data nothing changes.
    pub fn apply_progress(&mut self, found: &Vec<(String, Option<String>)>, now_ms: u64)
        ensures
            *final(self) == (App { progress: final(self).progress, ..*old(self) }),
            match old(self).activity_data {
                Some(d) => forall|id: Seq<char>| #[trigger]
                    final(self).progress.shown(id) == if running_ids(d.rows@).contains(id) {
                        offered(old(self).progress.shown(id), found@, id, now_ms)
                    } else {
                        None
                    },
                None => final(self).progress == old(self).progress,
            },
    {
        if self.activity_data.is_none() {
            return;
        }
        let ghost before = self.progress;
        let mut progress: ProgressSummaries = ProgressSummaries { entries: Vec::new() };
        std::mem::swap(&mut progress, &mut self.progress);
        let mut i: usize = 0;
        assert(found@.take(0) =~= seq![]);
        while i < found.len()
            invariant
                i <= found@.len(),
                forall|id: Seq<char>| #[trigger]
                    progress.shown(id) == offered(
                        before.shown(id),
                        found@.take(i as int),
                        id,
                        now_ms,
                    ),
            decreases found@.len() - i,
        {
            let ghost prev = progress;
            assert(found@.take(i + 1).drop_last() =~= found@.take(i as int));
            if let Some(s) = &found[i].1 {
                progress.record(found[i].0.as_str(), s.as_str(), now_ms);
            }
            assert forall|id: Seq<char>| #[trigger]
                progress.shown(id) == offered(
                    before.shown(id),
                    found@.take(i + 1),
                    id,
                    now_ms,
                ) by {
                assert(prev.shown(id) == offered(
                    before.shown(id),
                    found@.take(i as int),
                    id,
                    now_ms,
                ));
            }
            i += 1;
        }
        assert(found@.take(i as int) =~= found@);
        let running: Vec<String> = self.running_executions();
        progress.retain(&running);
        self.progress = progress;
    }
}

// ── Events ───────────────────────────────────────────────────────────────────

/// What is shown for `id` after an event: a new summary while it runs, and
/// nothing once it has ended.
pub open spec fn told(
    shown: Option<(Seq<char>, u64)>,
    event: OrchestratorEvent,
    id: Seq<char>,
    now_ms: u64,
) -> Option<(Seq<char>, u64)> {
    match event {
        OrchestratorEvent::ExecutionProgress { execution_id, summary, .. } => if id
            == execution_id@ && progress::takes_over(shown, summary@, now_ms) {
            Some((summary@, now_ms))
        } else {
            shown
        },
        OrchestratorEvent::ExecutionCompleted { execution_id, .. } => if id == execution_id@ {
            None
        } else {
            shown
        },
        _ => shown,
    }
}

/// What is shown for `id` after events, in order.
pub open spec fn told_all(
    shown: Option<(Seq<char>, u64)>,
    events: Seq<OrchestratorEvent>,
    id: Seq<char>,
    now_ms: u64,
) -> Option<(Seq<char>, u64)>
    decreases events.len(),
{
    if events.len() == 0 {
        shown
    } else {
        told(told_all(shown, events.drop_last(), id, now_ms), events.last(), id, now_ms)
    }
}

impl App {
    /// Takes over what an event says of an execution: a new summary while it
    /// runs, and no more of it once it has ended.
    pub fn on_event(&mut self, event: &OrchestratorEvent, now_ms: u64)
        ensures
            *final(self) == (App { progress: final(self).progress, ..*old(self) }),
            forall|id: Seq<char>| #[trigger]
                final(self).progress.shown(id) == told(
                    old(self).progress.shown(id),
                    *event,
                    id,
                    now_ms,
                ),
    {
        match event {
            OrchestratorEvent::ExecutionProgress { execution_id, summary, .. } => {
                self.progress.record(execution_id.as_str(), summary.as_str(), now_ms);
            },
            OrchestratorEvent::ExecutionCompleted { execution_id, .. } => {
                self.progress.remove(execution_id.as_str());
            },
            _ => {},
        }
    }
}

impl App {
    /// Takes over the events that have come since the last look. Any event, and
    /// events that were missed, mark all data as old.
    pub fn take_events(&mut self, events: &Vec<OrchestratorEvent>, missed: bool, now_ms: u64)
        ensures
            forall|id: Seq<char>| #[trigger]
                final(self).progress.shown(id) == told_all(
                    old(self).progress.shown(id),
                    events@,
                    id,
                    now_ms,
                ),
            ({
                let a = App { progress: final(self).progress, ..*old(self) };
                *final(self) == if events@.len() > 0 || missed {
                    invalidated(a, now_ms)
                } else {
                    a
                }
            }),
    {
        let ghost before = *self;
        let mut i: usize = 0;
        assert(events@.take(0) =~= seq![]);
        while i < events.len()
            invariant
                i <= events@.len(),
                *self == (App { progress: self.progress, ..before }),
                forall|id: Seq<char>| #[trigger]
                    self.progress.shown(id) == told_all(
                        before.progress.shown(id),
                        events@.take(i as int),
                        id,
                        now_ms,
                    ),
            decreases events@.len() - i,
        {
            let ghost prev = self.progress;
            assert(events@.take(i + 1).drop_last() =~= events@.take(i as int));
            self.on_event(&events[i], now_ms);
            assert forall|id: Seq<char>| #[trigger]
                self.progress.shown(id) == told_all(
                    before.progress.shown(id),
                    events@.take(i + 1),
                    id,
                    now_ms,
                ) by {
                assert(prev.shown(id) == told_all(
                    before.progress.shown(id),
                    events@.take(i as int),
                    id,
                    now_ms,
                ));
            }
            i += 1;
        }
        assert(events@.take(i as int) =~= events@);
        if events.len() > 0 || missed {
            self.invalidate_data(now_ms);
        }
    }
}

// ── Overlays ─────────────────────────────────────────────────────────────────

impl App {
    /// The running execution whose timeline is open, and the last event of it
    /// that is known.
    pub fn timeline_poll(&self) -> (r: Option<(String, Option<i32>)>)
        ensures
            match r {
                Some(p) => self.viewing_log matches Some(v) && views::running_status(v.execution.status@)
                    && (p).0@ == v.execution.id@ && (p).1 == last_event(v.timeline_events@),
                None => !(self.viewing_log matches Some(v) && views::running_status(v.execution.status@)),
            },
    {
        match &self.viewing_log {
            Some(v) => if v.is_running() {
                let n: usize = v.timeline_events.len();
                let last: Option<i32> = if n == 0 {
                    None
                } else {
                    Some(v.timeline_events[n - 1].event_index)
                };
                Some((v.execution.id.clone(), last))
            } else {
                None
            },
            None => None,
        }
    }

    /// Appends new events to the open timeline.
    pub fn apply_timeline(&mut self, events: Vec<ExecutionEventRow>)
        ensures
            *final(self) == (App { viewing_log: final(self).viewing_log, ..*old(self) }),
            match old(self).viewing_log {
                Some(v) => final(self).viewing_log matches Some(w) && w.timeline_events@
                    == v.timeline_events@ + events@ && w == (ExecutionDetailState {
                    timeline_events: w.timeline_events,
                    ..v
                }),
                None => final(self).viewing_log is None,
            },
    {
        match &mut self.viewing_log {
            Some(v) => {
                let mut more: Vec<ExecutionEventRow> = events;
                v.timeline_events.append(&mut more);
            },
            None => {},
        }
    }

    /// The active thread whose conversation is open, and the id after which its
    /// messages are new.
    pub fn conversation_poll(&self) -> (r: Option<(String, i64)>)
        ensures
            match r {
                Some(p) => self.viewing_conversation matches Some(v) && thread_open(
                    v.thread_status@,
                ) && (p).0@ == v.thread_id@ && (p).1 == (match v.last_message_id {
                    Some(id) => id as int,
                    None => -1,
                }),
                None => !(self.viewing_conversation matches Some(v) && thread_open(
                    v.thread_status@,
                )),
            },
    {
        match &self.viewing_conversation {
            Some(v) => if v.is_active() {
                Some(
                    (
                        v.thread_id.clone(),
                        match v.last_message_id {
                            Some(id) => id,
                            None => -1,
                        },
                    ),
                )
            } else {
                None
            },
            None => None,
        }
    }

    /// Takes over what is new in the open conversation. It stays at the bottom
    /// while it follows.
    pub fn apply_conversation(
        &mut self,
        new_messages: Vec<MessageRow>,
        executions: Vec<ExecutionRow>,
        thread_status: Option<String>,
    )
        ensures
            *final(self) == (App {
                viewing_conversation: final(self).viewing_conversation,
                ..*old(self)
            }),
            match old(self).viewing_conversation {
                Some(v) => final(self).viewing_conversation matches Some(w) && w.messages@
                    == v.messages@ + new_messages@ && w == (ConversationViewState {
                    messages: w.messages,
                    last_message_id: if new_messages@.len() > 0 {
                        conversation::highest_id(new_messages@)
                    } else {
                        v.last_message_id
                    },
                    executions,
                    thread_status: match thread_status {
                        Some(s) => s,
                        None => v.thread_status,
                    },
                    scroll_offset: if v.follow_mode {
                        usize::MAX
                    } else {
                        v.scroll_offset
                    },
                    ..v
                }),
                None => final(self).viewing_conversation is None,
            },
    {
        match &mut self.viewing_conversation {
            Some(v) => v.take_over(new_messages, executions, thread_status),
            None => {},
        }
    }

    /// Opens the conversation of a thread that was read. Where the reading
    /// failed nothing changes; a thread that is gone has neither batch nor
    /// status.
    pub fn show_conversation(
        &mut self,
        thread_id: String,
        thread: Option<ThreadRow>,
        messages: Vec<MessageRow>,
        executions: Vec<ExecutionRow>,
    )
        ensures
            *final(self) == (App {
                viewing_conversation: final(self).viewing_conversation,
                ..*old(self)
            }),
            final(self).viewing_conversation matches Some(v) && v == (ConversationViewState {
                thread_id,
                batch_id: v.batch_id,
                thread_status: v.thread_status,
                messages,
                executions,
                scroll_offset: usize::MAX,
                follow_mode: true,
                last_message_id: conversation::highest_id(messages@),
                visible_rows: 20,
            }) && text::opt_text(v.batch_id) == (match thread {
                Some(t) => text::opt_text(t.batch_id),
                None => None,
            }) && v.thread_status@ == (match thread {
                Some(t) => t.status@,
                None => Seq::empty(),
            }),
    {
        let (batch_id, status): (Option<String>, String) = match thread {
            Some(t) => (t.batch_id, t.status),
            None => (None, String::new()),
        };
        self.viewing_conversation = Some(
            ConversationViewState::new(thread_id, batch_id, status, messages, executions),
        );
    }
}

/// The index of the last event.
pub open spec fn last_event(events: Seq<ExecutionEventRow>) -> Option<i32> {
    if events.len() == 0 {
        None
    } else {
        Some(events.last().event_index)
    }
}

/// Whether a thread takes more messages.
pub open spec fn thread_open(status: Seq<char>) -> bool {
    status == "Active"@ || status == "active"@
}

/// The input of an execution: the body of its dispatch message, if that belongs
/// to the same thread and went to the same agent.
pub fn input_payload(execution: &ExecutionRow, dispatch: Option<MessageRow>) -> (r: (
    Option<String>,
    bool,
))
    ensures
        match dispatch {
            Some(m) => if m.thread_id@ == execution.thread_id@ && m.to_alias@
                == execution.agent_alias@ {
                r == (Some(m.body), true)
            } else {
                r == (None::<String>, false)
            },
            None => r == (None::<String>, false),
        },
{
    match dispatch {
        Some(m) => if str_eq(m.thread_id.as_str(), execution.thread_id.as_str()) && str_eq(
            m.to_alias.as_str(),
            execution.agent_alias.as_str(),
        ) {
            (Some(m.body), true)
        } else {
            (None, false)
        },
        None => (None, false),
    }
}

/// A path under a directory: one that begins at the root stands for itself, and
/// a separator is put in unless the directory is empty or ends in one.
pub open spec fn joined_path(dir: Seq<char>, path: Seq<char>) -> Seq<char> {
    if path.len() > 0 && path[0] == '/' {
        path
    } else if dir.len() == 0 || dir.last() == '/' {
        dir + path
    } else {
        dir.push('/') + path
    }
}

/// The log file of an execution in a directory.
pub fn log_path(log_dir: &str, execution_id: &str) -> (r: String)
    ensures
        r@ == joined_path(log_dir@, execution_id@ + ".log"@),
{
    proof {
        reveal_strlit(".log");
        reveal_strlit("/");
    }
    let file: String = cat(execution_id, ".log");
    let len: usize = log_dir.unicode_len();
    if file.as_str().get_char(0) == '/' {
        file
    } else if len == 0 || log_dir.get_char(len - 1) == '/' {
        cat(log_dir, file.as_str())
    } else {
        let r: String = cat3(log_dir, "/", file.as_str());
        assert(log_dir@ + "/"@ =~= log_dir@.push('/'));
        r
    }
}

impl App {
    /// Opens the detail view of an execution that was read with its dispatch
    /// message, its log and its events. As many events as are read at most may
    /// not be all.
    pub fn show_execution(
        &mut self,
        execution: ExecutionRow,
        dispatch: Option<MessageRow>,
        log: LogFile,
        events: Vec<ExecutionEventRow>,
    )
        ensures
            *final(self) == (App { viewing_log: final(self).viewing_log, ..*old(self) }),
            final(self).viewing_log matches Some(v) && {
                let (tab, follow, offset) = log_viewer::opening(execution.status@);
                &&& v.execution == execution
                &&& text::texts(v.lines@) == log_viewer::opening_lines(execution, Some(log))
                &&& v.log_path == Some(log.path)
                &&& v.file_pos == (match log.len {
                    Some(n) => n,
                    None => 0,
                })
                &&& v.visible_rows == 20
                &&& v.json_view_mode == JsonViewMode::Humanized
                &&& v.input_linked == (dispatch matches Some(m) && m.thread_id@
                    == execution.thread_id@ && m.to_alias@ == execution.agent_alias@)
                &&& v.input_linked ==> (dispatch matches Some(m) && v.input_payload == Some(m.body))
                &&& !v.input_linked ==> v.input_payload is None
                &&& v.timeline_events == events
                &&& v.timeline_truncated == (events@.len() == TIMELINE_EVENT_LIMIT)
                &&& v.active_tab == tab
                &&& v.tab_states@ == seq![
                    TabState { scroll_offset: 0, follow: false },
                    TabState { scroll_offset: offset, follow },
                    TabState { scroll_offset: 0, follow: false },
                ]
            },
    {
        let (payload, linked): (Option<String>, bool) = input_payload(&execution, dispatch);
        let truncated: bool = events.len() == TIMELINE_EVENT_LIMIT as usize;
        self.viewing_log = Some(
            ExecutionDetailState::new(
                execution,
                Some(log),
                payload,
                linked,
                events,
                truncated,
            ),
        );
    }
}

// ── Laws ─────────────────────────────────────────────────────────────────────

/// Data are read again once they are as old as the interval. While there are
/// none, it is the last attempt that counts.
pub proof fn law_when_data_are_old(at: u64, last: Option<u64>, interval: u64, now: u64)
    requires
        at <= now,
        interval > 0,
    ensures
        stale(Some(at), last, interval, now) <==> now >= at + interval,
        stale(None, Some(at), interval, now) <==> now >= at + interval,
        stale(None, None, interval, now),
        !stale(Some(now), last, interval, at),
{
}

/// What is read when: the Ops data unless an overlay hides them, the data of
/// another tab only while it is in view.
pub proof fn law_what_is_due(a: App, now: u64)
    requires
        a.poll_interval_ms > 0,
    ensures
        a.viewing_log is Some || a.viewing_conversation is Some ==> !due(a, now).activity,
        a.active_tab != 1 ==> !due(a, now).agents,
        a.active_tab != 2 ==> !due(a, now).executions,
        a.active_tab != 3 ==> !due(a, now).schedules,
        a.viewing_log is None && a.viewing_conversation is None ==> (a.activity_data matches Some(
            d,
        ) ==> (due(a, now).activity <==> now >= d.fetched_at + a.poll_interval_ms)),
        a.active_tab == 1 ==> (a.agents_data matches Some(d) ==> (due(a, now).agents <==> now
            >= d.fetched_at + a.poll_interval_ms)),
        a.active_tab == 2 ==> (a.executions_data matches Some(d) ==> (due(a, now).executions <==> now
            >= d.fetched_at + a.poll_interval_ms)),
        a.active_tab == 3 ==> (a.last_schedule_attempt matches Some(t) ==> (due(a, now).schedules
            <==> now >= t + a.poll_interval_ms)),
        attempt(true, a.last_activity_attempt, now) == Some(now),
        attempt(false, a.last_activity_attempt, now) == a.last_activity_attempt,
{
}

/// To mark data as old takes nothing of them away and changes nothing else that
/// is shown.
pub proof fn law_old_data_are_kept(a: App, now: u64)
    ensures
        ({
            let b = invalidated(a, now);
            &&& a.activity_data is Some <==> b.activity_data is Some
            &&& a.activity_data matches Some(d) ==> b.activity_data->0.rows == d.rows
                && b.activity_data->0.merge_ops == d.merge_ops && b.activity_data->0.thread_counts
                == d.thread_counts
            &&& a.agents_data is Some <==> b.agents_data is Some
            &&& a.agents_data matches Some(d) ==> b.agents_data->0.active_counts == d.active_counts
                && b.agents_data->0.executions_by_agent == d.executions_by_agent
            &&& a.executions_data is Some <==> b.executions_data is Some
            &&& a.executions_data matches Some(d) ==> b.executions_data->0.executions
                == d.executions
            &&& b.active_tab == a.active_tab && b.activity_selected == a.activity_selected
            &&& b.agents_selected == a.agents_selected && b.executions_selected
                == a.executions_selected
            &&& b.drill_batch == a.drill_batch && b.history_drill_batch == a.history_drill_batch
            &&& b.viewing_log == a.viewing_log && b.viewing_conversation == a.viewing_conversation
        }),
{
}

/// What is told of a refresh: nothing when it brought data, its error, or that it
/// took too long.
pub proof fn law_refresh_errors(d: ActivityData, e: String)
    ensures
        refresh_error("activity"@, Refreshed::Loaded(d)) is None,
        refresh_error("activity"@, Refreshed::<ActivityData>::Failed(e)) == Some(
            "activity: "@ + e@,
        ),
        refresh_error("activity"@, Refreshed::<ActivityData>::TimedOut) == Some(
            "activity: timeout"@,
        ),
        refresh_error("agents"@, Refreshed::<AgentsData>::Failed(e)) == Some("agents: "@ + e@),
        refresh_error("agents"@, Refreshed::<AgentsData>::TimedOut) == Some("agents: timeout"@),
        refresh_error("history"@, Refreshed::<Vec<ExecutionRow>>::Failed(e)) == Some(
            "history: "@ + e@,
        ),
        refresh_error("history"@, Refreshed::<Vec<ExecutionRow>>::TimedOut) == Some(
            "history: timeout"@,
        ),
{
    lemma_prefixes();
}

/// The age of a worker's last beat, none where there was no beat.
pub proof fn law_age_of_the_last_beat(
    id: String,
    beat: i64,
    start: i64,
    version: Option<String>,
    now: i64,
)
    requires
        0 <= beat <= now,
    ensures
        age_of(Some((id, beat, start, version)), now) == Some((now - beat) as u64),
        age_of(None, now) is None,
{
}

/// What is told of an agent's executions is their own state, duration and end,
/// in their order; nothing where they could not be read.
pub proof fn law_summaries_tell_their_execution(rows: Vec<ExecutionRow>, e: String, i: int)
    ensures
        summaries_of(Ok(rows)).len() == rows@.len(),
        0 <= i < rows@.len() ==> {
            &&& summaries_of(Ok(rows))[i].status == rows@[i].status
            &&& summaries_of(Ok(rows))[i].duration_ms == rows@[i].duration_ms
            &&& summaries_of(Ok(rows))[i].finished_at == rows@[i].finished_at
        },
        summaries_of(Err(e)).len() == 0,
{
}

/// The executions whose progress is followed are those that are queued, picked up
/// or executing, each of them and in the order of their rows.
pub proof fn law_running_executions_are_followed(
    rows: Seq<ThreadStatusView>,
    t: ThreadStatusView,
)
    ensures
        running_ids(Seq::empty()).len() == 0,
        t.execution_id matches Some(id) ==> (t.execution_status matches Some(s) ==> running_ids(
            rows.push(t),
        ) == if s@ == "queued"@ || s@ == "picked_up"@ || s@ == "executing"@ {
            running_ids(rows).push(id@)
        } else {
            running_ids(rows)
        }),
        t.execution_id is None || t.execution_status is None ==> running_ids(rows.push(t))
            == running_ids(rows),
{
    assert(rows.push(t).drop_last() =~= rows);
}

/// Summaries that were found are offered one after the other: the last one counts
/// if it is of the execution, differs from what is shown, and that has been shown
/// for a second and a half.
pub proof fn law_found_summaries_are_offered(
    shown: Option<(Seq<char>, u64)>,
    found: Seq<(String, Option<String>)>,
    of: String,
    summary: Option<String>,
    id: Seq<char>,
    now: u64,
)
    ensures
        offered(shown, Seq::empty(), id, now) == shown,
        of@ != id || summary is None ==> offered(shown, found.push((of, summary)), id, now)
            == offered(shown, found, id, now),
        of@ == id ==> (summary matches Some(s) ==> {
            let before = offered(shown, found, id, now);
            let after = offered(shown, found.push((of, summary)), id, now);
            &&& before is None ==> after == Some((s@, now))
            &&& before matches Some((text, at)) ==> after == if text != s@ && now - at >= 1500 {
                Some((s@, now))
            } else {
                before
            }
        }),
{
    assert(found.push((of, summary)).drop_last() =~= found);
    assert(found.push((of, summary)).last() == (of, summary));
}

/// What an event tells of an execution: its progress replaces what is shown, its
/// end takes it away, and an event of another execution changes nothing. Events
/// are taken one after the other.
pub proof fn law_events_tell_of_their_execution(
    shown: Option<(Seq<char>, u64)>,
    events: Seq<OrchestratorEvent>,
    e: OrchestratorEvent,
    id: Seq<char>,
    now: u64,
)
    ensures
        e is ExecutionCompleted && e->ExecutionCompleted_execution_id@ == id ==> told(
            shown,
            e,
            id,
            now,
        ) is None,
        e is ExecutionCompleted && e->ExecutionCompleted_execution_id@ != id ==> told(
            shown,
            e,
            id,
            now,
        ) == shown,
        e is ExecutionProgress && e->ExecutionProgress_execution_id@ == id && shown is None ==> told(
            shown,
            e,
            id,
            now,
        ) == Some((e->ExecutionProgress_summary@, now)),
        e is ExecutionProgress && e->ExecutionProgress_execution_id@ != id ==> told(
            shown,
            e,
            id,
            now,
        ) == shown,
        e !is ExecutionProgress && e !is ExecutionCompleted ==> told(shown, e, id, now) == shown,
        told_all(shown, Seq::empty(), id, now) == shown,
        told_all(shown, events.push(e), id, now) == told(
            told_all(shown, events, id, now),
            e,
            id,
            now,
        ),
        e is ExecutionCompleted && e->ExecutionCompleted_execution_id@ == id ==> told_all(
            shown,
            events.push(e),
            id,
            now,
        ) is None,
{
    assert(events.push(e).drop_last() =~= events);
}

/// A timeline is read on from its last event, and a conversation only while its
/// thread is active.
pub proof fn law_overlays_are_read_on(events: Seq<ExecutionEventRow>, e: ExecutionEventRow)
    ensures
        last_event(Seq::empty()) is None,
        last_event(events.push(e)) == Some(e.event_index),
        thread_open("Active"@) && thread_open("active"@),
        !thread_open("Completed"@) && !thread_open("Failed"@) && !thread_open("Abandoned"@),
{
    reveal_strlit("Active");
    reveal_strlit("active");
    reveal_strlit("Completed");
    reveal_strlit("Failed");
    reveal_strlit("Abandoned");
    assert("Active"@.len() == 6 && "active"@.len() == 6);
    assert("Completed"@.len() == 9 && "Abandoned"@.len() == 9);
    assert("Failed"@[0] == 'F' && "Active"@[0] == 'A' && "active"@[0] == 'a');
}

/// A path in a directory: the directory, one slash and the name. A name that
/// begins with a slash is the path itself.
pub proof fn law_paths_in_a_directory(dir: Seq<char>, name: Seq<char>)
    ensures
        name.len() > 0 && name[0] == '/' ==> joined_path(dir, name) == name,
        dir.len() > 0 && dir.last() != '/' && name.len() > 0 && name[0] != '/' ==> joined_path(
            dir,
            name,
        ) == dir + "/"@ + name,
        name.len() > 0 && name[0] != '/' ==> joined_path(dir.push('/'), name) == dir + "/"@ + name,
        name.len() > 0 && name[0] != '/' ==> joined_path(Seq::empty(), name) == name,
{
    reveal_strlit("/");
    assert(dir.push('/') + name =~= dir + "/"@ + name);
    assert(Seq::<char>::empty() + name =~= name);
}

} // verus!
