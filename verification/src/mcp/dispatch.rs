//! Sending a message to an agent.
//!
//! A dispatch checks the target, reopens a thread that has ended, and inserts
//! the message. Whether the message starts an execution is up to the worker. A
//! dispatch for a later time also creates the execution, which then waits.
use crate::clock::{iso_text, read_time, Instant};
use crate::clock;
use crate::ids::new_ulid;
use crate::ids;
use crate::mcp::params::DispatchParams;
use crate::mcp::session::{handoff_metadata, AgentConfig, HandoffToValue, HandoffView};
use crate::mcp::session;
use crate::store::{message_ref, ThreadRow, ThreadStatus};
use crate::store;
use crate::text::{cat, cat3, i64_text, join, opt_copy, str_eq, u64_text, usize_text};
use crate::text;
use vstd::prelude::*;

verus! {

// ── Checks ───────────────────────────────────────────────────────────────────

/// The first agent of a name.
pub open spec fn agent_named(agents: Seq<AgentConfig>, alias: Seq<char>) -> Option<AgentConfig>
    decreases agents.len(),
{
    if agents.len() == 0 {
        None
    } else {
        match agent_named(agents.drop_last(), alias) {
            Some(a) => Some(a),
            None => if agents.last().alias@ == alias {
                Some(agents.last())
            } else {
                None
            },
        }
    }
}

/// The value of an optional reference.
pub open spec fn agent_at(a: Option<&AgentConfig>) -> Option<AgentConfig> {
    match a {
        Some(v) => Some(*v),
        None => None,
    }
}

/// The first agent of a name.
pub fn find_agent<'a>(agents: &'a Vec<AgentConfig>, alias: &str) -> (r: Option<&'a AgentConfig>)
    ensures
        agent_at(r) == agent_named(agents@, alias@),
{
    let mut found: Option<&'a AgentConfig> = None;
    let mut i: usize = 0;
    while i < agents.len()
        invariant
            i <= agents@.len(),
            agent_at(found) == agent_named(agents@.take(i as int), alias@),
        decreases agents@.len() - i,
    {
        assert(agents@.take(i + 1).drop_last() =~= agents@.take(i as int));
        if found.is_none() && str_eq(agents[i].alias.as_str(), alias) {
            found = Some(&agents[i]);
        }
        i += 1;
    }
    assert(agents@.take(i as int) =~= agents@);
    found
}

/// The names of agents.
pub open spec fn aliases_of(agents: Seq<AgentConfig>) -> Seq<Seq<char>> {
    agents.map_values(|a: AgentConfig| a.alias@)
}

/// What is said of an agent that is not configured.
pub open spec fn unknown_agent_text(agents: Seq<AgentConfig>, to: Seq<char>) -> Seq<char> {
    "unknown agent alias: '"@ + to + "'. available: "@ + text::joined(aliases_of(agents), ", "@)
}

/// What is said of an agent that is not configured.
pub fn unknown_agent(agents: &Vec<AgentConfig>, to: &str) -> (r: String)
    ensures
        r@ == unknown_agent_text(agents@, to@),
{
    let mut names: Vec<String> = Vec::new();
    let mut i: usize = 0;
    while i < agents.len()
        invariant
            i <= agents@.len(),
            names@.len() == i,
            forall|k: int| 0 <= k < i ==> (#[trigger] names@[k])@ == agents@[k].alias@,
        decreases agents@.len() - i,
    {
        names.push(agents[i].alias.clone());
        i += 1;
    }
    assert(text::texts(names@) =~= aliases_of(agents@));
    let mut s: String = cat3("unknown agent alias: '", to, "'. available: ");
    s.append(join(&names, ", ").as_str());
    s
}

/// What is said where too many executions wait or run.
pub open spec fn queue_full_text(current: i64, max: usize) -> Seq<char> {
    "Queue depth limit reached: "@ + text::dec_int(current as int) + "/"@ + text::dec(max as nat)
        + " executions are in-flight (queued + active). Wait for running tasks to complete, or abandon stale threads with orch_abandon before dispatching new work. Check current load with orch_metrics."@
}

/// What the queue has against a dispatch. A count that could not be read is
/// nothing against it.
pub open spec fn queue_refusal(inflight: Result<i64, String>, max: Option<usize>) -> Option<
    Seq<char>,
> {
    match (inflight, max) {
        (Ok(current), Some(m)) => if current as usize >= m {
            Some(queue_full_text(current, m))
        } else {
            None
        },
        _ => None,
    }
}

/// What the queue has against a dispatch.
pub fn queue_guard(inflight: Result<i64, String>, max: Option<usize>) -> (r: Option<String>)
    ensures
        text::opt_text(r) == queue_refusal(inflight, max),
{
    match (inflight, max) {
        (Ok(current), Some(m)) => if current as usize >= m {
            let mut s: String = cat3(
                "Queue depth limit reached: ",
                i64_text(current).as_str(),
                "/",
            );
            s.append(usize_text(m).as_str());
            s.append(
                " executions are in-flight (queued + active). Wait for running tasks to complete, or abandon stale threads with orch_abandon before dispatching new work. Check current load with orch_metrics.",
            );
            Some(s)
        } else {
            None
        },
        _ => None,
    }
}

/// What is said of a text that is no time.
pub open spec fn bad_time_text(given: Seq<char>, why: Seq<char>) -> Seq<char> {
    "invalid scheduled_for timestamp '"@ + given + "': "@ + why
        + ". Expected ISO 8601 format (e.g. '2026-03-21T20:00:00Z')."@
}

/// What is said of a time that has come.
pub open spec fn past_time_text(got: Seq<char>, now: Seq<char>) -> Seq<char> {
    "scheduled_for must be in the future. Got '"@ + got + "' but current time is '"@ + now + "'."@
}

/// When a dispatch may start, or what is said against that time.
pub open spec fn scheduled_time(
    given: Seq<char>,
    parsed: Result<Instant, Seq<char>>,
    now: Instant,
) -> Result<Instant, Seq<char>> {
    match parsed {
        Ok(t) => if t.later_than(now) {
            Ok(t)
        } else {
            Err(past_time_text(clock::iso(t), clock::iso(now)))
        },
        Err(e) => Err(bad_time_text(given, e)),
    }
}

/// The outcome of a check, as plain values.
pub open spec fn checked_time(r: Result<Instant, String>) -> Result<Instant, Seq<char>> {
    match r {
        Ok(t) => Ok(t),
        Err(e) => Err(e@),
    }
}

/// When a dispatch may start, given what was read of the text.
pub fn check_schedule(given: &str, parsed: Result<Instant, String>, now: Instant) -> (r: Result<
    Instant,
    String,
>)
    ensures
        checked_time(r) == scheduled_time(given@, checked_time(parsed), now),
{
    match parsed {
        Ok(t) => if t.is_after(&now) {
            Ok(t)
        } else {
            let mut s: String = cat3(
                "scheduled_for must be in the future. Got '",
                iso_text(t).as_str(),
                "' but current time is '",
            );
            s.append(iso_text(now).as_str());
            s.append("'.");
            Err(s)
        },
        Err(e) => {
            let mut s: String = cat3("invalid scheduled_for timestamp '", given, "': ");
            s.append(e.as_str());
            s.append(". Expected ISO 8601 format (e.g. '2026-03-21T20:00:00Z').");
            Err(s)
        },
    }
}

// ── What to do next ──────────────────────────────────────────────────────────

/// A text in quotes.
pub open spec fn quoted(s: Seq<char>) -> Seq<char> {
    "\""@ + s + "\""@
}

/// Whom responses are handed on to, in words.
pub open spec fn targets_text(target: HandoffView) -> Seq<char> {
    match target {
        HandoffView::Single(t) => quoted(t),
        HandoffView::FanOut(ts) => text::joined(ts.map_values(|t: Seq<char>| quoted(t)), ", "@),
    }
}

fn describe_targets(target: &HandoffToValue) -> (r: String)
    ensures
        r@ == targets_text(target@),
{
    match target {
        HandoffToValue::Single(t) => cat3("\"", t.as_str(), "\""),
        HandoffToValue::FanOut(ts) => {
            let mut names: Vec<String> = Vec::new();
            let mut i: usize = 0;
            while i < ts.len()
                invariant
                    i <= ts@.len(),
                    names@.len() == i,
                    forall|k: int| 0 <= k < i ==> (#[trigger] names@[k])@ == quoted(ts@[k]@),
                decreases ts@.len() - i,
            {
                names.push(cat3("\"", ts[i].as_str(), "\""));
                i += 1;
            }
            assert(text::texts(names@) =~= text::texts(ts@).map_values(|t: Seq<char>| quoted(t)));
            join(&names, ", ")
        },
    }
}

/// How to wait for the response of an agent: for the whole chain where it hands
/// on its responses, for the response alone otherwise.
pub open spec fn next_step_text(
    agent: Option<AgentConfig>,
    thread_id: Seq<char>,
    message_id: i64,
    to: Seq<char>,
) -> Seq<char> {
    let start = "Use orch_wait with thread_id=\""@ + thread_id + "\", since_reference=\""@
        + store::reference_text(message_id);
    let alone = start + "\" to wait for the response."@;
    match agent {
        Some(a) => match session::downstream(a) {
            Some(target) => start
                + "\", and await_chain=true to wait for the full chain to settle. \""@ + to
                + "\" auto-handoffs to "@ + targets_text(target) + " (chain depth limit: "@ + text::dec(
                session::chain_depth(a) as nat,
            ) + ")."@,
            None => alone,
        },
        None => alone,
    }
}

/// How to wait for the response of an agent.
pub fn next_step(agent: Option<&AgentConfig>, thread_id: &str, message_id: i64, to: &str) -> (r:
    String)
    ensures
        r@ == next_step_text(agent_at(agent), thread_id@, message_id, to@),
{
    let mut s: String = cat3(
        "Use orch_wait with thread_id=\"",
        thread_id,
        "\", since_reference=\"",
    );
    s.append(message_ref(message_id).as_str());
    if let Some(a) = agent {
        let (target, _chain, depth): (Option<HandoffToValue>, bool, Option<u32>) =
            handoff_metadata(a);
        if let Some(t) = target {
            s.append("\", and await_chain=true to wait for the full chain to settle. \"");
            s.append(to);
            s.append("\" auto-handoffs to ");
            s.append(describe_targets(&t).as_str());
            s.append(" (chain depth limit: ");
            let d: u32 = match depth {
                Some(d) => d,
                None => 0,
            };
            s.append(u64_text(d as u64).as_str());
            s.append(").");
            return s;
        }
    }
    s.append("\" to wait for the response.");
    s
}

// ── The dispatch ─────────────────────────────────────────────────────────────

/// What a dispatch depends on besides its parameters.
#[derive(Clone, Debug)]
pub struct DispatchConfig {
    pub agents: Vec<AgentConfig>,
    /// How many executions may wait or run; no limit if it is missing.
    pub max_queued_executions: Option<usize>,
}

/// A message to insert.
#[derive(Clone, Debug)]
pub struct NewMessage {
    pub thread_id: String,
    pub from: String,
    pub to: String,
    pub intent: String,
    pub body: String,
    pub batch: Option<String>,
    pub summary: Option<String>,
    pub skip_handoff: bool,
}

/// An execution to create for a later time.
#[derive(Clone, Debug)]
pub struct NewExecution {
    pub thread_id: String,
    pub agent: String,
    pub message_id: i64,
    /// Seconds since the epoch.
    pub eligible_at: i64,
    pub eligible_reason: String,
}

/// What the dispatch tool answers.
#[derive(Clone, Debug)]
pub struct DispatchResult {
    pub thread_id: String,
    pub message_id: i64,
    /// How to wait for the response.
    pub next_step: String,
    /// The time that was asked for.
    pub scheduled_for: Option<String>,
    /// The execution that was created for that time.
    pub execution_id: Option<String>,
    /// Whether the thread had ended and was reopened.
    pub reopened: bool,
    /// The status of the thread before it was reopened.
    pub previous_status: Option<String>,
}

/// A message to insert, as plain values.
pub struct NewMessageView {
    pub thread_id: Seq<char>,
    pub from: Seq<char>,
    pub to: Seq<char>,
    pub intent: Seq<char>,
    pub body: Seq<char>,
    pub batch: Option<Seq<char>>,
    pub summary: Option<Seq<char>>,
    pub skip_handoff: bool,
}

/// An execution to create, as plain values.
pub struct NewExecutionView {
    pub thread_id: Seq<char>,
    pub agent: Seq<char>,
    pub message_id: i64,
    pub eligible_at: i64,
    pub eligible_reason: Seq<char>,
}

/// An answer, as plain values.
pub struct DispatchResultView {
    pub thread_id: Seq<char>,
    pub message_id: i64,
    pub next_step: Seq<char>,
    pub scheduled_for: Option<Seq<char>>,
    pub execution_id: Option<Seq<char>>,
    pub reopened: bool,
    pub previous_status: Option<Seq<char>>,
}

impl View for NewMessage {
    type V = NewMessageView;

    open spec fn view(&self) -> NewMessageView {
        NewMessageView {
            thread_id: self.thread_id@,
            from: self.from@,
            to: self.to@,
            intent: self.intent@,
            body: self.body@,
            batch: text::opt_text(self.batch),
            summary: text::opt_text(self.summary),
            skip_handoff: self.skip_handoff,
        }
    }
}

impl View for NewExecution {
    type V = NewExecutionView;

    open spec fn view(&self) -> NewExecutionView {
        NewExecutionView {
            thread_id: self.thread_id@,
            agent: self.agent@,
            message_id: self.message_id,
            eligible_at: self.eligible_at,
            eligible_reason: self.eligible_reason@,
        }
    }
}

impl View for DispatchResult {
    type V = DispatchResultView;

    open spec fn view(&self) -> DispatchResultView {
        DispatchResultView {
            thread_id: self.thread_id@,
            message_id: self.message_id,
            next_step: self.next_step@,
            scheduled_for: text::opt_text(self.scheduled_for),
            execution_id: text::opt_text(self.execution_id),
            reopened: self.reopened,
            previous_status: text::opt_text(self.previous_status),
        }
    }
}

/// A dispatch under way.
#[derive(Clone, Debug)]
pub struct Dispatching {
    pub thread_id: String,
    /// When the execution may start, in seconds since the epoch.
    pub eligible_at: Option<i64>,
    /// The status of a thread that is reopened.
    pub previous_status: Option<String>,
    pub message_id: i64,
}

/// A dispatch under way, as plain values.
pub struct DispatchingView {
    pub thread_id: Seq<char>,
    pub eligible_at: Option<i64>,
    pub previous_status: Option<Seq<char>>,
    pub message_id: i64,
}

impl View for Dispatching {
    type V = DispatchingView;

    open spec fn view(&self) -> DispatchingView {
        DispatchingView {
            thread_id: self.thread_id@,
            eligible_at: self.eligible_at,
            previous_status: text::opt_text(self.previous_status),
            message_id: self.message_id,
        }
    }
}

/// What was answered last.
#[derive(Debug)]
pub enum DispatchReply {
    /// Nothing was asked yet.
    Begin,
    /// How many executions wait or run.
    Counted(Result<i64, String>),
    /// The lookup of the thread.
    Thread(Result<Option<ThreadRow>, String>),
    /// The executions of the thread were cancelled, as far as that went.
    Cancelled,
    /// The change of the thread's status.
    Reopened(Result<(), String>),
    /// The id of the message.
    Inserted(Result<i64, String>),
    /// The id of the execution; none where there was one already.
    Scheduled(Result<Option<String>, String>),
}

/// What comes next in a dispatch.
#[derive(Debug)]
pub enum DispatchStep {
    CountInflight,
    FindThread,
    CancelExecutions,
    /// Set the status of the thread to active.
    Reopen,
    InsertMessage(NewMessage),
    InsertExecution(NewExecution),
    Done(DispatchResult),
    Refused(String),
}

/// What comes next, as plain values.
pub enum DispatchStepView {
    CountInflight,
    FindThread,
    CancelExecutions,
    Reopen,
    InsertMessage(NewMessageView),
    InsertExecution(NewExecutionView),
    Done(DispatchResultView),
    Refused(Seq<char>),
}

impl View for DispatchStep {
    type V = DispatchStepView;

    open spec fn view(&self) -> DispatchStepView {
        match *self {
            DispatchStep::CountInflight => DispatchStepView::CountInflight,
            DispatchStep::FindThread => DispatchStepView::FindThread,
            DispatchStep::CancelExecutions => DispatchStepView::CancelExecutions,
            DispatchStep::Reopen => DispatchStepView::Reopen,
            DispatchStep::InsertMessage(m) => DispatchStepView::InsertMessage(m@),
            DispatchStep::InsertExecution(e) => DispatchStepView::InsertExecution(e@),
            DispatchStep::Done(r) => DispatchStepView::Done(r@),
            DispatchStep::Refused(e) => DispatchStepView::Refused(e@),
        }
    }
}

/// Whether a thread has ended. A status that is not known counts as active.
pub open spec fn has_ended(thread: ThreadRow) -> bool {
    ThreadStatus::parsed(thread.status@) matches Some(s) && s.terminal()
}

/// The message that a dispatch inserts.
pub open spec fn dispatch_message(params: DispatchParams, thread_id: Seq<char>) -> NewMessageView {
    NewMessageView {
        thread_id,
        from: params.from@,
        to: params.to@,
        intent: params.intent@,
        body: params.body@,
        batch: text::opt_text(params.batch),
        summary: text::opt_text(params.summary),
        skip_handoff: params.skip_handoff == Some(true),
    }
}

/// The answer of a dispatch.
pub open spec fn dispatch_result(
    config: DispatchConfig,
    params: DispatchParams,
    state: DispatchingView,
    execution_id: Option<Seq<char>>,
) -> DispatchResultView {
    DispatchResultView {
        thread_id: state.thread_id,
        message_id: state.message_id,
        next_step: next_step_text(
            agent_named(config.agents@, params.to@),
            state.thread_id,
            state.message_id,
            params.to@,
        ),
        scheduled_for: text::opt_text(params.scheduled_for),
        execution_id,
        reopened: state.previous_status is Some,
        previous_status: state.previous_status,
    }
}

/// A dispatch that has passed the queue: its time is checked.
pub open spec fn dispatch_admitted(
    params: DispatchParams,
    state: DispatchingView,
    now: Instant,
) -> (DispatchingView, DispatchStepView) {
    match params.scheduled_for {
        None => (state, DispatchStepView::FindThread),
        Some(given) => match scheduled_time(given@, clock::time_of(given@), now) {
            Ok(t) => (
                DispatchingView { eligible_at: Some(t.secs), ..state },
                DispatchStepView::FindThread,
            ),
            Err(e) => (state, DispatchStepView::Refused(e)),
        },
    }
}

/// The state of a dispatch after an answer, and what comes next.
pub open spec fn dispatch_next(
    config: DispatchConfig,
    params: DispatchParams,
    state: DispatchingView,
    reply: DispatchReply,
    now: Instant,
) -> (DispatchingView, DispatchStepView) {
    match reply {
        DispatchReply::Begin => if agent_named(config.agents@, params.to@) is None {
            (
                state,
                DispatchStepView::Refused(unknown_agent_text(config.agents@, params.to@)),
            )
        } else if config.max_queued_executions is Some {
            (state, DispatchStepView::CountInflight)
        } else {
            dispatch_admitted(params, state, now)
        },
        DispatchReply::Counted(inflight) => match queue_refusal(
            inflight,
            config.max_queued_executions,
        ) {
            Some(e) => (state, DispatchStepView::Refused(e)),
            None => dispatch_admitted(params, state, now),
        },
        DispatchReply::Thread(found) => match found {
            Ok(Some(thread)) => if has_ended(thread) {
                (
                    DispatchingView { previous_status: Some(thread.status@), ..state },
                    DispatchStepView::CancelExecutions,
                )
            } else {
                (
                    state,
                    DispatchStepView::InsertMessage(dispatch_message(params, state.thread_id)),
                )
            },
            _ => (state, DispatchStepView::InsertMessage(dispatch_message(params, state.thread_id))),
        },
        DispatchReply::Cancelled => (state, DispatchStepView::Reopen),
        DispatchReply::Reopened(Ok(_)) => (
            state,
            DispatchStepView::InsertMessage(dispatch_message(params, state.thread_id)),
        ),
        DispatchReply::Reopened(Err(e)) => (
            state,
            DispatchStepView::Refused("failed to reopen thread: "@ + e@),
        ),
        DispatchReply::Inserted(Ok(id)) => {
            let next = DispatchingView { message_id: id, ..state };
            match state.eligible_at {
                Some(at) => (
                    next,
                    DispatchStepView::InsertExecution(
                        NewExecutionView {
                            thread_id: state.thread_id,
                            agent: params.to@,
                            message_id: id,
                            eligible_at: at,
                            eligible_reason: "scheduled"@,
                        },
                    ),
                ),
                None => (next, DispatchStepView::Done(dispatch_result(config, params, next, None))),
            }
        },
        DispatchReply::Inserted(Err(e)) => (
            state,
            DispatchStepView::Refused("failed to insert message: "@ + e@),
        ),
        DispatchReply::Scheduled(Ok(id)) => (
            state,
            DispatchStepView::Done(dispatch_result(config, params, state, text::opt_text(id))),
        ),
        DispatchReply::Scheduled(Err(e)) => (
            state,
            DispatchStepView::Refused("failed to create scheduled execution: "@ + e@),
        ),
    }
}

impl Dispatching {
    /// A dispatch at its beginning: to the thread that was given, or to a new one.
    pub fn new(params: &DispatchParams) -> (r: Dispatching)
        ensures
            match params.thread_id {
                Some(t) => r.thread_id@ == t@,
                None => ids::is_ulid(r.thread_id@),
            },
            r.eligible_at is None,
            r.previous_status is None,
            r.message_id == 0,
    {
        let thread_id: String = match &params.thread_id {
            Some(t) => t.clone(),
            None => new_ulid(),
        };
        Dispatching { thread_id, eligible_at: None, previous_status: None, message_id: 0 }
    }

    fn message(&self, params: &DispatchParams) -> (r: NewMessage)
        ensures
            r@ == dispatch_message(*params, self.thread_id@),
    {
        NewMessage {
            thread_id: self.thread_id.clone(),
            from: params.from.clone(),
            to: params.to.clone(),
            intent: params.intent.clone(),
            body: params.body.clone(),
            batch: opt_copy(&params.batch),
            summary: opt_copy(&params.summary),
            skip_handoff: match params.skip_handoff {
                Some(b) => b,
                None => false,
            },
        }
    }

    fn result(
        &self,
        config: &DispatchConfig,
        params: &DispatchParams,
        execution_id: Option<String>,
    ) -> (r: DispatchResult)
        ensures
            r@ == dispatch_result(*config, *params, self@, text::opt_text(execution_id)),
    {
        DispatchResult {
            thread_id: self.thread_id.clone(),
            message_id: self.message_id,
            next_step: next_step(
                find_agent(&config.agents, params.to.as_str()),
                self.thread_id.as_str(),
                self.message_id,
                params.to.as_str(),
            ),
            scheduled_for: opt_copy(&params.scheduled_for),
            execution_id,
            reopened: self.previous_status.is_some(),
            previous_status: opt_copy(&self.previous_status),
        }
    }

    fn admitted(&mut self, params: &DispatchParams, now: Instant) -> (r: DispatchStep)
        ensures
            (final(self)@, r@) == dispatch_admitted(*params, old(self)@, now),
    {
        match &params.scheduled_for {
            None => DispatchStep::FindThread,
            Some(given) => match check_schedule(given.as_str(), read_time(given.as_str()), now) {
                Ok(t) => {
                    self.eligible_at = Some(t.secs);
                    DispatchStep::FindThread
                },
                Err(e) => DispatchStep::Refused(e),
            },
        }
    }

    /// What comes next after an answer.
    pub fn next(
        &mut self,
        config: &DispatchConfig,
        params: &DispatchParams,
        reply: DispatchReply,
        now: Instant,
    ) -> (r: DispatchStep)
        ensures
            (final(self)@, r@) == dispatch_next(*config, *params, old(self)@, reply, now),
            final(self).thread_id@ == old(self).thread_id@,
            r matches DispatchStep::InsertMessage(m) ==> {
                &&& m.thread_id@ == old(self).thread_id@
                &&& m.from@ == params.from@ && m.to@ == params.to@
                &&& m.intent@ == params.intent@ && m.body@ == params.body@
            },
            r matches DispatchStep::InsertExecution(e) ==> {
                &&& e.thread_id@ == old(self).thread_id@ && e.agent@ == params.to@
                &&& reply == DispatchReply::Inserted(Ok::<i64, String>(e.message_id))
                &&& old(self).eligible_at == Some(e.eligible_at)
            },
            r matches DispatchStep::Done(d) ==> {
                &&& d.thread_id@ == old(self).thread_id@
                &&& d.message_id == final(self).message_id
                &&& d.reopened <==> old(self).previous_status is Some
            },
    {
        match reply {
            DispatchReply::Begin => {
                if find_agent(&config.agents, params.to.as_str()).is_none() {
                    DispatchStep::Refused(unknown_agent(&config.agents, params.to.as_str()))
                } else if config.max_queued_executions.is_some() {
                    DispatchStep::CountInflight
                } else {
                    self.admitted(params, now)
                }
            },
            DispatchReply::Counted(inflight) => match queue_guard(
                inflight,
                config.max_queued_executions,
            ) {
                Some(e) => DispatchStep::Refused(e),
                None => self.admitted(params, now),
            },
            DispatchReply::Thread(found) => {
                if let Ok(Some(thread)) = found {
                    let ended: bool = match ThreadStatus::parse(thread.status.as_str()) {
                        Some(s) => s.is_terminal(),
                        None => false,
                    };
                    if ended {
                        self.previous_status = Some(thread.status);
                        return DispatchStep::CancelExecutions;
                    }
                }
                DispatchStep::InsertMessage(self.message(params))
            },
            DispatchReply::Cancelled => DispatchStep::Reopen,
            DispatchReply::Reopened(Ok(_)) => DispatchStep::InsertMessage(self.message(params)),
            DispatchReply::Reopened(Err(e)) => DispatchStep::Refused(
                cat("failed to reopen thread: ", e.as_str()),
            ),
            DispatchReply::Inserted(Ok(id)) => {
                self.message_id = id;
                match self.eligible_at {
                    Some(at) => DispatchStep::InsertExecution(
                        NewExecution {
                            thread_id: self.thread_id.clone(),
                            agent: params.to.clone(),
                            message_id: id,
                            eligible_at: at,
                            eligible_reason: "scheduled".to_owned(),
                        },
                    ),
                    None => DispatchStep::Done(self.result(config, params, None)),
                }
            },
            DispatchReply::Inserted(Err(e)) => DispatchStep::Refused(
                cat("failed to insert message: ", e.as_str()),
            ),
            DispatchReply::Scheduled(Ok(id)) => DispatchStep::Done(self.result(config, params, id)),
            DispatchReply::Scheduled(Err(e)) => DispatchStep::Refused(
                cat("failed to create scheduled execution: ", e.as_str()),
            ),
        }
    }
}

// ── Laws ─────────────────────────────────────────────────────────────────────

/// Everything that may be answered during a dispatch.
pub struct DispatchAnswers {
    pub counted: Result<i64, String>,
    pub thread: Result<Option<ThreadRow>, String>,
    pub reopened: Result<(), String>,
    pub inserted: Result<i64, String>,
    pub scheduled: Result<Option<String>, String>,
}

impl DispatchAnswers {
    /// The answer to a step.
    pub open spec fn to(self, step: DispatchStepView) -> DispatchReply {
        match step {
            DispatchStepView::CountInflight => DispatchReply::Counted(self.counted),
            DispatchStepView::FindThread => DispatchReply::Thread(self.thread),
            DispatchStepView::CancelExecutions => DispatchReply::Cancelled,
            DispatchStepView::Reopen => DispatchReply::Reopened(self.reopened),
            DispatchStepView::InsertMessage(_) => DispatchReply::Inserted(self.inserted),
            _ => DispatchReply::Scheduled(self.scheduled),
        }
    }
}

/// How many steps may follow a step.
pub open spec fn dispatch_rank(step: DispatchStepView) -> nat {
    match step {
        DispatchStepView::CountInflight => 6,
        DispatchStepView::FindThread => 5,
        DispatchStepView::CancelExecutions => 4,
        DispatchStepView::Reopen => 3,
        DispatchStepView::InsertMessage(_) => 2,
        DispatchStepView::InsertExecution(_) => 1,
        _ => 0,
    }
}

/// The steps of a dispatch from `step` on.
pub open spec fn dispatch_trail(
    config: DispatchConfig,
    params: DispatchParams,
    answers: DispatchAnswers,
    now: Instant,
    state: DispatchingView,
    step: DispatchStepView,
) -> Seq<DispatchStepView>
    decreases dispatch_rank(step),
{
    if dispatch_rank(step) == 0 {
        seq![step]
    } else {
        let (next, following) = dispatch_next(config, params, state, answers.to(step), now);
        seq![step] + dispatch_trail(config, params, answers, now, next, following)
    }
}

/// All steps of a dispatch to a thread.
pub open spec fn dispatch_steps(
    config: DispatchConfig,
    params: DispatchParams,
    answers: DispatchAnswers,
    now: Instant,
    thread_id: Seq<char>,
) -> Seq<DispatchStepView> {
    let start = DispatchingView {
        thread_id,
        eligible_at: None,
        previous_status: None,
        message_id: 0,
    };
    let (next, step) = dispatch_next(config, params, start, DispatchReply::Begin, now);
    dispatch_trail(config, params, answers, now, next, step)
}

/// Whether a step changes anything.
pub open spec fn writes(step: DispatchStepView) -> bool {
    step is CancelExecutions || step is Reopen || step is InsertMessage || step is InsertExecution
}

/// Whether the agent is known, the queue has room and the time, if one is given,
/// lies ahead.
pub open spec fn admissible(
    config: DispatchConfig,
    params: DispatchParams,
    answers: DispatchAnswers,
    now: Instant,
) -> bool {
    &&& agent_named(config.agents@, params.to@) is Some
    &&& queue_refusal(answers.counted, config.max_queued_executions) is None
    &&& params.scheduled_for matches Some(given) ==> scheduled_time(
        given@,
        clock::time_of(given@),
        now,
    ) is Ok
}

/// A dispatch that is not admitted changes nothing: it is refused, and no step
/// before that writes.
pub proof fn law_refused_dispatch_writes_nothing(
    config: DispatchConfig,
    params: DispatchParams,
    answers: DispatchAnswers,
    now: Instant,
    thread_id: Seq<char>,
)
    requires
        !admissible(config, params, answers, now),
    ensures
        ({
            let steps = dispatch_steps(config, params, answers, now, thread_id);
            &&& steps.last() is Refused
            &&& forall|i: int| 0 <= i < steps.len() ==> !writes(#[trigger] steps[i])
        }),
{
    reveal_with_fuel(dispatch_trail, 4);
}

/// The kinds of steps, in order.
pub open spec fn ranks(steps: Seq<DispatchStepView>) -> Seq<nat> {
    steps.map_values(|s: DispatchStepView| dispatch_rank(s))
}

/// The kinds of steps from the message on.
pub open spec fn sending(scheduled: bool) -> Seq<nat> {
    if scheduled {
        seq![2, 1, 0]
    } else {
        seq![2, 0]
    }
}

/// The kinds of steps from the lookup of the thread on.
pub open spec fn looking(ended: bool, scheduled: bool) -> Seq<nat> {
    if ended {
        seq![5, 4, 3] + sending(scheduled)
    } else {
        seq![5] + sending(scheduled)
    }
}

proof fn lemma_sending(
    config: DispatchConfig,
    params: DispatchParams,
    answers: DispatchAnswers,
    now: Instant,
    state: DispatchingView,
    step: DispatchStepView,
)
    requires
        step is InsertMessage,
        answers.inserted is Ok,
        answers.scheduled is Ok,
    ensures
        ({
            let steps = dispatch_trail(config, params, answers, now, state, step);
            ranks(steps) == sending(state.eligible_at is Some) && steps.last() is Done
        }),
{
    reveal_with_fuel(dispatch_trail, 3);
    assert(ranks(dispatch_trail(config, params, answers, now, state, step)) =~= sending(
        state.eligible_at is Some,
    ));
}

proof fn lemma_looking(
    config: DispatchConfig,
    params: DispatchParams,
    answers: DispatchAnswers,
    now: Instant,
    state: DispatchingView,
)
    requires
        answers.reopened is Ok,
        answers.inserted is Ok,
        answers.scheduled is Ok,
    ensures
        ({
            let steps = dispatch_trail(
                config,
                params,
                answers,
                now,
                state,
                DispatchStepView::FindThread,
            );
            let ended = answers.thread matches Ok(Some(t)) && has_ended(t);
            ranks(steps) == looking(ended, state.eligible_at is Some) && steps.last() is Done
        }),
{
    let find = DispatchStepView::FindThread;
    let steps = dispatch_trail(config, params, answers, now, state, find);
    let ended = answers.thread matches Ok(Some(t)) && has_ended(t);
    let (s1, n1) = dispatch_next(config, params, state, answers.to(find), now);
    if ended {
        let (s2, n2) = dispatch_next(config, params, s1, answers.to(n1), now);
        let (s3, n3) = dispatch_next(config, params, s2, answers.to(n2), now);
        lemma_sending(config, params, answers, now, s3, n3);
        let rest = dispatch_trail(config, params, answers, now, s3, n3);
        assert(dispatch_trail(config, params, answers, now, s2, n2) == seq![n2] + rest);
        assert(dispatch_trail(config, params, answers, now, s1, n1) == seq![n1] + (seq![n2]
            + rest));
        assert(ranks(steps) =~= seq![5nat, 4, 3] + ranks(rest));
    } else {
        lemma_sending(config, params, answers, now, s1, n1);
        let rest = dispatch_trail(config, params, answers, now, s1, n1);
        assert(ranks(steps) =~= seq![5nat] + ranks(rest));
    }
}

/// The order of an admitted dispatch over a store that does not fail: the queue
/// is counted where it has a limit, the thread looked up, a thread that has
/// ended freed of its executions and only then reopened, the message inserted,
/// the execution created where a time was given, and the result returned.
pub proof fn law_dispatch_order(
    config: DispatchConfig,
    params: DispatchParams,
    answers: DispatchAnswers,
    now: Instant,
    thread_id: Seq<char>,
)
    requires
        admissible(config, params, answers, now),
        answers.reopened is Ok,
        answers.inserted is Ok,
        answers.scheduled is Ok,
    ensures
        ({
            let steps = dispatch_steps(config, params, answers, now, thread_id);
            let ended = answers.thread matches Ok(Some(t)) && has_ended(t);
            let rest = looking(ended, params.scheduled_for is Some);
            &&& ranks(steps) == if config.max_queued_executions is Some {
                seq![6nat] + rest
            } else {
                rest
            }
            &&& steps.last() is Done
        }),
{
    let start = DispatchingView {
        thread_id,
        eligible_at: None,
        previous_status: None,
        message_id: 0,
    };
    let (next, step) = dispatch_next(config, params, start, DispatchReply::Begin, now);
    if config.max_queued_executions is Some {
        let (s1, n1) = dispatch_next(config, params, next, answers.to(step), now);
        lemma_looking(config, params, answers, now, s1);
        let rest = dispatch_trail(config, params, answers, now, s1, n1);
        assert(ranks(dispatch_steps(config, params, answers, now, thread_id)) =~= seq![6nat]
            + ranks(rest));
    } else {
        lemma_looking(config, params, answers, now, next);
    }
}

/// A scheduled execution is created for a time that lies ahead.
pub proof fn law_schedule_lies_ahead(
    params: DispatchParams,
    state: DispatchingView,
    now: Instant,
)
    requires
        state.eligible_at is None,
    ensures
        dispatch_admitted(params, state, now).0.eligible_at matches Some(at) ==> at >= now.secs
            && params.scheduled_for is Some,
{
}

/// A thread's status is one of those in which a thread has ended.
proof fn lemma_ended(thread: ThreadRow)
    ensures
        has_ended(thread) <==> (thread.status@ == "Completed"@ || thread.status@ == "Failed"@
            || thread.status@ == "Abandoned"@),
{
    store::law_status_round_trip(ThreadStatus::Completed);
    store::law_status_round_trip(ThreadStatus::Failed);
    store::law_status_round_trip(ThreadStatus::Abandoned);
}

/// An agent is found under a name if and only if one is configured by it.
proof fn lemma_agent_named(agents: Seq<AgentConfig>, alias: Seq<char>)
    ensures
        agent_named(agents, alias) is Some <==> exists|k: int|
            0 <= k < agents.len() && (#[trigger] agents[k]).alias@ == alias,
    decreases agents.len(),
{
    if agents.len() > 0 {
        let rest = agents.drop_last();
        lemma_agent_named(rest, alias);
        if agent_named(rest, alias) is Some {
            let k = choose|k: int| 0 <= k < rest.len() && (#[trigger] rest[k]).alias@ == alias;
            assert(agents[k] == rest[k]);
        } else if agents.last().alias@ == alias {
            assert(agents[agents.len() - 1].alias@ == alias);
        }
        if exists|k: int| 0 <= k < agents.len() && (#[trigger] agents[k]).alias@ == alias {
            let k = choose|k: int| 0 <= k < agents.len() && (#[trigger] agents[k]).alias@ == alias;
            if k < rest.len() {
                assert(rest[k].alias@ == alias);
            }
        }
    }
}

/// The agent that is found is the first of its name: it bears the name, and none
/// before it does.
pub proof fn law_first_agent_of_its_name(agents: Seq<AgentConfig>, alias: Seq<char>)
    ensures
        match agent_named(agents, alias) {
            Some(a) => exists|k: int|
                #![trigger agents[k]]
                0 <= k < agents.len() && agents[k] == a && agents[k].alias@ == alias && forall|j: int|
                    0 <= j < k ==> (#[trigger] agents[j]).alias@ != alias,
            None => forall|j: int| 0 <= j < agents.len() ==> (#[trigger] agents[j]).alias@ != alias,
        },
    decreases agents.len(),
{
    if agents.len() > 0 {
        let rest = agents.drop_last();
        law_first_agent_of_its_name(rest, alias);
        match agent_named(rest, alias) {
            Some(a) => {
                let k = choose|k: int|
                    #![trigger rest[k]]
                    0 <= k < rest.len() && rest[k] == a && rest[k].alias@ == alias && forall|j: int|
                        0 <= j < k ==> (#[trigger] rest[j]).alias@ != alias;
                assert(agents[k] == a);
                assert forall|j: int| 0 <= j < k implies (#[trigger] agents[j]).alias@ != alias by {
                    assert(rest[j] == agents[j]);
                }
            },
            None => {
                assert forall|j: int| 0 <= j < rest.len() implies (#[trigger] agents[j]).alias@
                    != alias by {
                    assert(rest[j] == agents[j]);
                }
                if agents.last().alias@ == alias {
                    assert(agents[agents.len() - 1] == agents.last());
                }
            },
        }
    }
}

/// What stands against a dispatch before anything is written: the receiver is
/// none of the configured agents, as many executions as may be wait or run, or
/// the time that was given cannot be read or does not lie ahead. Nothing else
/// does. A count that could not be read is nothing against it.
pub proof fn law_dispatch_admission(
    config: DispatchConfig,
    params: DispatchParams,
    answers: DispatchAnswers,
    now: Instant,
)
    requires
        answers.counted matches Ok(n) ==> 0 <= n <= usize::MAX,
    ensures
        admissible(config, params, answers, now) <==> {
            &&& exists|k: int|
                0 <= k < config.agents@.len() && (#[trigger] config.agents@[k]).alias@ == params.to@
            &&& !(answers.counted is Ok && config.max_queued_executions is Some
                && answers.counted->Ok_0 >= config.max_queued_executions->0)
            &&& params.scheduled_for matches Some(given) ==> (clock::time_of(given@) matches Ok(t)
                && (t.secs > now.secs || (t.secs == now.secs && t.nanos > now.nanos)))
        },
{
    lemma_agent_named(config.agents@, params.to@);
}

/// The state of a dispatch holds the thread, the time that was asked for once it
/// was checked, the status of a thread that had ended, and the message.
spec fn on_course(
    params: DispatchParams,
    answers: DispatchAnswers,
    now: Instant,
    thread_id: Seq<char>,
    state: DispatchingView,
    step: DispatchStepView,
) -> bool {
    let rank = dispatch_rank(step);
    &&& state.thread_id == thread_id
    &&& rank == 6 ==> state.eligible_at is None && state.previous_status is None
    &&& rank == 5 ==> state.previous_status is None
    &&& 1 <= rank <= 5 || step is Done ==> match params.scheduled_for {
        None => state.eligible_at is None,
        Some(given) => clock::time_of(given@) matches Ok(t) && t.later_than(now)
            && state.eligible_at == Some(t.secs),
    }
    &&& 1 <= rank <= 4 || step is Done ==> state.previous_status == if answers.thread matches Ok(
        Some(t),
    ) && has_ended(t) {
        Some(answers.thread->Ok_0->0.status@)
    } else {
        None
    }
    &&& step is CancelExecutions || step is Reopen ==> state.previous_status is Some
    &&& rank == 1 || step is Done ==> answers.inserted == Ok::<i64, String>(state.message_id)
    &&& step matches DispatchStepView::InsertMessage(m) ==> m.thread_id == thread_id && m.from
        == params.from@ && m.to == params.to@ && m.intent == params.intent@ && m.body
        == params.body@ && m.batch == text::opt_text(params.batch) && m.summary == text::opt_text(
        params.summary,
    ) && m.skip_handoff == (params.skip_handoff == Some(true))
    &&& step matches DispatchStepView::InsertExecution(e) ==> e.thread_id == thread_id && e.agent
        == params.to@ && answers.inserted == Ok::<i64, String>(e.message_id) && Some(e.eligible_at)
        == state.eligible_at && e.eligible_reason == "scheduled"@
    &&& step matches DispatchStepView::Done(r) ==> r.thread_id == thread_id && r.message_id
        == state.message_id && r.scheduled_for == text::opt_text(params.scheduled_for)
        && r.execution_id == (if params.scheduled_for is Some {
        text::opt_text(answers.scheduled->Ok_0)
    } else {
        None
    }) && (params.scheduled_for is Some ==> answers.scheduled is Ok) && r.previous_status
        == state.previous_status && r.reopened == (state.previous_status is Some)
}

/// Every step of a dispatch is on course, and so is the one before it.
proof fn lemma_on_course(
    config: DispatchConfig,
    params: DispatchParams,
    answers: DispatchAnswers,
    now: Instant,
    thread_id: Seq<char>,
    state: DispatchingView,
    step: DispatchStepView,
    i: int,
) -> (s: DispatchingView)
    requires
        on_course(params, answers, now, thread_id, state, step),
        0 <= i < dispatch_trail(config, params, answers, now, state, step).len(),
    ensures
        ({
            let steps = dispatch_trail(config, params, answers, now, state, step);
            &&& steps[0] == step
            &&& on_course(params, answers, now, thread_id, s, steps[i])
            &&& dispatch_rank(steps[i]) == 0 ==> i == steps.len() - 1
            &&& i > 0 && steps[i] is InsertExecution ==> steps[i - 1] is InsertMessage
            &&& i > 0 && steps[i] is Reopen ==> steps[i - 1] is CancelExecutions
        }),
    decreases dispatch_rank(step),
{
    let steps = dispatch_trail(config, params, answers, now, state, step);
    if dispatch_rank(step) > 0 {
        let (next, following) = dispatch_next(config, params, state, answers.to(step), now);
        let rest = dispatch_trail(config, params, answers, now, next, following);
        assert(steps == seq![step] + rest);
        if i == 0 {
            state
        } else {
            assert(on_course(params, answers, now, thread_id, next, following));
            let s = lemma_on_course(
                config,
                params,
                answers,
                now,
                thread_id,
                next,
                following,
                i - 1,
            );
            assert(steps[i] == rest[i - 1]);
            if i > 1 {
                assert(steps[i - 1] == rest[i - 2]);
            } else {
                assert(steps[0] == step);
            }
            s
        }
    } else {
        state
    }
}

/// Whatever is answered, a dispatch sends what was asked for: its message goes
/// from the sender to the receiver with the intent, body, batch and summary of
/// the parameters. An execution is created only for a time that was given and
/// lies ahead, right after the message and for the agent that the message is
/// sent to. The result names the thread, the message and the execution that the
/// store told, and a thread was reopened if and only if its status was
/// completed, failed or abandoned.
pub proof fn law_dispatch_sends_what_was_asked(
    config: DispatchConfig,
    params: DispatchParams,
    answers: DispatchAnswers,
    now: Instant,
    thread_id: Seq<char>,
    i: int,
)
    requires
        0 <= i < dispatch_steps(config, params, answers, now, thread_id).len(),
    ensures
        ({
            let steps = dispatch_steps(config, params, answers, now, thread_id);
            let ended = answers.thread is Ok && answers.thread->Ok_0 is Some && ({
                let status = answers.thread->Ok_0->0.status@;
                status == "Completed"@ || status == "Failed"@ || status == "Abandoned"@
            });
            &&& steps[i] matches DispatchStepView::InsertMessage(m) ==> {
                &&& m.thread_id == thread_id
                &&& m.from == params.from@
                &&& m.to == params.to@
                &&& m.intent == params.intent@
                &&& m.body == params.body@
                &&& m.batch == text::opt_text(params.batch)
                &&& m.summary == text::opt_text(params.summary)
                &&& m.skip_handoff <==> params.skip_handoff == Some(true)
            }
            &&& steps[i] matches DispatchStepView::InsertExecution(e) ==> {
                &&& i > 0
                &&& steps[i - 1] matches DispatchStepView::InsertMessage(m)
                &&& e.agent == params.to@ && e.agent == m.to
                &&& exists|k: int|
                    0 <= k < config.agents@.len() && (#[trigger] config.agents@[k]).alias@
                        == e.agent
                &&& e.thread_id == thread_id && e.thread_id == m.thread_id
                &&& answers.inserted == Ok::<i64, String>(e.message_id)
                &&& e.eligible_reason == "scheduled"@
                &&& params.scheduled_for matches Some(given)
                &&& clock::time_of(given@) matches Ok(t)
                &&& e.eligible_at == t.secs
                &&& t.secs > now.secs || (t.secs == now.secs && t.nanos > now.nanos)
            }
            &&& steps[i] is Reopen ==> ended && i > 0 && steps[i - 1] is CancelExecutions
            &&& steps[i] is CancelExecutions ==> ended
            &&& steps[i] matches DispatchStepView::Done(r) ==> {
                &&& i == steps.len() - 1
                &&& r.thread_id == thread_id
                &&& answers.inserted == Ok::<i64, String>(r.message_id)
                &&& r.scheduled_for == text::opt_text(params.scheduled_for)
                &&& params.scheduled_for is None ==> r.execution_id is None
                &&& params.scheduled_for is Some ==> answers.scheduled is Ok && r.execution_id
                    == text::opt_text(answers.scheduled->Ok_0)
                &&& r.reopened <==> ended
                &&& r.previous_status == if ended {
                    Some(answers.thread->Ok_0->0.status@)
                } else {
                    None
                }
            }
        }),
{
    let start = DispatchingView {
        thread_id,
        eligible_at: None,
        previous_status: None,
        message_id: 0,
    };
    let steps = dispatch_steps(config, params, answers, now, thread_id);
    let (next, step) = dispatch_next(config, params, start, DispatchReply::Begin, now);
    lemma_agent_named(config.agents@, params.to@);
    if answers.thread is Ok && answers.thread->Ok_0 is Some {
        lemma_ended(answers.thread->Ok_0->0);
    }
    let s = lemma_on_course(config, params, answers, now, thread_id, next, step, i);
    if i > 0 {
        let before = lemma_on_course(
            config,
            params,
            answers,
            now,
            thread_id,
            next,
            step,
            i - 1,
        );
    }
}

// ── What a refusal says ──────────────────────────────────────────────────────

/// Why a dispatch is refused: an agent that is not configured is named with those
/// that are, a full queue with what it holds and may hold, a time with what is
/// wrong with it.
pub proof fn law_refusals_say_why(
    agents: Seq<AgentConfig>,
    a: AgentConfig,
    to: Seq<char>,
    current: i64,
    max: usize,
    given: Seq<char>,
    why: Seq<char>,
    t: Instant,
    now: Instant,
)
    requires
        0 <= current <= usize::MAX,
    ensures
        unknown_agent_text(seq![a], to) == "unknown agent alias: '"@ + to + "'. available: "@
            + a.alias@,
        agents.len() > 0 ==> unknown_agent_text(agents.push(a), to) == unknown_agent_text(
            agents,
            to,
        ) + ", "@ + a.alias@,
        current >= max ==> queue_refusal(Ok(current), Some(max)) == Some(
            "Queue depth limit reached: "@ + text::dec_int(current as int) + "/"@ + text::dec(
                max as nat,
            )
                + " executions are in-flight (queued + active). Wait for running tasks to complete, or abandon stale threads with orch_abandon before dispatching new work. Check current load with orch_metrics."@,
        ),
        current < max ==> queue_refusal(Ok(current), Some(max)) is None,
        queue_refusal(Ok(current), None) is None,
        scheduled_time(given, Err(why), now) == Err::<Instant, Seq<char>>(
            "invalid scheduled_for timestamp '"@ + given + "': "@ + why
                + ". Expected ISO 8601 format (e.g. '2026-03-21T20:00:00Z')."@,
        ),
        t.later_than(now) ==> scheduled_time(given, Ok(t), now) == Ok::<Instant, Seq<char>>(t),
        !t.later_than(now) ==> scheduled_time(given, Ok(t), now) == Err::<Instant, Seq<char>>(
            "scheduled_for must be in the future. Got '"@ + clock::iso(t)
                + "' but current time is '"@ + clock::iso(now) + "'."@,
        ),
{
    assert(aliases_of(seq![a]) =~= seq![a.alias@]);
    assert(aliases_of(agents.push(a)) =~= aliases_of(agents).push(a.alias@));
    text::law_joined_one_more(aliases_of(agents), a.alias@, ", "@);
    if agents.len() > 0 {
        assert(unknown_agent_text(agents.push(a), to) =~= unknown_agent_text(agents, to) + ", "@
            + a.alias@);
    }
}

/// A dispatch that the store refuses says at which step: while the thread was
/// reopened, the message inserted or the execution created.
pub proof fn law_store_errors_say_where(
    config: DispatchConfig,
    params: DispatchParams,
    state: DispatchingView,
    e: String,
    now: Instant,
)
    ensures
        ({
            let (_, step) = dispatch_next(
                config,
                params,
                state,
                DispatchReply::Reopened(Err(e)),
                now,
            );
            step == DispatchStepView::Refused("failed to reopen thread: "@ + e@)
        }),
        ({
            let (_, step) = dispatch_next(
                config,
                params,
                state,
                DispatchReply::Inserted(Err(e)),
                now,
            );
            step == DispatchStepView::Refused("failed to insert message: "@ + e@)
        }),
        ({
            let (_, step) = dispatch_next(
                config,
                params,
                state,
                DispatchReply::Scheduled(Err(e)),
                now,
            );
            step == DispatchStepView::Refused("failed to create scheduled execution: "@ + e@)
        }),
{
}

/// How to wait for what was dispatched: for the response on its thread from its
/// message on, and for the whole chain where the agent hands on.
pub proof fn law_how_to_wait(a: AgentConfig, thread: Seq<char>, message: i64, to: Seq<char>)
    ensures
        next_step_text(None, thread, message, to) == "Use orch_wait with thread_id=\""@ + thread
            + "\", since_reference=\""@ + store::reference_text(message)
            + "\" to wait for the response."@,
        session::downstream(a) is None ==> next_step_text(Some(a), thread, message, to)
            == next_step_text(None, thread, message, to),
        session::downstream(a) matches Some(target) ==> next_step_text(
            Some(a),
            thread,
            message,
            to,
        ) == "Use orch_wait with thread_id=\""@ + thread + "\", since_reference=\""@
            + store::reference_text(message)
            + "\", and await_chain=true to wait for the full chain to settle. \""@ + to
            + "\" auto-handoffs to "@ + targets_text(target) + " (chain depth limit: "@
            + text::dec(session::chain_depth(a) as nat) + ")."@,
{
}

} // verus!
