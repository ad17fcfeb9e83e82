//! Which hooks an event fires, and what they are told.
use crate::events::OrchestratorEvent;
use crate::text::{cat3, str_eq, u64_text};
use crate::text;
use serde_json::{Map as JsonMap, Value};
use vstd::prelude::*;

verus! {

/// A command that is run on an event.
#[derive(Clone, Debug)]
pub struct HookEntry {
    pub command: String,
    pub args: Option<Vec<String>>,
    pub timeout_secs: u64,
    pub env: Option<Vec<(String, String)>>,
}

/// The hooks of each kind of event.
#[derive(Clone, Debug)]
pub struct HooksConfig {
    pub on_execution_started: Vec<HookEntry>,
    pub on_execution_completed: Vec<HookEntry>,
    pub on_thread_closed: Vec<HookEntry>,
    pub on_thread_failed: Vec<HookEntry>,
}

/// A kind of event that hooks can be set for.
#[derive(Clone, Copy, Debug, PartialEq, Eq, Structural)]
pub enum HookGroup {
    ExecutionStarted,
    ExecutionCompleted,
    ThreadClosed,
    ThreadFailed,
}

/// The kind of an event: starts and ends of executions, and threads that became
/// completed or failed. Nothing else fires hooks.
pub open spec fn group_of(event: OrchestratorEvent) -> Option<HookGroup> {
    match event {
        OrchestratorEvent::ExecutionStarted { .. } => Some(HookGroup::ExecutionStarted),
        OrchestratorEvent::ExecutionCompleted { .. } => Some(HookGroup::ExecutionCompleted),
        OrchestratorEvent::ThreadStatusChanged { new_status, .. } => if new_status@
            == "Completed"@ {
            Some(HookGroup::ThreadClosed)
        } else if new_status@ == "Failed"@ {
            Some(HookGroup::ThreadFailed)
        } else {
            None
        },
        _ => None,
    }
}

/// The kind of an event.
pub fn hook_group(event: &OrchestratorEvent) -> (r: Option<HookGroup>)
    ensures
        r == group_of(*event),
{
    match event {
        OrchestratorEvent::ExecutionStarted { .. } => Some(HookGroup::ExecutionStarted),
        OrchestratorEvent::ExecutionCompleted { .. } => Some(HookGroup::ExecutionCompleted),
        OrchestratorEvent::ThreadStatusChanged { new_status, .. } => {
            if str_eq(new_status.as_str(), "Completed") {
                Some(HookGroup::ThreadClosed)
            } else if str_eq(new_status.as_str(), "Failed") {
                Some(HookGroup::ThreadFailed)
            } else {
                None
            }
        },
        _ => None,
    }
}

impl HooksConfig {
    /// The hooks of a kind of event.
    pub open spec fn of(self, group: HookGroup) -> Seq<HookEntry> {
        match group {
            HookGroup::ExecutionStarted => self.on_execution_started@,
            HookGroup::ExecutionCompleted => self.on_execution_completed@,
            HookGroup::ThreadClosed => self.on_thread_closed@,
            HookGroup::ThreadFailed => self.on_thread_failed@,
        }
    }

    /// The hooks that an event fires, in the order in which they are declared.
    pub fn hooks_for(&self, event: &OrchestratorEvent) -> (r: Option<&Vec<HookEntry>>)
        ensures
            match r {
                Some(v) => group_of(*event) matches Some(g) && v@ == self.of(g),
                None => group_of(*event) is None,
            },
    {
        match hook_group(event) {
            None => None,
            Some(HookGroup::ExecutionStarted) => Some(&self.on_execution_started),
            Some(HookGroup::ExecutionCompleted) => Some(&self.on_execution_completed),
            Some(HookGroup::ThreadClosed) => Some(&self.on_thread_closed),
            Some(HookGroup::ThreadFailed) => Some(&self.on_thread_failed),
        }
    }
}

// ── Payload ──────────────────────────────────────────────────────────────────

/// A value of the payload.
#[derive(Clone, Debug)]
pub enum HookValue {
    Text(String),
    Flag(bool),
    Integer(i64),
}

/// The same, as a plain value.
pub enum HookValueView {
    Text(Seq<char>),
    Flag(bool),
    Integer(i64),
}

impl View for HookValue {
    type V = HookValueView;

    open spec fn view(&self) -> HookValueView {
        match *self {
            HookValue::Text(s) => HookValueView::Text(s@),
            HookValue::Flag(b) => HookValueView::Flag(b),
            HookValue::Integer(n) => HookValueView::Integer(n),
        }
    }
}

/// A field of the payload.
#[derive(Clone, Debug)]
pub struct HookField {
    pub key: String,
    pub value: HookValue,
}

/// The fields as plain values.
pub open spec fn fields_view(fields: Seq<HookField>) -> Seq<(Seq<char>, HookValueView)> {
    fields.map_values(|f: HookField| (f.key@, f.value@))
}

/// The payload of an event: what happened, to what, and when. An event that
/// fires no hooks has none.
pub open spec fn payload_of(event: OrchestratorEvent, timestamp: Seq<char>) -> Seq<
    (Seq<char>, HookValueView),
> {
    match event {
        OrchestratorEvent::ExecutionStarted { execution_id, thread_id, agent_alias } => seq![
            ("event"@, HookValueView::Text("execution_started"@)),
            ("thread_id"@, HookValueView::Text(thread_id@)),
            ("execution_id"@, HookValueView::Text(execution_id@)),
            ("agent_alias"@, HookValueView::Text(agent_alias@)),
            ("timestamp"@, HookValueView::Text(timestamp)),
        ],
        OrchestratorEvent::ExecutionCompleted {
            execution_id,
            thread_id,
            agent_alias,
            success,
            duration_ms,
        } => seq![
            ("event"@, HookValueView::Text("execution_completed"@)),
            ("thread_id"@, HookValueView::Text(thread_id@)),
            ("execution_id"@, HookValueView::Text(execution_id@)),
            ("agent_alias"@, HookValueView::Text(agent_alias@)),
            ("success"@, HookValueView::Flag(success)),
            ("duration_ms"@, HookValueView::Integer(duration_ms)),
            ("timestamp"@, HookValueView::Text(timestamp)),
        ],
        OrchestratorEvent::ThreadStatusChanged { thread_id, new_status } => if new_status@
            == "Completed"@ || new_status@ == "Failed"@ {
            seq![
                (
                    "event"@,
                    HookValueView::Text(
                        if new_status@ == "Completed"@ {
                            "thread_closed"@
                        } else {
                            "thread_failed"@
                        },
                    ),
                ),
                ("thread_id"@, HookValueView::Text(thread_id@)),
                ("new_status"@, HookValueView::Text(new_status@)),
                ("timestamp"@, HookValueView::Text(timestamp)),
            ]
        } else {
            seq![]
        },
        _ => seq![],
    }
}

fn put(fields: &mut Vec<HookField>, key: &str, value: HookValue)
    ensures
        fields_view(final(fields)@) == fields_view(old(fields)@).push((key@, value@)),
{
    let ghost before = fields_view(fields@);
    fields.push(HookField { key: key.to_owned(), value });
    assert(fields_view(fields@) =~= before.push((key@, value@)));
}

fn put_text(fields: &mut Vec<HookField>, key: &str, text: &str)
    ensures
        fields_view(final(fields)@) == fields_view(old(fields)@).push(
            (key@, HookValueView::Text(text@)),
        ),
{
    put(fields, key, HookValue::Text(text.to_owned()));
}

/// The fields of an event's payload.
pub fn hook_fields(event: &OrchestratorEvent, timestamp: &str) -> (r: Vec<HookField>)
    ensures
        fields_view(r@) == payload_of(*event, timestamp@),
{
    let mut fields: Vec<HookField> = Vec::new();
    match event {
        OrchestratorEvent::ExecutionStarted { execution_id, thread_id, agent_alias } => {
            put_text(&mut fields, "event", "execution_started");
            put_text(&mut fields, "thread_id", thread_id.as_str());
            put_text(&mut fields, "execution_id", execution_id.as_str());
            put_text(&mut fields, "agent_alias", agent_alias.as_str());
            put_text(&mut fields, "timestamp", timestamp);
        },
        OrchestratorEvent::ExecutionCompleted {
            execution_id,
            thread_id,
            agent_alias,
            success,
            duration_ms,
        } => {
            put_text(&mut fields, "event", "execution_completed");
            put_text(&mut fields, "thread_id", thread_id.as_str());
            put_text(&mut fields, "execution_id", execution_id.as_str());
            put_text(&mut fields, "agent_alias", agent_alias.as_str());
            put(&mut fields, "success", HookValue::Flag(*success));
            put(&mut fields, "duration_ms", HookValue::Integer(*duration_ms));
            put_text(&mut fields, "timestamp", timestamp);
        },
        OrchestratorEvent::ThreadStatusChanged { thread_id, new_status } => {
            let closed: bool = str_eq(new_status.as_str(), "Completed");
            if closed || str_eq(new_status.as_str(), "Failed") {
                let name: &str = if closed {
                    "thread_closed"
                } else {
                    "thread_failed"
                };
                put_text(&mut fields, "event", name);
                put_text(&mut fields, "thread_id", thread_id.as_str());
                put_text(&mut fields, "new_status", new_status.as_str());
                put_text(&mut fields, "timestamp", timestamp);
            }
        },
        _ => {},
    }
    assert(fields_view(fields@) =~= payload_of(*event, timestamp@));
    fields
}

/// What `serde_json::to_string` writes for an object of these fields.
pub uninterp spec fn json_object_text(fields: Seq<(Seq<char>, HookValueView)>) -> Option<Seq<char>>;

/// `serde_json::to_string` of an object with the given fields: what it writes
/// depends on the fields alone.
#[verifier::external_body]
fn object_text(fields: &Vec<HookField>) -> (r: Option<String>)
    ensures
        text::opt_text(r) == json_object_text(fields_view(fields@)),
{
    let mut map: JsonMap<String, Value> = JsonMap::new();
    for f in fields {
        let value = match &f.value {
            HookValue::Text(s) => Value::String(s.clone()),
            HookValue::Flag(b) => Value::Bool(*b),
            HookValue::Integer(n) => Value::from(*n),
        };
        map.insert(f.key.clone(), value);
    }
    serde_json::to_string(&Value::Object(map)).ok()
}

/// What the hooks of an event read: its payload, or an empty object where it
/// could not be written.
pub open spec fn event_text(event: OrchestratorEvent, timestamp: Seq<char>) -> Seq<char> {
    match json_object_text(payload_of(event, timestamp)) {
        Some(t) => t,
        None => "{}"@,
    }
}

/// The text, or an empty object.
pub fn or_empty_object(text: Option<String>) -> (r: String)
    ensures
        r@ == match text {
            Some(t) => t@,
            None => "{}"@,
        },
{
    match text {
        Some(t) => t,
        None => "{}".to_owned(),
    }
}

/// What the hooks of an event read.
pub fn event_json(event: &OrchestratorEvent, timestamp: &str) -> (r: String)
    ensures
        r@ == event_text(*event, timestamp@),
{
    or_empty_object(object_text(&hook_fields(event, timestamp)))
}

// ── Running ──────────────────────────────────────────────────────────────────

/// What a look at a running hook gave.
#[derive(Clone, Debug)]
pub enum HookPoll {
    Exited,
    Running,
    WaitFailed(String),
}

/// What to do with a running hook.
#[derive(Clone, Debug)]
pub enum HookStep {
    /// Look again in a moment.
    Wait,
    /// End the process, then report the error.
    Kill(String),
    Done,
    Failed(String),
}

/// What a step says.
pub enum HookStepView {
    Wait,
    Kill(Seq<char>),
    Done,
    Failed(Seq<char>),
}

impl View for HookStep {
    type V = HookStepView;

    open spec fn view(&self) -> HookStepView {
        match *self {
            HookStep::Wait => HookStepView::Wait,
            HookStep::Kill(m) => HookStepView::Kill(m@),
            HookStep::Done => HookStepView::Done,
            HookStep::Failed(m) => HookStepView::Failed(m@),
        }
    }
}

/// Milliseconds between two looks at a running hook.
pub const HOOK_POLL_MS: u64 = 100;

/// What follows a look at a hook that has been running for `elapsed_ms`: it is
/// ended once its timeout has passed.
pub open spec fn hook_next(hook: HookEntry, poll: HookPoll, elapsed_ms: u64) -> HookStepView {
    match poll {
        HookPoll::Exited => HookStepView::Done,
        HookPoll::Running => if elapsed_ms >= hook.timeout_secs * 1000 {
            HookStepView::Kill(
                "hook '"@ + hook.command@ + "' timed out after "@ + text::dec(hook.timeout_secs as nat)
                    + "s"@,
            )
        } else {
            HookStepView::Wait
        },
        HookPoll::WaitFailed(e) => HookStepView::Failed(
            "error waiting for hook '"@ + hook.command@ + "': "@ + e@,
        ),
    }
}

/// The hook that runs next, once `ended` of them have ended.
pub open spec fn next_hook(hooks: Seq<HookEntry>, ended: nat) -> Option<HookEntry> {
    if ended < hooks.len() {
        Some(hooks[ended as int])
    } else {
        None
    }
}

/// The hooks that run from now on, once `ended` of them have ended.
pub open spec fn hooks_from(hooks: Seq<HookEntry>, ended: nat) -> Seq<HookEntry>
    decreases hooks.len() - ended,
{
    match next_hook(hooks, ended) {
        Some(h) => seq![h] + hooks_from(hooks, ended + 1),
        None => seq![],
    }
}

/// Every hook runs, once and in order, however the ones before it ended.
pub proof fn law_every_hook_runs(hooks: Seq<HookEntry>, ended: nat)
    requires
        ended <= hooks.len(),
    ensures
        hooks_from(hooks, ended) == hooks.skip(ended as int),
    decreases hooks.len() - ended,
{
    if ended < hooks.len() {
        law_every_hook_runs(hooks, ended + 1);
        assert(seq![hooks[ended as int]] + hooks.skip(ended as int + 1) =~= hooks.skip(ended as int));
    } else {
        assert(hooks.skip(ended as int) =~= seq![]);
    }
}

/// A hook is ended if and only if it still runs when its timeout has passed.
pub proof fn law_hook_ends_at_its_timeout(hook: HookEntry, poll: HookPoll, elapsed_ms: u64)
    ensures
        hook_next(hook, poll, elapsed_ms) is Kill <==> poll is Running && elapsed_ms
            >= hook.timeout_secs * 1000,
{
}

/// Runs hooks. Failures are reported and never passed on.
#[derive(Clone, Copy, Debug)]
pub struct HookRunner {}

impl HookRunner {
    /// What to do with a running hook.
    pub fn run_hook(hook_entry: &HookEntry, poll: HookPoll, elapsed_ms: u64) -> (r: HookStep)
        ensures
            r@ == hook_next(*hook_entry, poll, elapsed_ms),
    {
        match poll {
            HookPoll::Exited => HookStep::Done,
            HookPoll::Running => {
                if elapsed_ms / 1000 >= hook_entry.timeout_secs {
                    let mut s: String = cat3(
                        "hook '",
                        hook_entry.command.as_str(),
                        "' timed out after ",
                    );
                    s.append(u64_text(hook_entry.timeout_secs).as_str());
                    s.append("s");
                    HookStep::Kill(s)
                } else {
                    HookStep::Wait
                }
            },
            HookPoll::WaitFailed(e) => {
                let mut s: String = cat3(
                    "error waiting for hook '",
                    hook_entry.command.as_str(),
                    "': ",
                );
                s.append(e.as_str());
                HookStep::Failed(s)
            },
        }
    }

    /// The hook that runs next, once `ended` of them have ended. Whether they
    /// succeeded does not matter.
    pub fn run_hooks(hooks: &[HookEntry], ended: usize) -> (r: Option<&HookEntry>)
        ensures
            match r {
                Some(h) => next_hook(hooks@, ended as nat) == Some(*h),
                None => next_hook(hooks@, ended as nat) is None,
            },
    {
        if ended < hooks.len() {
            Some(&hooks[ended])
        } else {
            None
        }
    }

    /// Why a hook could not be started.
    pub fn spawn_failed(hook_entry: &HookEntry, error: &str) -> (r: String)
        ensures
            r@ == "failed to spawn hook '"@ + hook_entry.command@ + "': "@ + error@,
    {
        let mut s: String = cat3("failed to spawn hook '", hook_entry.command.as_str(), "': ");
        s.append(error);
        s
    }
}

// ── Laws ─────────────────────────────────────────────────────────────────────

/// Which hooks an event fires: those of a start, of an end, of a completed and of
/// a failed thread, each for its own event; no other event fires any.
pub proof fn law_hooks_of_an_event(config: HooksConfig, event: OrchestratorEvent)
    ensures
        event is ExecutionStarted ==> group_of(event) is Some && config.of(group_of(event)->0)
            == config.on_execution_started@,
        event is ExecutionCompleted ==> group_of(event) is Some && config.of(group_of(event)->0)
            == config.on_execution_completed@,
        event matches OrchestratorEvent::ThreadStatusChanged { new_status, .. } ==> (new_status@
            == "Completed"@ ==> group_of(event) is Some && config.of(group_of(event)->0)
            == config.on_thread_closed@),
        event matches OrchestratorEvent::ThreadStatusChanged { new_status, .. } ==> (new_status@
            == "Failed"@ ==> group_of(event) is Some && config.of(group_of(event)->0)
            == config.on_thread_failed@),
        event matches OrchestratorEvent::ThreadStatusChanged { new_status, .. } ==> (new_status@
            != "Completed"@ && new_status@ != "Failed"@ ==> group_of(event) is None),
        !(event is ExecutionStarted) && !(event is ExecutionCompleted)
            && !(event is ThreadStatusChanged) ==> group_of(event) is None,
        payload_of(event, Seq::empty()).len() > 0 <==> group_of(event) is Some,
{
    reveal_strlit("Completed");
    reveal_strlit("Failed");
    assert("Completed"@.len() == 9 && "Failed"@.len() == 6);
}

/// What hooks are told of an event: its name first, the thread, the execution and
/// the agent it is about, whether an execution that ended succeeded and how long
/// it took, the new status of a thread, and the time last.
pub proof fn law_hooks_are_told_the_event(event: OrchestratorEvent, timestamp: Seq<char>)
    ensures
        ({
            let p = payload_of(event, timestamp);
            &&& p.len() > 0 ==> p.last() == ("timestamp"@, HookValueView::Text(timestamp))
            &&& event matches OrchestratorEvent::ExecutionStarted {
                execution_id,
                thread_id,
                agent_alias,
            } ==> {
                &&& p.len() == 5
                &&& p[0] == ("event"@, HookValueView::Text("execution_started"@))
                &&& p[1] == ("thread_id"@, HookValueView::Text(thread_id@))
                &&& p[2] == ("execution_id"@, HookValueView::Text(execution_id@))
                &&& p[3] == ("agent_alias"@, HookValueView::Text(agent_alias@))
            }
            &&& event matches OrchestratorEvent::ExecutionCompleted {
                execution_id,
                thread_id,
                agent_alias,
                success,
                duration_ms,
            } ==> {
                &&& p.len() == 7
                &&& p[0] == ("event"@, HookValueView::Text("execution_completed"@))
                &&& p[1] == ("thread_id"@, HookValueView::Text(thread_id@))
                &&& p[2] == ("execution_id"@, HookValueView::Text(execution_id@))
                &&& p[3] == ("agent_alias"@, HookValueView::Text(agent_alias@))
                &&& p[4] == ("success"@, HookValueView::Flag(success))
                &&& p[5] == ("duration_ms"@, HookValueView::Integer(duration_ms))
            }
            &&& event matches OrchestratorEvent::ThreadStatusChanged { thread_id, new_status } ==> {
                &&& p.len() > 0 <==> new_status@ == "Completed"@ || new_status@ == "Failed"@
                &&& p.len() > 0 ==> p.len() == 4 && p[1] == (
                    "thread_id"@,
                    HookValueView::Text(thread_id@),
                ) && p[2] == ("new_status"@, HookValueView::Text(new_status@))
                &&& new_status@ == "Completed"@ ==> p[0] == (
                    "event"@,
                    HookValueView::Text("thread_closed"@),
                )
                &&& new_status@ == "Failed"@ ==> p[0] == (
                    "event"@,
                    HookValueView::Text("thread_failed"@),
                )
            }
        }),
{
    reveal_strlit("Completed");
    reveal_strlit("Failed");
    assert("Completed"@.len() == 9 && "Failed"@.len() == 6);
}

/// A hook that has ended is done with, one that could not be waited for is told as
/// failed, and one that runs is waited for until its timeout, with its command
/// named in what is told.
pub proof fn law_hook_outcomes(hook: HookEntry, poll: HookPoll, elapsed_ms: u64)
    ensures
        poll is Exited ==> hook_next(hook, poll, elapsed_ms) is Done,
        poll is Running && elapsed_ms < hook.timeout_secs * 1000 ==> hook_next(
            hook,
            poll,
            elapsed_ms,
        ) is Wait,
        poll is Running && elapsed_ms >= hook.timeout_secs * 1000 ==> hook_next(
            hook,
            poll,
            elapsed_ms,
        ) == HookStepView::Kill(
            "hook '"@ + hook.command@ + "' timed out after "@ + text::dec(hook.timeout_secs as nat)
                + "s"@,
        ),
        poll matches HookPoll::WaitFailed(e) ==> hook_next(hook, poll, elapsed_ms)
            == HookStepView::Failed("error waiting for hook '"@ + hook.command@ + "': "@ + e@),
{
}

} // verus!
