//! The session and the agents.
use crate::text::{opt_copy, str_eq};
use crate::text;
use vstd::prelude::*;

verus! {

/// Whom a response is handed on to.
#[derive(Clone, Debug)]
pub enum HandoffTarget {
    Single(String),
    FanOut(Vec<String>),
}

/// What is done with the responses of an agent.
#[derive(Clone, Debug)]
pub struct HandoffConfig {
    pub on_response: Option<HandoffTarget>,
    pub max_chain_depth: Option<u32>,
}

/// An agent as it is configured.
#[derive(Clone, Debug)]
pub struct AgentConfig {
    pub alias: String,
    pub backend: String,
    /// The role in lower case.
    pub role: String,
    pub model: Option<String>,
    pub timeout_secs: Option<u64>,
    pub handoff: Option<HandoffConfig>,
}

/// Hand-offs that a chain may have where nothing else is configured.
pub const DEFAULT_CHAIN_DEPTH: u32 = 3;

// ── Hand-offs ────────────────────────────────────────────────────────────────

/// Whom responses are handed on to, for reports.
#[derive(Clone, Debug)]
pub enum HandoffToValue {
    Single(String),
    FanOut(Vec<String>),
}

/// The same, as plain values.
pub enum HandoffView {
    Single(Seq<char>),
    FanOut(Seq<Seq<char>>),
}

impl View for HandoffToValue {
    type V = HandoffView;

    open spec fn view(&self) -> HandoffView {
        match *self {
            HandoffToValue::Single(s) => HandoffView::Single(s@),
            HandoffToValue::FanOut(v) => HandoffView::FanOut(text::texts(v@)),
        }
    }
}

/// Whom an agent hands its responses on to. The operator is the end of a chain
/// and counts as no one.
pub open spec fn downstream(agent: AgentConfig) -> Option<HandoffView> {
    match agent.handoff {
        Some(h) => match h.on_response {
            Some(HandoffTarget::Single(t)) => if t@ == "operator"@ {
                None
            } else {
                Some(HandoffView::Single(t@))
            },
            Some(HandoffTarget::FanOut(v)) => Some(HandoffView::FanOut(text::texts(v@))),
            None => None,
        },
        None => None,
    }
}

/// How long a chain from an agent may be.
pub open spec fn chain_depth(agent: AgentConfig) -> u32 {
    match agent.handoff {
        Some(h) => match h.max_chain_depth {
            Some(d) => d,
            None => DEFAULT_CHAIN_DEPTH,
        },
        None => DEFAULT_CHAIN_DEPTH,
    }
}

/// The view of an optional target.
pub open spec fn handoff_view(h: Option<HandoffToValue>) -> Option<HandoffView> {
    match h {
        Some(v) => Some(v@),
        None => None,
    }
}

fn copy_all(v: &Vec<String>) -> (r: Vec<String>)
    ensures
        text::texts(r@) == text::texts(v@),
{
    let mut out: Vec<String> = Vec::new();
    let mut i: usize = 0;
    while i < v.len()
        invariant
            i <= v@.len(),
            out@.len() == i,
            forall|k: int| 0 <= k < i ==> (#[trigger] out@[k])@ == v@[k]@,
        decreases v@.len() - i,
    {
        out.push(v[i].clone());
        i += 1;
    }
    assert(text::texts(out@) =~= text::texts(v@));
    out
}

/// Whom an agent hands on to, whether to wait for the chain, and how long the
/// chain may be.
pub fn handoff_metadata(agent: &AgentConfig) -> (r: (Option<HandoffToValue>, bool, Option<u32>))
    ensures
        handoff_view(r.0) == downstream(*agent),
        r.1 == (downstream(*agent) is Some),
        r.2 == if downstream(*agent) is Some {
            Some(chain_depth(*agent))
        } else {
            None
        },
{
    let handoff: &HandoffConfig = match &agent.handoff {
        Some(h) => h,
        None => {
            return (None, false, None);
        },
    };
    let depth: u32 = match handoff.max_chain_depth {
        Some(d) => d,
        None => DEFAULT_CHAIN_DEPTH,
    };
    match &handoff.on_response {
        None => (None, false, None),
        Some(HandoffTarget::Single(t)) => {
            if str_eq(t.as_str(), "operator") {
                (None, false, None)
            } else {
                (Some(HandoffToValue::Single(t.clone())), true, Some(depth))
            }
        },
        Some(HandoffTarget::FanOut(v)) => {
            (Some(HandoffToValue::FanOut(copy_all(v))), true, Some(depth))
        },
    }
}

// ── Session ──────────────────────────────────────────────────────────────────

/// What the session tool answers.
#[derive(Clone, Debug)]
pub struct SessionInfo {
    pub server: String,
    pub version: String,
    pub agent_count: usize,
    pub db_path: String,
}

/// What the session tool answers.
pub fn session_info(version: &str, agents: &Vec<AgentConfig>, db_path: &str) -> (r: SessionInfo)
    ensures
        r.server@ == "compas"@,
        r.version@ == version@,
        r.agent_count == agents@.len(),
        r.db_path@ == db_path@,
{
    SessionInfo {
        server: "compas".to_owned(),
        version: version.to_owned(),
        agent_count: agents.len(),
        db_path: db_path.to_owned(),
    }
}

// ── Agents ───────────────────────────────────────────────────────────────────

/// The count under `alias`, or zero. Of several the last one counts.
pub open spec fn count_for(counts: Seq<(String, i64)>, alias: Seq<char>) -> i64
    decreases counts.len(),
{
    if counts.len() == 0 {
        0
    } else if counts.last().0@ == alias {
        counts.last().1
    } else {
        count_for(counts.drop_last(), alias)
    }
}

fn lookup_count(counts: &Vec<(String, i64)>, alias: &str) -> (r: i64)
    ensures
        r == count_for(counts@, alias@),
{
    let mut i: usize = counts.len();
    assert(counts@.take(i as int) =~= counts@);
    while i > 0
        invariant
            i <= counts@.len(),
            count_for(counts@, alias@) == count_for(counts@.take(i as int), alias@),
        decreases i,
    {
        assert(counts@.take(i as int).drop_last() =~= counts@.take(i - 1));
        if str_eq(counts[i - 1].0.as_str(), alias) {
            return counts[i - 1].1;
        }
        i -= 1;
    }
    0
}

/// An agent and its load.
#[derive(Clone, Debug)]
pub struct AgentInfo {
    pub alias: String,
    pub backend: String,
    pub role: String,
    pub model: Option<String>,
    pub timeout_secs: Option<u64>,
    pub max_concurrent: i64,
    pub active: i64,
    pub queued: i64,
    pub available: i64,
    pub handoff_to: Option<HandoffToValue>,
    pub await_chain_recommended: bool,
    pub max_chain_depth: Option<u32>,
}

/// What the agents tool answers.
#[derive(Clone, Debug)]
pub struct ListAgentsResponse {
    pub agents: Vec<AgentInfo>,
    pub global_max_concurrent: i64,
    pub global_active: i64,
    pub global_available: i64,
}

/// A difference, kept within 64 bits.
pub open spec fn room(max: i64, used: i64) -> i64 {
    if max - used > i64::MAX {
        i64::MAX
    } else if max - used < i64::MIN {
        i64::MIN
    } else {
        (max - used) as i64
    }
}

/// Whether `info` describes an agent under the given counts.
pub open spec fn describes(
    info: AgentInfo,
    a: AgentConfig,
    active: Seq<(String, i64)>,
    queued: Seq<(String, i64)>,
    max_per_agent: i64,
) -> bool {
    &&& info.alias == a.alias
    &&& info.backend == a.backend
    &&& info.role == a.role
    &&& info.model == a.model
    &&& info.timeout_secs == a.timeout_secs
    &&& info.max_concurrent == max_per_agent
    &&& info.active == count_for(active, a.alias@)
    &&& info.queued == count_for(queued, a.alias@)
    &&& info.available == room(max_per_agent, count_for(active, a.alias@))
    &&& handoff_view(info.handoff_to) == downstream(a)
    &&& info.await_chain_recommended == (downstream(a) is Some)
    &&& info.max_chain_depth == if downstream(a) is Some {
        Some(chain_depth(a))
    } else {
        None
    }
}

/// The running executions of all agents together.
pub open spec fn active_sum(agents: Seq<AgentConfig>, active: Seq<(String, i64)>) -> int
    decreases agents.len(),
{
    if agents.len() == 0 {
        0
    } else {
        active_sum(agents.drop_last(), active) + count_for(active, agents.last().alias@)
    }
}

/// A sum, kept within 64 bits.
pub open spec fn clamped(n: int) -> i64 {
    if n > i64::MAX {
        i64::MAX
    } else if n < i64::MIN {
        i64::MIN
    } else {
        n as i64
    }
}

fn minus(a: i64, b: i64) -> (r: i64)
    ensures
        r == room(a, b),
{
    let d: i128 = a as i128 - b as i128;
    if d > i64::MAX as i128 {
        i64::MAX
    } else if d < i64::MIN as i128 {
        i64::MIN
    } else {
        d as i64
    }
}

/// What the agents tool answers.
pub fn list_agents(
    agents: &Vec<AgentConfig>,
    active: &Vec<(String, i64)>,
    queued: &Vec<(String, i64)>,
    max_per_agent: i64,
    global_max: i64,
) -> (r: ListAgentsResponse)
    ensures
        r.agents@.len() == agents@.len(),
        forall|i: int|
            0 <= i < agents@.len() ==> describes(
                #[trigger] r.agents@[i],
                agents@[i],
                active@,
                queued@,
                max_per_agent,
            ),
        r.global_max_concurrent == global_max,
        r.global_active == clamped(active_sum(agents@, active@)),
        r.global_available == room(global_max, r.global_active),
{
    let mut out: Vec<AgentInfo> = Vec::new();
    let mut total: i128 = 0;
    let mut i: usize = 0;
    while i < agents.len()
        invariant
            i <= agents@.len(),
            out@.len() == i,
            forall|k: int|
                0 <= k < i ==> describes(
                    #[trigger] out@[k],
                    agents@[k],
                    active@,
                    queued@,
                    max_per_agent,
                ),
            total == active_sum(agents@.take(i as int), active@),
            i64::MIN * i <= total <= i64::MAX * i,
        decreases agents@.len() - i,
    {
        let a: &AgentConfig = &agents[i];
        let running: i64 = lookup_count(active, a.alias.as_str());
        let waiting: i64 = lookup_count(queued, a.alias.as_str());
        let (handoff_to, await_chain_recommended, max_chain_depth): (
            Option<HandoffToValue>,
            bool,
            Option<u32>,
        ) = handoff_metadata(a);
        assert(agents@.take(i + 1).drop_last() =~= agents@.take(i as int));
        total = total + running as i128;
        out.push(
            AgentInfo {
                alias: a.alias.clone(),
                backend: a.backend.clone(),
                role: a.role.clone(),
                model: opt_copy(&a.model),
                timeout_secs: a.timeout_secs,
                max_concurrent: max_per_agent,
                active: running,
                queued: waiting,
                available: minus(max_per_agent, running),
                handoff_to,
                await_chain_recommended,
                max_chain_depth,
            },
        );
        i += 1;
    }
    assert(agents@.take(i as int) =~= agents@);
    let global_active: i64 = if total > i64::MAX as i128 {
        i64::MAX
    } else if total < i64::MIN as i128 {
        i64::MIN
    } else {
        total as i64
    };
    ListAgentsResponse {
        agents: out,
        global_max_concurrent: global_max,
        global_active,
        global_available: minus(global_max, global_active),
    }
}

// ── Laws ─────────────────────────────────────────────────────────────────────

/// An agent hands on to the agent or the agents that its configuration names for a
/// response, and to no one where it names none or the operator. A chain is three
/// hand-offs long where nothing else is configured.
pub proof fn law_whom_an_agent_hands_on_to(agent: AgentConfig, h: HandoffConfig)
    requires
        agent.handoff == Some(h),
    ensures
        h.on_response is None ==> downstream(agent) is None,
        h.on_response matches Some(HandoffTarget::Single(t)) ==> if t@ == "operator"@ {
            downstream(agent) is None
        } else {
            downstream(agent) == Some(HandoffView::Single(t@))
        },
        h.on_response matches Some(HandoffTarget::FanOut(v)) ==> downstream(agent) == Some(
            HandoffView::FanOut(text::texts(v@)),
        ),
        h.max_chain_depth matches Some(d) ==> chain_depth(agent) == d,
        h.max_chain_depth is None ==> chain_depth(agent) == 3,
{
}

/// The count of an agent is that of the last entry under its name, or zero.
pub proof fn law_count_is_the_last_of_the_agent(counts: Seq<(String, i64)>, alias: Seq<char>)
    ensures
        (forall|j: int| 0 <= j < counts.len() ==> (#[trigger] counts[j]).0@ != alias) ==> count_for(
            counts,
            alias,
        ) == 0,
        forall|k: int|
            #![trigger counts[k]]
            0 <= k < counts.len() && counts[k].0@ == alias && (forall|j: int|
                k < j < counts.len() ==> (#[trigger] counts[j]).0@ != alias) ==> count_for(
                counts,
                alias,
            ) == counts[k].1,
    decreases counts.len(),
{
    if counts.len() > 0 {
        let rest = counts.drop_last();
        law_count_is_the_last_of_the_agent(rest, alias);
        assert(counts[counts.len() - 1] == counts.last());
        if forall|j: int| 0 <= j < counts.len() ==> (#[trigger] counts[j]).0@ != alias {
            assert forall|j: int| 0 <= j < rest.len() implies (#[trigger] rest[j]).0@ != alias by {
                assert(rest[j] == counts[j]);
            }
        }
        assert forall|k: int|
            #![trigger counts[k]]
            0 <= k < counts.len() && counts[k].0@ == alias && (forall|j: int|
                k < j < counts.len() ==> (#[trigger] counts[j]).0@ != alias) implies count_for(
            counts,
            alias,
        ) == counts[k].1 by {
            if k < rest.len() {
                assert(rest[k] == counts[k]);
                assert forall|j: int| k < j < rest.len() implies (#[trigger] rest[j]).0@ != alias by {
                    assert(rest[j] == counts[j]);
                }
            }
        }
    }
}

/// What is told of an agent: its configuration, how many executions run and wait
/// for it, and how many more may run.
pub proof fn law_agent_info(
    info: AgentInfo,
    a: AgentConfig,
    active: Seq<(String, i64)>,
    queued: Seq<(String, i64)>,
    max_per_agent: i64,
)
    requires
        describes(info, a, active, queued, max_per_agent),
    ensures
        info.alias == a.alias && info.backend == a.backend && info.role == a.role,
        info.model == a.model && info.timeout_secs == a.timeout_secs,
        info.max_concurrent == max_per_agent,
        info.active == count_for(active, a.alias@),
        info.queued == count_for(queued, a.alias@),
        i64::MIN <= max_per_agent - info.active <= i64::MAX ==> info.available == max_per_agent
            - info.active,
        handoff_view(info.handoff_to) == downstream(a),
        info.await_chain_recommended <==> info.handoff_to is Some,
        info.max_chain_depth is Some <==> info.handoff_to is Some,
        info.max_chain_depth matches Some(d) ==> d == chain_depth(a),
{
}

/// The running executions of all agents are the sum over the agents.
pub proof fn law_active_sum(agents: Seq<AgentConfig>, a: AgentConfig, active: Seq<(String, i64)>)
    ensures
        active_sum(agents.push(a), active) == active_sum(agents, active) + count_for(
            active,
            a.alias@,
        ),
        active_sum(Seq::empty(), active) == 0,
        forall|n: int| i64::MIN <= n <= i64::MAX ==> #[trigger] clamped(n) == n,
        forall|m: i64, u: i64|
            i64::MIN <= m - u <= i64::MAX ==> #[trigger] room(m, u) == m - u,
{
    assert(agents.push(a).drop_last() =~= agents);
    assert(agents.push(a).last() == a);
}

} // verus!
