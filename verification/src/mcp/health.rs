//! Health of the agents, and what is wrong with a thread.
use crate::mcp::session::AgentConfig;
use crate::store::{ExecutionRow, ThreadRow, ThreadStatus};
use crate::text::{cat, cat3, opt_copy, str_eq, str_or};
use crate::text;
use vstd::prelude::*;

verus! {

// ── Ping cache ───────────────────────────────────────────────────────────────

/// What a ping of a backend gave.
#[derive(Clone, Debug)]
pub struct PingResult {
    pub alive: bool,
    pub latency_ms: u64,
    pub detail: Option<String>,
}

impl PingResult {
    /// A copy of the result.
    pub fn duplicate(&self) -> (r: PingResult)
        ensures
            r == *self,
    {
        PingResult {
            alive: self.alive,
            latency_ms: self.latency_ms,
            detail: opt_copy(&self.detail),
        }
    }

    /// The result for an agent whose backend is unknown.
    pub fn no_backend(error: &str) -> (r: PingResult)
        ensures
            !r.alive,
            r.latency_ms == 0,
            text::opt_text(r.detail) == Some("backend not found: "@ + error@),
    {
        PingResult {
            alive: false,
            latency_ms: 0,
            detail: Some(cat("backend not found: ", error)),
        }
    }
}

/// A result and when it was cached, in milliseconds.
#[derive(Clone, Debug)]
pub struct CachedPing {
    pub alias: String,
    pub result: PingResult,
    pub cached_at: u64,
}

/// The results of earlier pings, by agent.
#[derive(Clone, Debug)]
pub struct PingCache {
    pub entries: Vec<CachedPing>,
}

/// The latest entry of an agent.
pub open spec fn entry_of(e: Seq<CachedPing>, alias: Seq<char>) -> Option<(PingResult, u64)>
    decreases e.len(),
{
    if e.len() == 0 {
        None
    } else if e.last().alias@ == alias {
        Some((e.last().result, e.last().cached_at))
    } else {
        entry_of(e.drop_last(), alias)
    }
}

/// Whether something cached at `then` may still be used: it is younger than the
/// time to live.
pub open spec fn fresh(then: u64, ttl_ms: u64, now_ms: u64) -> bool {
    (if now_ms >= then {
        now_ms - then
    } else {
        0
    }) < ttl_ms
}

impl PingCache {
    /// What is cached of an agent, and since when.
    pub open spec fn cached(self, alias: Seq<char>) -> Option<(PingResult, u64)> {
        entry_of(self.entries@, alias)
    }

    /// What the cache gives out for an agent.
    pub open spec fn given(self, alias: Seq<char>, ttl_ms: u64, now_ms: u64) -> Option<PingResult> {
        match self.cached(alias) {
            Some((result, then)) => if fresh(then, ttl_ms, now_ms) {
                Some(result)
            } else {
                None
            },
            None => None,
        }
    }

    /// The empty cache.
    pub fn new() -> (r: PingCache)
        ensures
            forall|alias: Seq<char>| (#[trigger] r.cached(alias)) is None,
    {
        PingCache { entries: Vec::new() }
    }

    /// The cached result of an agent, if it is younger than the time to live.
    pub fn get(&self, alias: &str, ttl_ms: u64, now_ms: u64) -> (r: Option<PingResult>)
        ensures
            r == self.given(alias@, ttl_ms, now_ms),
    {
        let mut i: usize = self.entries.len();
        assert(self.entries@.take(i as int) =~= self.entries@);
        while i > 0
            invariant
                i <= self.entries@.len(),
                entry_of(self.entries@, alias@) == entry_of(self.entries@.take(i as int), alias@),
            decreases i,
        {
            let ghost t = self.entries@.take(i as int);
            assert(t.drop_last() =~= self.entries@.take(i - 1));
            assert(t.last() == self.entries@[i - 1]);
            let e: &CachedPing = &self.entries[i - 1];
            if str_eq(e.alias.as_str(), alias) {
                return if now_ms.saturating_sub(e.cached_at) < ttl_ms {
                    Some(e.result.duplicate())
                } else {
                    None
                };
            }
            i -= 1;
        }
        None
    }

    /// Caches a result. Nothing else changes.
    pub fn set(&mut self, alias: String, result: PingResult, now_ms: u64)
        ensures
            forall|other: Seq<char>| #[trigger]
                final(self).cached(other) == if other == alias@ {
                    Some((result, now_ms))
                } else {
                    old(self).cached(other)
                },
    {
        let mut kept: Vec<CachedPing> = Vec::new();
        let mut i: usize = 0;
        while i < self.entries.len()
            invariant
                i <= self.entries@.len(),
                forall|other: Seq<char>| #[trigger]
                    entry_of(kept@, other) == if other == alias@ {
                        None
                    } else {
                        entry_of(self.entries@.take(i as int), other)
                    },
            decreases self.entries@.len() - i,
        {
            let ghost prev = self.entries@.take(i as int);
            let ghost x = self.entries@[i as int];
            let ghost before = kept@;
            assert(self.entries@.take(i + 1) =~= prev.push(x));
            let e: &CachedPing = &self.entries[i];
            if !str_eq(e.alias.as_str(), alias.as_str()) {
                kept.push(
                    CachedPing {
                        alias: e.alias.clone(),
                        result: e.result.duplicate(),
                        cached_at: e.cached_at,
                    },
                );
            }
            proof {
                assert forall|other: Seq<char>| #[trigger]
                    entry_of(kept@, other) == if other == alias@ {
                        None
                    } else {
                        entry_of(prev.push(x), other)
                    } by {
                    lemma_entry_push(prev, x, other);
                    if kept@.len() > before.len() {
                        assert(kept@ =~= before.push(kept@.last()));
                        lemma_entry_push(before, kept@.last(), other);
                    }
                    assert(entry_of(before, other) == if other == alias@ {
                        None
                    } else {
                        entry_of(prev, other)
                    });
                }
            }
            i += 1;
        }
        assert(self.entries@.take(i as int) =~= self.entries@);
        let ghost rest = kept@;
        let x: CachedPing = CachedPing { alias, result, cached_at: now_ms };
        kept.push(x);
        proof {
            assert forall|other: Seq<char>| #[trigger]
                entry_of(kept@, other) == if other == x.alias@ {
                    Some((x.result, now_ms))
                } else {
                    entry_of(self.entries@, other)
                } by {
                lemma_entry_push(rest, x, other);
                assert(entry_of(rest, other) == if other == x.alias@ {
                    None
                } else {
                    entry_of(self.entries@, other)
                });
            }
        }
        self.entries = kept;
    }
}

proof fn lemma_entry_push(e: Seq<CachedPing>, x: CachedPing, alias: Seq<char>)
    ensures
        entry_of(e.push(x), alias) == if x.alias@ == alias {
            Some((x.result, x.cached_at))
        } else {
            entry_of(e, alias)
        },
{
    assert(e.push(x).drop_last() =~= e);
}

/// Whether `b` is the cache `a` after `result` was cached for `alias`.
pub open spec fn cached_into(
    a: PingCache,
    alias: Seq<char>,
    result: PingResult,
    now_ms: u64,
    b: PingCache,
) -> bool {
    forall|other: Seq<char>| #[trigger]
        b.cached(other) == if other == alias {
            Some((result, now_ms))
        } else {
            a.cached(other)
        }
}

/// The cache gives back what was put in last until its time to live has passed,
/// and then nothing; what it holds of other agents stays.
pub proof fn law_cache_reads_back(
    a: PingCache,
    alias: Seq<char>,
    result: PingResult,
    set_at: u64,
    b: PingCache,
    other: Seq<char>,
    ttl_ms: u64,
    now_ms: u64,
)
    requires
        cached_into(a, alias, result, set_at, b),
        set_at <= now_ms,
    ensures
        now_ms - set_at < ttl_ms ==> b.given(alias, ttl_ms, now_ms) == Some(result),
        now_ms - set_at >= ttl_ms ==> b.given(alias, ttl_ms, now_ms) is None,
        other != alias ==> b.given(other, ttl_ms, now_ms) == a.given(other, ttl_ms, now_ms),
{
    assert(b.cached(alias) == Some((result, set_at)));
    assert(other != alias ==> b.cached(other) == a.cached(other));
}

/// With a time to live of zero nothing is ever given out.
pub proof fn law_zero_ttl_disables_cache(c: PingCache, alias: Seq<char>, now_ms: u64)
    ensures
        c.given(alias, 0, now_ms) is None,
{
}

// ── Health ───────────────────────────────────────────────────────────────────

/// How an agent is doing.
#[derive(Clone, Debug)]
pub struct AgentHealth {
    pub alias: String,
    pub backend: String,
    pub ping_alive: bool,
    pub ping_latency_ms: u64,
    pub ping_detail: Option<String>,
    pub cached: bool,
    pub circuit_state: String,
    pub circuit_failures: u32,
}

/// State and failures of a backend's circuit breaker. Of several entries the
/// last one counts; a backend without one is closed.
pub open spec fn circuit_of(states: Seq<(String, String, u32)>, backend: Seq<char>) -> (
    Seq<char>,
    u32,
)
    decreases states.len(),
{
    if states.len() == 0 {
        ("closed"@, 0)
    } else if states.last().0@ == backend {
        (states.last().1@, states.last().2)
    } else {
        circuit_of(states.drop_last(), backend)
    }
}

fn find_circuit(states: &Vec<(String, String, u32)>, backend: &str) -> (r: (String, u32))
    ensures
        (r.0@, r.1) == circuit_of(states@, backend@),
{
    let mut i: usize = states.len();
    assert(states@.take(i as int) =~= states@);
    while i > 0
        invariant
            i <= states@.len(),
            circuit_of(states@, backend@) == circuit_of(states@.take(i as int), backend@),
        decreases i,
    {
        assert(states@.take(i as int).drop_last() =~= states@.take(i - 1));
        if str_eq(states[i - 1].0.as_str(), backend) {
            return (states[i - 1].1.clone(), states[i - 1].2);
        }
        i -= 1;
    }
    ("closed".to_owned(), 0)
}

/// Whether an agent is asked about.
pub open spec fn asked(a: AgentConfig, alias: Option<Seq<char>>) -> bool {
    match alias {
        Some(x) => a.alias@ == x,
        None => true,
    }
}

/// The positions of the agents that are asked about.
pub open spec fn asked_agents(agents: Seq<AgentConfig>, alias: Option<Seq<char>>) -> Seq<int>
    decreases agents.len(),
{
    if agents.len() == 0 {
        seq![]
    } else {
        let rest = asked_agents(agents.drop_last(), alias);
        if asked(agents.last(), alias) {
            rest.push(agents.len() - 1)
        } else {
            rest
        }
    }
}

/// Whether `h` is the entry of agent `a` before any ping: filled from the cache,
/// or still without an answer.
pub open spec fn entry_for(
    h: AgentHealth,
    a: AgentConfig,
    cache: PingCache,
    ttl_ms: u64,
    now_ms: u64,
    circuits: Seq<(String, String, u32)>,
) -> bool {
    let hit = cache.given(a.alias@, ttl_ms, now_ms);
    &&& h.alias == a.alias
    &&& h.backend == a.backend
    &&& (h.circuit_state@, h.circuit_failures) == circuit_of(circuits, a.backend@)
    &&& h.cached == (hit is Some)
    &&& match hit {
        Some(p) => h.ping_alive == p.alive && h.ping_latency_ms == p.latency_ms && h.ping_detail
            == p.detail,
        None => !h.ping_alive && h.ping_latency_ms == 0 && h.ping_detail is None,
    }
}

/// Whether entry `i` stands for the agent that `order` names there.
pub open spec fn entry_placed(
    entries: Seq<AgentHealth>,
    positions: Seq<usize>,
    order: Seq<int>,
    agents: Seq<AgentConfig>,
    cache: PingCache,
    ttl_ms: u64,
    now_ms: u64,
    circuits: Seq<(String, String, u32)>,
    i: int,
) -> bool {
    &&& positions[i] == order[i]
    &&& 0 <= order[i] < agents.len()
    &&& entry_for(entries[i], agents[order[i]], cache, ttl_ms, now_ms, circuits)
}

/// The state of a health check.
#[derive(Clone, Debug)]
pub struct HealthCheck {
    pub agents: Vec<AgentHealth>,
    /// For each entry, the position of its agent in the configuration.
    pub positions: Vec<usize>,
    /// The entries that have to be pinged.
    pub need_ping: Vec<usize>,
}

/// Starts a health check: the agents that are asked about, as far as the cache
/// knows them, and those that have to be pinged.
pub fn begin_health(
    agents: &Vec<AgentConfig>,
    alias: &Option<String>,
    cache: &PingCache,
    ttl_ms: u64,
    now_ms: u64,
    circuits: &Vec<(String, String, u32)>,
) -> (r: HealthCheck)
    ensures
        r.agents@.len() == asked_agents(agents@, text::opt_text(*alias)).len(),
        r.positions@.len() == r.agents@.len(),
        forall|i: int|
            0 <= i < r.agents@.len() ==> #[trigger] entry_placed(
                r.agents@,
                r.positions@,
                asked_agents(agents@, text::opt_text(*alias)),
                agents@,
                *cache,
                ttl_ms,
                now_ms,
                circuits@,
                i,
            ),
        forall|k: int|
            0 <= k < r.need_ping@.len() ==> (#[trigger] r.need_ping@[k]) < r.agents@.len()
                && !r.agents@[r.need_ping@[k] as int].cached,
        forall|a: int, b: int|
            0 <= a < b < r.need_ping@.len() ==> (#[trigger] r.need_ping@[a]) < (
            #[trigger] r.need_ping@[b]),
        forall|i: int|
            0 <= i < r.agents@.len() && !(#[trigger] r.agents@[i]).cached
                ==> r.need_ping@.contains(i as usize),
{
    let mut entries: Vec<AgentHealth> = Vec::new();
    let mut positions: Vec<usize> = Vec::new();
    let mut need_ping: Vec<usize> = Vec::new();
    let ghost want = text::opt_text(*alias);
    let mut j: usize = 0;
    while j < agents.len()
        invariant
            j <= agents@.len(),
            want == text::opt_text(*alias),
            entries@.len() == asked_agents(agents@.take(j as int), want).len(),
            entries@.len() <= j,
            positions@.len() == entries@.len(),
            forall|i: int|
                0 <= i < entries@.len() ==> #[trigger] entry_placed(
                    entries@,
                    positions@,
                    asked_agents(agents@.take(j as int), want),
                    agents@,
                    *cache,
                    ttl_ms,
                    now_ms,
                    circuits@,
                    i,
                ),
            forall|k: int|
                0 <= k < need_ping@.len() ==> (#[trigger] need_ping@[k]) < entries@.len()
                    && !entries@[need_ping@[k] as int].cached,
            forall|a: int, b: int|
                0 <= a < b < need_ping@.len() ==> (#[trigger] need_ping@[a]) < (
                #[trigger] need_ping@[b]),
            forall|i: int|
                0 <= i < entries@.len() && !(#[trigger] entries@[i]).cached
                    ==> need_ping@.contains(i as usize),
        decreases agents@.len() - j,
    {
        let a: &AgentConfig = &agents[j];
        let ghost prev = asked_agents(agents@.take(j as int), want);
        assert(agents@.take(j + 1).drop_last() =~= agents@.take(j as int));
        assert(agents@.take(j + 1).last() == agents@[j as int]);
        let wanted: bool = match alias {
            Some(x) => str_eq(a.alias.as_str(), x.as_str()),
            None => true,
        };
        if wanted {
            let (circuit_state, circuit_failures): (String, u32) = find_circuit(
                circuits,
                a.backend.as_str(),
            );
            let ghost before = entries@;
            let ghost pings = need_ping@;
            let ghost places = positions@;
            let n: usize = entries.len();
            match cache.get(a.alias.as_str(), ttl_ms, now_ms) {
                Some(p) => {
                    entries.push(
                        AgentHealth {
                            alias: a.alias.clone(),
                            backend: a.backend.clone(),
                            ping_alive: p.alive,
                            ping_latency_ms: p.latency_ms,
                            ping_detail: p.detail,
                            cached: true,
                            circuit_state,
                            circuit_failures,
                        },
                    );
                },
                None => {
                    entries.push(
                        AgentHealth {
                            alias: a.alias.clone(),
                            backend: a.backend.clone(),
                            ping_alive: false,
                            ping_latency_ms: 0,
                            ping_detail: None,
                            cached: false,
                            circuit_state,
                            circuit_failures,
                        },
                    );
                    need_ping.push(n);
                    assert(need_ping@[need_ping@.len() - 1] == n);
                },
            }
            positions.push(j);
            assert forall|i: int|
                0 <= i < entries@.len() && !(#[trigger] entries@[i]).cached implies need_ping@.contains(
                i as usize,
            ) by {
                if i < before.len() {
                    assert(entries@[i] == before[i]);
                    assert(pings.contains(i as usize));
                    let k = choose|k: int| 0 <= k < pings.len() && pings[k] == i as usize;
                    assert(need_ping@[k] == i as usize);
                }
            }
            assert forall|k: int| 0 <= k < need_ping@.len() implies (#[trigger] need_ping@[k])
                < entries@.len() && !entries@[need_ping@[k] as int].cached by {
                if k < pings.len() {
                    assert(need_ping@[k] == pings[k]);
                    assert(entries@[pings[k] as int] == before[pings[k] as int]);
                }
            }
            assert forall|i: int| 0 <= i < entries@.len() implies #[trigger] entry_placed(
                entries@,
                positions@,
                asked_agents(agents@.take(j + 1), want),
                agents@,
                *cache,
                ttl_ms,
                now_ms,
                circuits@,
                i,
            ) by {
                if i < before.len() {
                    assert(entry_placed(
                        before,
                        places,
                        prev,
                        agents@,
                        *cache,
                        ttl_ms,
                        now_ms,
                        circuits@,
                        i,
                    ));
                    assert(entries@[i] == before[i]);
                    assert(positions@[i] == places[i]);
                    assert(asked_agents(agents@.take(j + 1), want)[i] == prev[i]);
                }
            }
        }
        j += 1;
    }
    assert(agents@.take(j as int) =~= agents@);
    HealthCheck { agents: entries, positions, need_ping }
}

impl HealthCheck {
    /// Takes over the answer to a ping of entry `index`, and caches it.
    pub fn apply_ping(&mut self, index: usize, ping: PingResult, cache: &mut PingCache, now_ms: u64)
        requires
            index < old(self).agents@.len(),
        ensures
            final(self).agents@.len() == old(self).agents@.len(),
            forall|i: int|
                0 <= i < old(self).agents@.len() && i != index ==> (#[trigger] final(self).agents@[i])
                    == old(self).agents@[i],
            final(self).agents@[index as int] == (AgentHealth {
                ping_alive: ping.alive,
                ping_latency_ms: ping.latency_ms,
                ping_detail: ping.detail,
                ..old(self).agents@[index as int]
            }),
            final(self).positions == old(self).positions,
            final(self).need_ping == old(self).need_ping,
            cached_into(
                *old(cache),
                old(self).agents@[index as int].alias@,
                ping,
                now_ms,
                *final(cache),
            ),
    {
        let alias: String = self.agents[index].alias.clone();
        let e: AgentHealth = AgentHealth {
            alias: self.agents[index].alias.clone(),
            backend: self.agents[index].backend.clone(),
            ping_alive: ping.alive,
            ping_latency_ms: ping.latency_ms,
            ping_detail: opt_copy(&ping.detail),
            cached: self.agents[index].cached,
            circuit_state: self.agents[index].circuit_state.clone(),
            circuit_failures: self.agents[index].circuit_failures,
        };
        self.agents.set(index, e);
        cache.set(alias, ping, now_ms);
    }
}

/// The worker's last sign of life.
#[derive(Clone, Debug)]
pub struct HeartbeatInfo {
    pub worker_id: String,
    pub last_beat_at: i64,
    pub started_at: i64,
    pub version: Option<String>,
}

/// The worker's last sign of life, if one could be read.
pub fn heartbeat_info(found: Result<Option<(String, i64, i64, Option<String>)>, String>) -> (r:
    Option<HeartbeatInfo>)
    ensures
        match found {
            Ok(Some(h)) => r == Some(
                HeartbeatInfo {
                    worker_id: h.0,
                    last_beat_at: h.1,
                    started_at: h.2,
                    version: h.3,
                },
            ),
            _ => r is None,
        },
{
    match found {
        Ok(Some((worker_id, last_beat_at, started_at, version))) => Some(
            HeartbeatInfo { worker_id, last_beat_at, started_at, version },
        ),
        _ => None,
    }
}

/// What the health tool answers.
#[derive(Clone, Debug)]
pub struct HealthReport {
    pub worker_heartbeat: Option<HeartbeatInfo>,
    pub queue_depth: i64,
    pub agents: Vec<AgentHealth>,
}

/// What the health tool answers. A queue that could not be read counts as empty.
pub fn health_report(
    heartbeat: Option<HeartbeatInfo>,
    queue_depth: Result<i64, String>,
    check: HealthCheck,
) -> (r: HealthReport)
    ensures
        r.worker_heartbeat == heartbeat,
        r.queue_depth == match queue_depth {
            Ok(n) => n,
            Err(_) => 0,
        },
        r.agents == check.agents,
{
    HealthReport {
        worker_heartbeat: heartbeat,
        queue_depth: match queue_depth {
            Ok(n) => n,
            Err(_) => 0,
        },
        agents: check.agents,
    }
}

// ── Diagnosis ────────────────────────────────────────────────────────────────

/// What is wrong with a thread, and what to do about it.
#[derive(Clone, Debug)]
pub struct Diagnosis {
    pub thread_id: String,
    pub thread_status: String,
    pub summary: Option<String>,
    pub message_count: usize,
    pub execution_count: usize,
    pub latest_execution_id: Option<String>,
    pub latest_execution_status: Option<String>,
    pub latest_execution_agent: Option<String>,
    pub latest_execution_error: Option<String>,
    pub latest_execution_duration_ms: Option<i64>,
    pub blockers: Vec<String>,
    pub suggestions: Vec<String>,
}

/// Blockers and suggestions for an active thread with an execution.
pub open spec fn execution_advice(e: ExecutionRow, heartbeat: bool) -> (
    Seq<Seq<char>>,
    Seq<Seq<char>>,
) {
    let s = e.status@;
    if s == "queued"@ {
        if heartbeat {
            (seq![], seq![])
        } else {
            (
                seq!["execution is queued but no worker heartbeat found"@],
                seq!["start the worker process"@],
            )
        }
    } else if s == "executing"@ || s == "picked_up"@ {
        (seq![], seq!["execution in progress — wait for completion"@])
    } else if s == "failed"@ || s == "crashed"@ || s == "timed_out"@ {
        (
            seq!["last execution "@ + s + ": "@ + text::text_or(e.error_detail, "(no detail)"@)],
            seq!["inspect error and re-dispatch or abandon"@],
        )
    } else {
        (seq![], seq![])
    }
}

/// Blockers and suggestions for a thread.
pub open spec fn advice(
    status: Seq<char>,
    messages: nat,
    executions: Seq<ExecutionRow>,
    heartbeat: bool,
) -> (Seq<Seq<char>>, Seq<Seq<char>>) {
    match ThreadStatus::parsed(status) {
        Some(ThreadStatus::Active) => if executions.len() > 0 {
            execution_advice(executions.last(), heartbeat)
        } else if messages == 0 {
            (
                seq!["thread is Active but has no messages or executions"@],
                seq!["dispatch a message to start work"@],
            )
        } else {
            (seq![], seq![])
        },
        Some(ThreadStatus::Completed) => (
            seq![],
            seq!["thread is completed — no action needed"@],
        ),
        Some(ThreadStatus::Abandoned) => (
            seq![],
            seq!["thread was abandoned — reopen if needed"@],
        ),
        Some(ThreadStatus::Failed) => (
            seq!["thread is in failed state"@],
            seq!["inspect last execution error, then reopen and re-dispatch"@],
        ),
        None => (seq![], seq![]),
    }
}

/// Whether the worker's heartbeat has to be looked up for the advice.
pub fn needs_heartbeat(thread: &ThreadRow, executions: &Vec<ExecutionRow>) -> (r: bool)
    ensures
        r == (ThreadStatus::parsed(thread.status@) == Some(ThreadStatus::Active)
            && executions@.len() > 0 && executions@.last().status@ == "queued"@),
        !r ==> forall|m: nat|
            #[trigger] advice(thread.status@, m, executions@, true) == advice(
                thread.status@,
                m,
                executions@,
                false,
            ),
{
    let active: bool = match ThreadStatus::parse(thread.status.as_str()) {
        Some(ThreadStatus::Active) => true,
        _ => false,
    };
    active && executions.len() > 0 && str_eq(
        executions[executions.len() - 1].status.as_str(),
        "queued",
    )
}

fn one(v: &mut Vec<String>, text: &str)
    requires
        old(v)@.len() == 0,
    ensures
        text::texts(final(v)@) == seq![text@],
{
    v.push(text.to_owned());
    assert(text::texts(v@) =~= seq![text@]);
}

fn find_advice(
    status: &str,
    messages: usize,
    executions: &Vec<ExecutionRow>,
    heartbeat: bool,
) -> (r: (Vec<String>, Vec<String>))
    ensures
        (text::texts(r.0@), text::texts(r.1@)) == advice(status@, messages as nat, executions@, heartbeat),
{
    let mut blockers: Vec<String> = Vec::new();
    let mut suggestions: Vec<String> = Vec::new();
    assert(text::texts(blockers@) =~= Seq::<Seq<char>>::empty());
    assert(text::texts(suggestions@) =~= Seq::<Seq<char>>::empty());
    match ThreadStatus::parse(status) {
        Some(ThreadStatus::Active) => {
            if executions.len() > 0 {
                let e: &ExecutionRow = &executions[executions.len() - 1];
                let s: &str = e.status.as_str();
                if str_eq(s, "queued") {
                    if !heartbeat {
                        one(&mut blockers, "execution is queued but no worker heartbeat found");
                        one(&mut suggestions, "start the worker process");
                    }
                } else if str_eq(s, "executing") || str_eq(s, "picked_up") {
                    one(&mut suggestions, "execution in progress — wait for completion");
                } else if str_eq(s, "failed") || str_eq(s, "crashed") || str_eq(s, "timed_out") {
                    let mut text: String = cat3("last execution ", s, ": ");
                    text.append(str_or(&e.error_detail, "(no detail)"));
                    one(&mut blockers, text.as_str());
                    one(&mut suggestions, "inspect error and re-dispatch or abandon");
                }
            } else if messages == 0 {
                one(&mut blockers, "thread is Active but has no messages or executions");
                one(&mut suggestions, "dispatch a message to start work");
            }
        },
        Some(ThreadStatus::Completed) => {
            one(&mut suggestions, "thread is completed — no action needed");
        },
        Some(ThreadStatus::Abandoned) => {
            one(&mut suggestions, "thread was abandoned — reopen if needed");
        },
        Some(ThreadStatus::Failed) => {
            one(&mut blockers, "thread is in failed state");
            one(&mut suggestions, "inspect last execution error, then reopen and re-dispatch");
        },
        None => {},
    }
    (blockers, suggestions)
}

/// The diagnosis of a thread that was found. `heartbeat` is whether the worker
/// has been heard of.
pub fn diagnose(
    thread_id: &str,
    thread: ThreadRow,
    message_count: usize,
    executions: &Vec<ExecutionRow>,
    heartbeat: bool,
) -> (r: Diagnosis)
    ensures
        r.thread_id@ == thread_id@,
        r.thread_status == thread.status,
        r.summary == thread.summary,
        r.message_count == message_count,
        r.execution_count == executions@.len(),
        (text::texts(r.blockers@), text::texts(r.suggestions@)) == advice(
            thread.status@,
            message_count as nat,
            executions@,
            heartbeat,
        ),
        if executions@.len() == 0 {
            r.latest_execution_id is None && r.latest_execution_status is None
                && r.latest_execution_agent is None && r.latest_execution_error is None
                && r.latest_execution_duration_ms is None
        } else {
            let e = executions@.last();
            &&& r.latest_execution_id == Some(e.id)
            &&& r.latest_execution_status == Some(e.status)
            &&& r.latest_execution_agent == Some(e.agent_alias)
            &&& r.latest_execution_error == e.error_detail
            &&& r.latest_execution_duration_ms == e.duration_ms
        },
{
    let (blockers, suggestions): (Vec<String>, Vec<String>) = find_advice(
        thread.status.as_str(),
        message_count,
        executions,
        heartbeat,
    );
    let mut d: Diagnosis = Diagnosis {
        thread_id: thread_id.to_owned(),
        thread_status: thread.status,
        summary: thread.summary,
        message_count,
        execution_count: executions.len(),
        latest_execution_id: None,
        latest_execution_status: None,
        latest_execution_agent: None,
        latest_execution_error: None,
        latest_execution_duration_ms: None,
        blockers,
        suggestions,
    };
    if executions.len() > 0 {
        let e: &ExecutionRow = &executions[executions.len() - 1];
        d.latest_execution_id = Some(e.id.clone());
        d.latest_execution_status = Some(e.status.clone());
        d.latest_execution_agent = Some(e.agent_alias.clone());
        d.latest_execution_error = opt_copy(&e.error_detail);
        d.latest_execution_duration_ms = e.duration_ms;
    }
    d
}

/// What the diagnosis tool says of a thread that it could not look at.
pub fn diagnose_refusal(thread_id: &str, error: Option<String>) -> (r: String)
    ensures
        r@ == match error {
            None => "thread not found: "@ + thread_id@,
            Some(e) => "lookup failed: "@ + e@,
        },
{
    match error {
        None => cat("thread not found: ", thread_id),
        Some(e) => cat("lookup failed: ", e.as_str()),
    }
}

/// Only a failed thread, and an active one that is empty, waits for a worker or
/// has just failed, is reported as blocked, and then there is advice. While its
/// last execution is in progress, a thread is not blocked.
pub proof fn law_blocked_only_when_stuck(
    status: Seq<char>,
    messages: nat,
    executions: Seq<ExecutionRow>,
    heartbeat: bool,
)
    ensures
        ({
            let (blockers, suggestions) = advice(status, messages, executions, heartbeat);
            let last = executions.last().status@;
            let failed = last == "failed"@ || last == "crashed"@ || last == "timed_out"@;
            &&& blockers.len() > 0 <==> match ThreadStatus::parsed(status) {
                Some(ThreadStatus::Failed) => true,
                Some(ThreadStatus::Active) => if executions.len() == 0 {
                    messages == 0
                } else {
                    failed || (last == "queued"@ && !heartbeat)
                },
                _ => false,
            }
            &&& blockers.len() > 0 ==> suggestions.len() > 0
            &&& ThreadStatus::parsed(status) == Some(ThreadStatus::Active) && executions.len() > 0
                && (last == "executing"@ || last == "picked_up"@) ==> blockers.len() == 0
        }),
{
    reveal_strlit("queued");
    reveal_strlit("executing");
    reveal_strlit("picked_up");
    reveal_strlit("failed");
    reveal_strlit("crashed");
    reveal_strlit("timed_out");
    assert("queued"@[0] == 'q' && "executing"@[0] == 'e' && "picked_up"@[0] == 'p');
    assert("failed"@[0] == 'f' && "crashed"@[0] == 'c' && "timed_out"@[0] == 't');
}

/// A backend's circuit is that of the last entry under its name; one without an
/// entry is closed and has no failures.
pub proof fn law_circuit_is_the_last_of_the_backend(
    states: Seq<(String, String, u32)>,
    backend: Seq<char>,
)
    ensures
        (forall|j: int| 0 <= j < states.len() ==> (#[trigger] states[j]).0@ != backend)
            ==> circuit_of(states, backend) == ("closed"@, 0u32),
        forall|k: int|
            #![trigger states[k]]
            0 <= k < states.len() && states[k].0@ == backend && (forall|j: int|
                k < j < states.len() ==> (#[trigger] states[j]).0@ != backend) ==> circuit_of(
                states,
                backend,
            ) == (states[k].1@, states[k].2),
    decreases states.len(),
{
    if states.len() > 0 {
        let rest = states.drop_last();
        law_circuit_is_the_last_of_the_backend(rest, backend);
        assert(states[states.len() - 1] == states.last());
        if forall|j: int| 0 <= j < states.len() ==> (#[trigger] states[j]).0@ != backend {
            assert forall|j: int| 0 <= j < rest.len() implies (#[trigger] rest[j]).0@ != backend by {
                assert(rest[j] == states[j]);
            }
        }
        assert forall|k: int|
            #![trigger states[k]]
            0 <= k < states.len() && states[k].0@ == backend && (forall|j: int|
                k < j < states.len() ==> (#[trigger] states[j]).0@ != backend) implies circuit_of(
            states,
            backend,
        ) == (states[k].1@, states[k].2) by {
            if k < rest.len() {
                assert(rest[k] == states[k]);
                assert forall|j: int| k < j < rest.len() implies (#[trigger] rest[j]).0@
                    != backend by {
                    assert(rest[j] == states[j]);
                }
            }
        }
    }
}

/// A health check asks about every agent, or about the one that was named, in the
/// order of the configuration.
pub proof fn law_health_asks_about(agents: Seq<AgentConfig>, alias: Option<Seq<char>>)
    ensures
        forall|i: int|
            #![trigger asked_agents(agents, alias).contains(i)]
            asked_agents(agents, alias).contains(i) <==> 0 <= i < agents.len() && (alias is None
                || agents[i].alias@ == alias->0),
        forall|j: int, k: int|
            0 <= j < k < asked_agents(agents, alias).len() ==> (#[trigger] asked_agents(
                agents,
                alias,
            )[j]) < (#[trigger] asked_agents(agents, alias)[k]),
    decreases agents.len(),
{
    if agents.len() > 0 {
        let prev = agents.drop_last();
        law_health_asks_about(prev, alias);
        let p = asked_agents(prev, alias);
        let all = asked_agents(agents, alias);
        assert forall|i: int|
            #![trigger all.contains(i)]
            all.contains(i) <==> 0 <= i < agents.len() && (alias is None || agents[i].alias@
                == alias->0) by {
            if all.contains(i) {
                let k = choose|k: int| 0 <= k < all.len() && all[k] == i;
                if k < p.len() {
                    assert(p.contains(i));
                }
            }
            if p.contains(i) {
                let k = choose|k: int| 0 <= k < p.len() && p[k] == i;
                assert(all[k] == i);
            }
            if i == agents.len() - 1 && asked(agents.last(), alias) {
                assert(all[p.len() as int] == i);
            }
        }
        assert forall|j: int, k: int| 0 <= j < k < all.len() implies (#[trigger] all[j]) < (
        #[trigger] all[k]) by {
            assert(p.contains(p[j]));
        }
    }
}

/// An agent's entry before any ping names the agent and its backend; it holds a
/// cached answer that is younger than the time to live, and otherwise no sign of
/// life.
pub proof fn law_health_entry(
    h: AgentHealth,
    a: AgentConfig,
    cache: PingCache,
    ttl_ms: u64,
    now_ms: u64,
    circuits: Seq<(String, String, u32)>,
)
    requires
        entry_for(h, a, cache, ttl_ms, now_ms, circuits),
    ensures
        h.alias == a.alias && h.backend == a.backend,
        match cache.cached(a.alias@) {
            Some((ping, then)) => then <= now_ms ==> if now_ms - then < ttl_ms {
                h.cached && h.ping_alive == ping.alive && h.ping_latency_ms == ping.latency_ms
                    && h.ping_detail == ping.detail
            } else {
                !h.cached && !h.ping_alive && h.ping_latency_ms == 0 && h.ping_detail is None
            },
            None => !h.cached && !h.ping_alive && h.ping_latency_ms == 0 && h.ping_detail is None,
        },
        h.circuit_state@ == circuit_of(circuits, a.backend@).0,
        h.circuit_failures == circuit_of(circuits, a.backend@).1,
{
}

/// What a diagnosis advises, by the status of the thread and of its last
/// execution.
pub proof fn law_advice_by_status(
    status: Seq<char>,
    messages: nat,
    executions: Seq<ExecutionRow>,
    heartbeat: bool,
)
    ensures
        ({
            let (blockers, suggestions) = advice(status, messages, executions, heartbeat);
            let last = executions.last();
            let started = status == "Active"@ && executions.len() > 0;
            &&& status == "Completed"@ ==> blockers.len() == 0 && suggestions == seq![
                "thread is completed — no action needed"@,
            ]
            &&& status == "Abandoned"@ ==> blockers.len() == 0 && suggestions == seq![
                "thread was abandoned — reopen if needed"@,
            ]
            &&& status == "Failed"@ ==> blockers == seq!["thread is in failed state"@]
                && suggestions == seq![
                "inspect last execution error, then reopen and re-dispatch"@,
            ]
            &&& status == "Active"@ && executions.len() == 0 && messages == 0 ==> blockers == seq![
                "thread is Active but has no messages or executions"@,
            ] && suggestions == seq!["dispatch a message to start work"@]
            &&& status == "Active"@ && executions.len() == 0 && messages > 0 ==> blockers.len() == 0
                && suggestions.len() == 0
            &&& started && last.status@ == "queued"@ && heartbeat ==> blockers.len() == 0
                && suggestions.len() == 0
            &&& started && last.status@ == "queued"@ && !heartbeat ==> blockers == seq![
                "execution is queued but no worker heartbeat found"@,
            ] && suggestions == seq!["start the worker process"@]
            &&& started && (last.status@ == "executing"@ || last.status@ == "picked_up"@)
                ==> blockers.len() == 0 && suggestions == seq![
                "execution in progress — wait for completion"@,
            ]
            &&& started && (last.status@ == "failed"@ || last.status@ == "crashed"@ || last.status@
                == "timed_out"@) ==> blockers.len() == 1 && suggestions == seq![
                "inspect error and re-dispatch or abandon"@,
            ]
            &&& started && (last.status@ == "failed"@ || last.status@ == "crashed"@ || last.status@
                == "timed_out"@) ==> (last.error_detail matches Some(e) ==> blockers[0]
                == "last execution "@ + last.status@ + ": "@ + e@)
        }),
{
    crate::store::law_statuses(status);
    reveal_strlit("queued");
    reveal_strlit("executing");
    reveal_strlit("picked_up");
    reveal_strlit("failed");
    reveal_strlit("crashed");
    reveal_strlit("timed_out");
    assert("queued"@[0] == 'q' && "executing"@[0] == 'e' && "picked_up"@[0] == 'p');
    assert("failed"@[0] == 'f' && "crashed"@[0] == 'c' && "timed_out"@[0] == 't');
}

/// What stands against an active thread by its latest execution: a worker that is
/// missing while it waits, nothing while it runs, and its error where it failed.
pub proof fn law_advice_by_execution(e: ExecutionRow, heartbeat: bool)
    ensures
        e.status@ == "queued"@ && heartbeat ==> execution_advice(e, heartbeat).0.len() == 0
            && execution_advice(e, heartbeat).1.len() == 0,
        e.status@ == "queued"@ && !heartbeat ==> execution_advice(e, heartbeat).0 == seq![
            "execution is queued but no worker heartbeat found"@,
        ] && execution_advice(e, heartbeat).1 == seq!["start the worker process"@],
        e.status@ == "executing"@ || e.status@ == "picked_up"@ ==> execution_advice(
            e,
            heartbeat,
        ).0.len() == 0 && execution_advice(e, heartbeat).1 == seq![
            "execution in progress — wait for completion"@,
        ],
        e.status@ == "failed"@ || e.status@ == "crashed"@ || e.status@ == "timed_out"@ ==> {
            &&& e.error_detail matches Some(d) ==> execution_advice(e, heartbeat).0 == seq![
                "last execution "@ + e.status@ + ": "@ + d@,
            ]
            &&& e.error_detail is None ==> execution_advice(e, heartbeat).0 == seq![
                "last execution "@ + e.status@ + ": "@ + "(no detail)"@,
            ]
            &&& execution_advice(e, heartbeat).1 == seq![
                "inspect error and re-dispatch or abandon"@,
            ]
        },
        e.status@ == "completed"@ ==> execution_advice(e, heartbeat).0.len() == 0
            && execution_advice(e, heartbeat).1.len() == 0,
{
    crate::dashboard::views::lemma_states_apart();
}

/// What is cached of an agent is the last that was entered for it, and may be used
/// as long as it is younger than its time to live.
pub proof fn law_last_ping_is_cached(
    e: Seq<CachedPing>,
    x: CachedPing,
    alias: Seq<char>,
    ttl: u64,
    now: u64,
)
    ensures
        entry_of(e.push(x), x.alias@) == Some((x.result, x.cached_at)),
        alias != x.alias@ ==> entry_of(e.push(x), alias) == entry_of(e, alias),
        entry_of(Seq::empty(), alias) is None,
        x.cached_at <= now ==> (fresh(x.cached_at, ttl, now) <==> now < x.cached_at + ttl),
{
    lemma_entry_push(e, x, alias);
    lemma_entry_push(e, x, x.alias@);
}

} // verus!
