//! How agents are doing.
use vstd::prelude::*;

verus! {

/// What a probe of an agent gave.
#[derive(Clone, Copy, Debug, PartialEq, Eq, Structural)]
pub enum HealthStatus {
    /// The backend answered and can take work.
    Healthy,
    /// The agent is at work and was not probed.
    Busy,
    /// The backend did not answer.
    Unhealthy,
    /// The agent was not probed for another reason.
    Skipped,
}

impl HealthStatus {
    /// The name of the status in reports.
    pub open spec fn name(self) -> Seq<char> {
        match self {
            HealthStatus::Healthy => "healthy"@,
            HealthStatus::Busy => "busy"@,
            HealthStatus::Unhealthy => "unhealthy"@,
            HealthStatus::Skipped => "skipped"@,
        }
    }

    /// The name of the status in reports.
    pub fn as_str(self) -> (r: &'static str)
        ensures
            r@ == self.name(),
    {
        match self {
            HealthStatus::Healthy => "healthy",
            HealthStatus::Busy => "busy",
            HealthStatus::Unhealthy => "unhealthy",
            HealthStatus::Skipped => "skipped",
        }
    }
}

/// How an agent is doing.
#[derive(Clone, Debug)]
pub struct AgentHealth {
    pub alias: String,
    pub backend: String,
    pub status: HealthStatus,
    pub latency_ms: Option<u64>,
    /// `idle`, `busy:` and a thread, or `failed:` and a count.
    pub state: String,
    pub detail: Option<String>,
}

/// How all agents are doing. The time is in seconds since the epoch.
#[derive(Clone, Debug)]
pub struct HealthReport {
    pub agents: Vec<AgentHealth>,
    pub checked_at: i64,
}

} // verus!
