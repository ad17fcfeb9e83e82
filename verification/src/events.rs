//! State changes that the orchestrator reports.
use vstd::prelude::*;

verus! {

/// Events that a slow subscriber may fall behind before it loses some.
pub const BROADCAST_CAPACITY: usize = 256;

/// A state change.
#[derive(Clone, Debug)]
pub enum OrchestratorEvent {
    /// An execution was handed to its backend.
    ExecutionStarted { execution_id: String, thread_id: String, agent_alias: String },
    /// Progress of a running execution.
    ExecutionProgress {
        execution_id: String,
        thread_id: String,
        agent_alias: String,
        /// What it did last, for people.
        summary: String,
    },
    /// An execution came to its end.
    ExecutionCompleted {
        execution_id: String,
        thread_id: String,
        agent_alias: String,
        /// Whether the backend exited cleanly.
        success: bool,
        duration_ms: i64,
    },
    /// The status of a thread changed.
    ThreadStatusChanged { thread_id: String, new_status: String },
    /// Progress of a batch of threads.
    BatchProgress { batch_id: String, completed: u32, total: u32 },
    /// An agent became healthy or unhealthy.
    AgentHealthChanged { agent_alias: String, healthy: bool },
    /// A message came into a thread.
    MessageReceived { thread_id: String, message_id: i64, from_alias: String, intent: String },
    /// A merge was taken up.
    MergeStarted { op_id: String, thread_id: String },
    /// A merge came to its end.
    MergeCompleted { op_id: String, thread_id: String, success: bool },
}

} // verus!
