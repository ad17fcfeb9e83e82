//! What can go wrong, and how it is put.
use crate::text::{cat, cat3, i64_text, u64_text};
use crate::text;
use vstd::prelude::*;

verus! {

/// What went wrong. Errors from outside are carried as their text.
#[derive(Clone, Debug)]
pub enum OrchestratorError {
    Config(String),
    Store(String),
    Workflow(String),
    Backend(String),
    Notification(String),
    Audit(String),
    Io(String),
    Yaml(String),
    Json(String),
    Sqlite(String),
    UnknownAlias(String),
    InvalidTransition { from: String, to: String },
    DaemonLockHeld { worker_id: String, pid: u32, heartbeat_age_secs: i64 },
    Timeout(String),
    Other(String),
}

/// Who holds the worker lock, and what to do about it. A pid of zero means that
/// the holder has not sent a heartbeat yet.
pub open spec fn lock_held_text(
    worker_id: Seq<char>,
    pid: u32,
    heartbeat_age_secs: i64,
) -> Seq<char> {
    let head = "worker lock held by another process (worker_id: "@ + worker_id;
    if pid == 0 {
        head
            + "). Another worker holds the lock but hasn't started heartbeating yet. Check for running compas processes: pgrep -fl compas"@
    } else {
        head + ", pid: "@ + text::dec(pid as nat) + ", heartbeat_age_secs: "@ + text::dec_int(
            heartbeat_age_secs as int,
        ) + "). Kill the existing worker (kill "@ + text::dec(pid as nat)
            + ") or wait for it to exit."@
    }
}

/// Who holds the worker lock, and what to do about it.
pub fn daemon_lock_held_message(worker_id: &str, pid: u32, heartbeat_age_secs: i64) -> (r: String)
    ensures
        r@ == lock_held_text(worker_id@, pid, heartbeat_age_secs),
{
    let mut s: String = cat("worker lock held by another process (worker_id: ", worker_id);
    if pid == 0 {
        s.append(
            "). Another worker holds the lock but hasn't started heartbeating yet. Check for running compas processes: pgrep -fl compas",
        );
    } else {
        let p: String = u64_text(pid as u64);
        s.append(", pid: ");
        s.append(p.as_str());
        s.append(", heartbeat_age_secs: ");
        s.append(i64_text(heartbeat_age_secs).as_str());
        s.append("). Kill the existing worker (kill ");
        s.append(p.as_str());
        s.append(") or wait for it to exit.");
    }
    s
}

/// The error as a sentence.
pub open spec fn error_text(e: OrchestratorError) -> Seq<char> {
    match e {
        OrchestratorError::Config(m) => "config error: "@ + m@,
        OrchestratorError::Store(m) => "store error: "@ + m@,
        OrchestratorError::Workflow(m) => "workflow error: "@ + m@,
        OrchestratorError::Backend(m) => "backend error: "@ + m@,
        OrchestratorError::Notification(m) => "notification error: "@ + m@,
        OrchestratorError::Audit(m) => "audit error: "@ + m@,
        OrchestratorError::Io(m) => "io error: "@ + m@,
        OrchestratorError::Yaml(m) => "yaml parse error: "@ + m@,
        OrchestratorError::Json(m) => "json error: "@ + m@,
        OrchestratorError::Sqlite(m) => "sqlite error: "@ + m@,
        OrchestratorError::UnknownAlias(m) => "unknown agent alias: "@ + m@,
        OrchestratorError::InvalidTransition { from, to } => "invalid intent transition: "@ + from@
            + " -> "@ + to@,
        OrchestratorError::DaemonLockHeld { worker_id, pid, heartbeat_age_secs } => lock_held_text(
            worker_id@,
            pid,
            heartbeat_age_secs,
        ),
        OrchestratorError::Timeout(m) => "timeout: "@ + m@,
        OrchestratorError::Other(m) => m@,
    }
}

impl OrchestratorError {
    /// The error as a sentence.
    pub fn message(&self) -> (r: String)
        ensures
            r@ == error_text(*self),
    {
        match self {
            OrchestratorError::Config(m) => cat("config error: ", m.as_str()),
            OrchestratorError::Store(m) => cat("store error: ", m.as_str()),
            OrchestratorError::Workflow(m) => cat("workflow error: ", m.as_str()),
            OrchestratorError::Backend(m) => cat("backend error: ", m.as_str()),
            OrchestratorError::Notification(m) => cat("notification error: ", m.as_str()),
            OrchestratorError::Audit(m) => cat("audit error: ", m.as_str()),
            OrchestratorError::Io(m) => cat("io error: ", m.as_str()),
            OrchestratorError::Yaml(m) => cat("yaml parse error: ", m.as_str()),
            OrchestratorError::Json(m) => cat("json error: ", m.as_str()),
            OrchestratorError::Sqlite(m) => cat("sqlite error: ", m.as_str()),
            OrchestratorError::UnknownAlias(m) => cat("unknown agent alias: ", m.as_str()),
            OrchestratorError::InvalidTransition { from, to } => {
                let mut s: String = cat3("invalid intent transition: ", from.as_str(), " -> ");
                s.append(to.as_str());
                s
            },
            OrchestratorError::DaemonLockHeld { worker_id, pid, heartbeat_age_secs } => {
                daemon_lock_held_message(worker_id.as_str(), *pid, *heartbeat_age_secs)
            },
            OrchestratorError::Timeout(m) => cat("timeout: ", m.as_str()),
            OrchestratorError::Other(m) => m.clone(),
        }
    }
}

/// The message of an error names its kind and what went wrong.
pub proof fn law_messages_name_their_kind(m: String, to: String)
    ensures
        error_text(OrchestratorError::Config(m)) == "config error: "@ + m@,
        error_text(OrchestratorError::Store(m)) == "store error: "@ + m@,
        error_text(OrchestratorError::Workflow(m)) == "workflow error: "@ + m@,
        error_text(OrchestratorError::Backend(m)) == "backend error: "@ + m@,
        error_text(OrchestratorError::Notification(m)) == "notification error: "@ + m@,
        error_text(OrchestratorError::Audit(m)) == "audit error: "@ + m@,
        error_text(OrchestratorError::Io(m)) == "io error: "@ + m@,
        error_text(OrchestratorError::Yaml(m)) == "yaml parse error: "@ + m@,
        error_text(OrchestratorError::Json(m)) == "json error: "@ + m@,
        error_text(OrchestratorError::Sqlite(m)) == "sqlite error: "@ + m@,
        error_text(OrchestratorError::UnknownAlias(m)) == "unknown agent alias: "@ + m@,
        error_text(OrchestratorError::InvalidTransition { from: m, to }) == (
        "invalid intent transition: "@ + m@ + " -> "@ + to@),
        error_text(OrchestratorError::Timeout(m)) == "timeout: "@ + m@,
        error_text(OrchestratorError::Other(m)) == m@,
{
}

/// A lock that is held names its holder: with its process and the age of its last
/// beat where the process is known, and how to look for it where it is not.
pub proof fn law_held_locks_name_their_holder(w: Seq<char>, pid: u32, age: i64)
    ensures
        pid == 0 ==> lock_held_text(w, pid, age)
            == "worker lock held by another process (worker_id: "@ + w
            + "). Another worker holds the lock but hasn't started heartbeating yet. Check for running compas processes: pgrep -fl compas"@,
        pid != 0 ==> lock_held_text(w, pid, age)
            == "worker lock held by another process (worker_id: "@ + w + ", pid: "@ + text::dec(
            pid as nat,
        ) + ", heartbeat_age_secs: "@ + text::dec_int(age as int)
            + "). Kill the existing worker (kill "@ + text::dec(pid as nat)
            + ") or wait for it to exit."@,
{
}

} // verus!
