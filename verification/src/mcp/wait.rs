//! Waiting for a message.
use crate::mcp::params::WaitParams;
use crate::store::{message_ref, MessageRow};
use crate::store;
use crate::text::{cat, cat3, u64_text};
use crate::text;
use vstd::prelude::*;

verus! {

/// Seconds between two progress notifications.
pub const PROGRESS_INTERVAL_SECS: u64 = 10;

/// Seconds that are added to the execution timeout.
pub const CEILING_PADDING_SECS: u64 = 30;

/// `n`, or the largest number if it is beyond that.
pub open spec fn capped(n: int) -> u64 {
    if n > u64::MAX {
        u64::MAX
    } else {
        n as u64
    }
}

/// The longest wait: the execution timeout and half a minute; for a chain three
/// timeouts and half a minute.
pub open spec fn ceiling_of(exec_timeout_secs: u64, await_chain: bool) -> u64 {
    if await_chain {
        capped(exec_timeout_secs * 3 + 30)
    } else {
        capped(exec_timeout_secs + 30)
    }
}

/// The longest wait for the given execution timeout.
pub fn compute_wait_ceiling(exec_timeout_secs: u64, await_chain: bool) -> (r: u64)
    ensures
        r == ceiling_of(exec_timeout_secs, await_chain),
{
    let base: u64 = if await_chain {
        exec_timeout_secs.saturating_add(exec_timeout_secs).saturating_add(exec_timeout_secs)
    } else {
        exec_timeout_secs
    };
    base.saturating_add(CEILING_PADDING_SECS)
}

/// The effective timeout, and whether it had to be cut.
pub open spec fn resolved(requested: Option<u64>, ceiling: u64) -> (u64, bool) {
    match requested {
        Some(r) => if r > ceiling {
            (ceiling, true)
        } else {
            (r, false)
        },
        None => (ceiling, false),
    }
}

/// The effective timeout, and whether it had to be cut.
pub fn resolve_wait_timeout(requested: Option<u64>, ceiling: u64) -> (r: (u64, bool))
    ensures
        r == resolved(requested, ceiling),
{
    match requested {
        Some(n) => if n > ceiling {
            (ceiling, true)
        } else {
            (n, false)
        },
        None => (ceiling, false),
    }
}

/// A wait never exceeds its ceiling. It is cut if and only if more was asked
/// for, and otherwise lasts as long as was asked for, or to the ceiling.
pub proof fn law_wait_within_ceiling(requested: Option<u64>, ceiling: u64)
    ensures
        ({
            let (effective, clamped) = resolved(requested, ceiling);
            &&& effective <= ceiling
            &&& clamped <==> (requested matches Some(r) && r > ceiling)
            &&& !clamped ==> effective == (match requested {
                Some(r) => r,
                None => ceiling,
            })
            &&& clamped ==> effective == ceiling
        }),
{
}

/// Waiting for a chain has at least the ceiling of a single wait.
pub proof fn law_chain_ceiling_is_higher(exec_timeout_secs: u64)
    ensures
        ceiling_of(exec_timeout_secs, true) >= ceiling_of(exec_timeout_secs, false),
        ceiling_of(exec_timeout_secs, false) >= exec_timeout_secs,
{
}

// ── Request ──────────────────────────────────────────────────────────────────

/// What is waited for, and for how long.
#[derive(Clone, Debug)]
pub struct WaitRequest {
    pub thread_id: String,
    pub intent: Option<String>,
    pub since_reference: Option<String>,
    pub strict_new: bool,
    pub timeout_secs: u64,
    /// Intents that only start work.
    pub trigger_intents: Vec<String>,
    pub await_chain: bool,
}

/// How the timeout of a wait came about.
#[derive(Clone, Copy, Debug, PartialEq, Eq, Structural)]
pub struct WaitLimits {
    pub requested: Option<u64>,
    pub ceiling: u64,
    pub effective: u64,
    pub clamped: bool,
}

/// The limits of a wait.
pub open spec fn limits_of(
    requested: Option<u64>,
    await_chain: Option<bool>,
    exec_timeout_secs: u64,
) -> WaitLimits {
    let ceiling = ceiling_of(exec_timeout_secs, await_chain == Some(true));
    let (effective, clamped) = resolved(requested, ceiling);
    WaitLimits { requested, ceiling, effective, clamped }
}

/// What a call of the tool waits for.
pub fn wait_request(
    params: WaitParams,
    exec_timeout_secs: u64,
    trigger_intents: Vec<String>,
) -> (r: (WaitRequest, WaitLimits))
    ensures
        r.1 == limits_of(params.timeout_secs, params.await_chain, exec_timeout_secs),
        r.0 == (WaitRequest {
            thread_id: params.thread_id,
            intent: params.intent,
            since_reference: params.since_reference,
            strict_new: params.strict_new == Some(true),
            timeout_secs: r.1.effective,
            trigger_intents,
            await_chain: params.await_chain == Some(true),
        }),
{
    let await_chain: bool = match params.await_chain {
        Some(b) => b,
        None => false,
    };
    let strict_new: bool = match params.strict_new {
        Some(b) => b,
        None => false,
    };
    let ceiling: u64 = compute_wait_ceiling(exec_timeout_secs, await_chain);
    let (effective, clamped): (u64, bool) = resolve_wait_timeout(params.timeout_secs, ceiling);
    let limits: WaitLimits = WaitLimits {
        requested: params.timeout_secs,
        ceiling,
        effective,
        clamped,
    };
    (
        WaitRequest {
            thread_id: params.thread_id,
            intent: params.intent,
            since_reference: params.since_reference,
            strict_new,
            timeout_secs: effective,
            trigger_intents,
            await_chain,
        },
        limits,
    )
}

/// The progress token of a wait whose client gave none.
pub fn progress_token(thread_id: &str) -> (r: String)
    ensures
        r@ == "orch-wait-"@ + thread_id@,
{
    cat("orch-wait-", thread_id)
}

/// The text of a progress notification.
pub fn progress_message(thread_id: &str, elapsed: u64, timeout_secs: u64) -> (r: String)
    ensures
        r@ == "waiting for message on thread "@ + thread_id@ + "... "@ + text::dec(elapsed as nat) + "/"@
            + text::dec(timeout_secs as nat) + "s"@,
{
    let mut s: String = cat3("waiting for message on thread ", thread_id, "... ");
    s.append(u64_text(elapsed).as_str());
    s.append("/");
    s.append(u64_text(timeout_secs).as_str());
    s.append("s");
    s
}

/// The progress that is reported next, after an interval: the seconds that were
/// reported last and the interval. Once a notification could not be sent, none
/// follows.
pub open spec fn report_after(elapsed: u64, interval_secs: u64, sent: bool) -> Option<u64> {
    if sent {
        Some(capped(elapsed + interval_secs))
    } else {
        None
    }
}

/// The progress that is reported next. Reporting starts with no seconds, as if
/// they had been sent.
pub fn next_report(elapsed: u64, interval_secs: u64, sent: bool) -> (r: Option<u64>)
    ensures
        r == report_after(elapsed, interval_secs, sent),
{
    if sent {
        Some(elapsed.saturating_add(interval_secs))
    } else {
        None
    }
}

/// The progress of the last of `n` notifications that were all sent.
pub open spec fn nth_report(interval_secs: u64, n: nat) -> u64
    decreases n,
{
    if n == 0 {
        0
    } else {
        match report_after(nth_report(interval_secs, (n - 1) as nat), interval_secs, true) {
            Some(elapsed) => elapsed,
            None => 0,
        }
    }
}

/// The n-th notification reports n intervals, or the largest number of seconds if
/// they are beyond that.
pub proof fn law_reports_count_intervals(interval_secs: u64, n: nat)
    ensures
        nth_report(interval_secs, n) == capped(n * interval_secs),
    decreases n,
{
    if n == 0 {
        assert(n * interval_secs == 0) by (nonlinear_arith)
            requires
                n == 0,
        ;
    } else {
        let m = (n - 1) as nat;
        law_reports_count_intervals(interval_secs, m);
        assert(n * interval_secs == m * interval_secs + interval_secs && m * interval_secs >= 0)
            by (nonlinear_arith)
            requires
                n == m + 1,
                interval_secs >= 0,
        ;
    }
}

// ── Answer ───────────────────────────────────────────────────────────────────

/// What a wait came to.
#[derive(Clone, Debug)]
pub enum WaitOutcome {
    Found {
        message: MessageRow,
        fanout_children_awaited: Option<u32>,
        settled_at: Option<i64>,
    },
    Timeout {
        thread_id: String,
        timeout_secs: u64,
        intent_filter: Option<String>,
        chain_pending: bool,
    },
}

/// The answer when a message came.
#[derive(Clone, Debug)]
pub struct WaitResult {
    pub found: bool,
    pub message_id: i64,
    pub reference: String,
    pub from: String,
    pub to: String,
    pub intent: String,
    pub body: String,
    pub thread_id: String,
    pub created_at: i64,
    pub fanout_children_awaited: Option<u32>,
    pub settled_at: Option<i64>,
}

/// The answer when none came in time.
#[derive(Clone, Debug)]
pub struct WaitTimeout {
    pub found: bool,
    pub thread_id: String,
    pub timeout_secs: u64,
    pub intent_filter: Option<String>,
    pub chain_pending: bool,
    pub effective_timeout_secs: Option<u64>,
    pub requested_timeout_secs: Option<u64>,
    pub clamped: bool,
    pub hint: Option<String>,
}

/// The answer of the tool.
#[derive(Clone, Debug)]
pub enum WaitAnswer {
    Found(WaitResult),
    Timeout(WaitTimeout),
}

/// What is said to a caller who asked for more than the ceiling.
pub open spec fn clamp_hint(limits: WaitLimits) -> Option<Seq<char>> {
    if limits.clamped {
        Some(
            "Requested timeout "@ + text::dec(
                match limits.requested {
                    Some(r) => r as nat,
                    None => 0,
                },
            ) + "s was clamped to server ceiling "@ + text::dec(limits.ceiling as nat)
                + "s (derived from execution_timeout_secs). Re-issue orch_wait to continue waiting."@,
        )
    } else {
        None
    }
}

fn hint(limits: &WaitLimits) -> (r: Option<String>)
    ensures
        text::opt_text(r) == clamp_hint(*limits),
{
    if limits.clamped {
        let asked: u64 = match limits.requested {
            Some(r) => r,
            None => 0,
        };
        let mut s: String = cat3(
            "Requested timeout ",
            u64_text(asked).as_str(),
            "s was clamped to server ceiling ",
        );
        s.append(u64_text(limits.ceiling).as_str());
        s.append(
            "s (derived from execution_timeout_secs). Re-issue orch_wait to continue waiting.",
        );
        Some(s)
    } else {
        None
    }
}

/// What the tool answers once the wait has ended.
pub fn wait_answer(limits: &WaitLimits, outcome: Result<WaitOutcome, String>) -> (r: Result<
    WaitAnswer,
    String,
>)
    ensures
        match outcome {
            Ok(WaitOutcome::Found { message, fanout_children_awaited, settled_at }) => {
                &&& r matches Ok(WaitAnswer::Found(f))
                &&& f.found
                &&& f.message_id == message.id
                &&& f.reference@ == store::reference_text(message.id)
                &&& f.from == message.from_alias
                &&& f.to == message.to_alias
                &&& f.intent == message.intent
                &&& f.body == message.body
                &&& f.thread_id == message.thread_id
                &&& f.created_at == message.created_at
                &&& f.fanout_children_awaited == fanout_children_awaited
                &&& f.settled_at == settled_at
            },
            Ok(WaitOutcome::Timeout { thread_id, timeout_secs, intent_filter, chain_pending }) => {
                &&& r matches Ok(WaitAnswer::Timeout(t))
                &&& !t.found
                &&& t.thread_id == thread_id
                &&& t.timeout_secs == timeout_secs
                &&& t.intent_filter == intent_filter
                &&& t.chain_pending == chain_pending
                &&& t.clamped == limits.clamped
                &&& t.effective_timeout_secs == if limits.clamped {
                    Some(timeout_secs)
                } else {
                    None
                }
                &&& t.requested_timeout_secs == if limits.clamped {
                    limits.requested
                } else {
                    None
                }
                &&& text::opt_text(t.hint) == clamp_hint(*limits)
            },
            Err(e) => r == Err::<WaitAnswer, String>(e),
        },
{
    match outcome {
        Ok(WaitOutcome::Found { message, fanout_children_awaited, settled_at }) => Ok(
            WaitAnswer::Found(
                WaitResult {
                    found: true,
                    message_id: message.id,
                    reference: message_ref(message.id),
                    from: message.from_alias,
                    to: message.to_alias,
                    intent: message.intent,
                    body: message.body,
                    thread_id: message.thread_id,
                    created_at: message.created_at,
                    fanout_children_awaited,
                    settled_at,
                },
            ),
        ),
        Ok(WaitOutcome::Timeout { thread_id, timeout_secs, intent_filter, chain_pending }) => Ok(
            WaitAnswer::Timeout(
                WaitTimeout {
                    found: false,
                    thread_id,
                    timeout_secs,
                    intent_filter,
                    chain_pending,
                    effective_timeout_secs: if limits.clamped {
                        Some(timeout_secs)
                    } else {
                        None
                    },
                    requested_timeout_secs: if limits.clamped {
                        limits.requested
                    } else {
                        None
                    },
                    clamped: limits.clamped,
                    hint: hint(limits),
                },
            ),
        ),
        Err(e) => Err(e),
    }
}

/// How long a wait may last: half a minute more than an execution may, or than
/// three may where a chain is awaited. It lasts as long as was asked for if that is
/// less, and the limits say whether it was cut and what was asked for.
pub proof fn law_limits_of_a_wait(
    requested: Option<u64>,
    await_chain: Option<bool>,
    exec_timeout_secs: u64,
)
    requires
        exec_timeout_secs * 3 + 30 <= u64::MAX,
    ensures
        ({
            let l = limits_of(requested, await_chain, exec_timeout_secs);
            &&& await_chain == Some(true) ==> l.ceiling == exec_timeout_secs * 3 + 30
            &&& await_chain != Some(true) ==> l.ceiling == exec_timeout_secs + 30
            &&& l.requested == requested
            &&& requested is None ==> l.effective == l.ceiling && !l.clamped
            &&& requested matches Some(r) ==> (r <= l.ceiling ==> l.effective == r && !l.clamped)
            &&& requested matches Some(r) ==> (r > l.ceiling ==> l.effective == l.ceiling
                && l.clamped)
        }),
{
}

/// A hint is given if and only if the wait was cut, and names what was asked for
/// and what was granted.
pub proof fn law_hint_names_both_times(limits: WaitLimits)
    ensures
        clamp_hint(limits) is Some <==> limits.clamped,
        limits.clamped ==> (limits.requested matches Some(r) ==> clamp_hint(limits) == Some(
            "Requested timeout "@ + text::dec(r as nat) + "s was clamped to server ceiling "@
                + text::dec(limits.ceiling as nat)
                + "s (derived from execution_timeout_secs). Re-issue orch_wait to continue waiting."@,
        )),
{
}

/// A report follows only one that was sent, and reports later seconds.
pub proof fn law_reports_go_on_while_sent(elapsed: u64, interval_secs: u64, sent: bool)
    ensures
        report_after(elapsed, interval_secs, sent) is Some <==> sent,
        sent && elapsed + interval_secs <= u64::MAX ==> report_after(elapsed, interval_secs, sent)
            == Some((elapsed + interval_secs) as u64),
{
}

} // verus!
