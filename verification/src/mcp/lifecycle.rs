//! Closing and abandoning threads, as the tools do it.
use crate::lifecycle::{AbandonBatchOutcome, CloseRequest};
use crate::mcp::params::{CloseParams, CloseStatus};
use crate::text::cat3;
use vstd::prelude::*;

verus! {

/// The request behind a call of the close tool.
pub fn close_request(params: CloseParams) -> (r: CloseRequest)
    ensures
        r.thread_id == params.thread_id,
        r.from == params.from,
        r.note == params.note,
        r.status == match params.status {
            CloseStatus::Completed => crate::lifecycle::CloseStatus::Completed,
            CloseStatus::Failed => crate::lifecycle::CloseStatus::Failed,
        },
{
    CloseRequest {
        thread_id: params.thread_id,
        from: params.from,
        status: match params.status {
            CloseStatus::Completed => crate::lifecycle::CloseStatus::Completed,
            CloseStatus::Failed => crate::lifecycle::CloseStatus::Failed,
        },
        note: params.note,
    }
}

/// What the tool answers once a batch was abandoned. A batch without threads is
/// an error; one whose threads could not be abandoned is not.
pub fn abandon_batch_answer(batch_id: &str, outcome: AbandonBatchOutcome) -> (r: Result<
    AbandonBatchOutcome,
    String,
>)
    ensures
        ({
            let empty = outcome.threads_abandoned == 0 && outcome.threads_already_terminal == 0
                && outcome.errors@.len() == 0;
            match r {
                Ok(o) => !empty && o == outcome,
                Err(e) => empty && e@ == "No threads found for batch '"@ + batch_id@
                    + "'. Check the batch_id with orch_batch_status."@,
            }
        }),
{
    if outcome.threads_abandoned == 0 && outcome.threads_already_terminal == 0
        && outcome.errors.len() == 0 {
        Err(
            cat3(
                "No threads found for batch '",
                batch_id,
                "'. Check the batch_id with orch_batch_status.",
            ),
        )
    } else {
        Ok(outcome)
    }
}

} // verus!
