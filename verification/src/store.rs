//! Rows as the store hands them out.
use crate::json::parse_string_list;
use crate::json;
use crate::text::{
    cat, cat3, chars_of, i64_text, opt_copy, parse_i64, starts_with, str_eq, string_of,
};
use crate::text;
use vstd::prelude::*;

verus! {

/// Lifecycle status of a thread.
#[derive(Clone, Copy, Debug, PartialEq, Eq, Structural)]
pub enum ThreadStatus {
    Active,
    Completed,
    Failed,
    Abandoned,
}

impl ThreadStatus {
    /// The stored text of the status.
    pub open spec fn text(self) -> Seq<char> {
        match self {
            ThreadStatus::Active => "Active"@,
            ThreadStatus::Completed => "Completed"@,
            ThreadStatus::Failed => "Failed"@,
            ThreadStatus::Abandoned => "Abandoned"@,
        }
    }

    /// Completed, failed or abandoned.
    pub open spec fn terminal(self) -> bool {
        self != ThreadStatus::Active
    }

    /// The stored text of the status.
    pub fn as_str(&self) -> (r: &'static str)
        ensures
            r@ == self.text(),
    {
        match self {
            ThreadStatus::Active => "Active",
            ThreadStatus::Completed => "Completed",
            ThreadStatus::Failed => "Failed",
            ThreadStatus::Abandoned => "Abandoned",
        }
    }

    /// Whether the thread takes no more work.
    pub fn is_terminal(&self) -> (r: bool)
        ensures
            r == self.terminal(),
    {
        match self {
            ThreadStatus::Active => false,
            _ => true,
        }
    }

    /// The status that `s` is the text of.
    pub open spec fn parsed(s: Seq<char>) -> Option<ThreadStatus> {
        if s == "Active"@ {
            Some(ThreadStatus::Active)
        } else if s == "Completed"@ {
            Some(ThreadStatus::Completed)
        } else if s == "Failed"@ {
            Some(ThreadStatus::Failed)
        } else if s == "Abandoned"@ {
            Some(ThreadStatus::Abandoned)
        } else {
            None
        }
    }

    /// The status that `s` is the text of.
    pub fn parse(s: &str) -> (r: Option<ThreadStatus>)
        ensures
            r == ThreadStatus::parsed(s@),
    {
        if str_eq(s, "Active") {
            Some(ThreadStatus::Active)
        } else if str_eq(s, "Completed") {
            Some(ThreadStatus::Completed)
        } else if str_eq(s, "Failed") {
            Some(ThreadStatus::Failed)
        } else if str_eq(s, "Abandoned") {
            Some(ThreadStatus::Abandoned)
        } else {
            None
        }
    }
}

/// Reading back the text of a status gives the status.
pub proof fn law_status_round_trip(status: ThreadStatus)
    ensures
        ThreadStatus::parsed(status.text()) == Some(status),
{
    reveal_strlit("Active");
    reveal_strlit("Completed");
    reveal_strlit("Failed");
    reveal_strlit("Abandoned");
    assert("Active"@.len() == 6);
    assert("Completed"@.len() == 9 && "Completed"@[0] == 'C');
    assert("Failed"@.len() == 6 && "Failed"@[0] == 'F' && "Active"@[0] == 'A');
    assert("Abandoned"@.len() == 9 && "Abandoned"@[0] == 'A');
}

/// What is said of a text that is no thread status.
pub open spec fn unknown_status_text(s: Seq<char>) -> Seq<char> {
    "unknown thread status: "@ + s
}

/// What is said of a text that is no thread status.
pub fn unknown_status(s: &str) -> (r: String)
    ensures
        r@ == unknown_status_text(s@),
{
    cat("unknown thread status: ", s)
}

/// A thread.
#[derive(Clone, Debug)]
pub struct ThreadRow {
    pub thread_id: String,
    pub batch_id: Option<String>,
    pub summary: Option<String>,
    pub status: String,
    pub created_at: i64,
    pub updated_at: i64,
}

/// A thread with its latest execution.
#[derive(Clone, Debug)]
pub struct ThreadStatusView {
    pub thread_id: String,
    pub batch_id: Option<String>,
    pub summary: Option<String>,
    pub thread_status: String,
    pub thread_created_at: i64,
    pub thread_updated_at: i64,
    pub execution_id: Option<String>,
    pub agent_alias: Option<String>,
    pub execution_status: Option<String>,
    pub queued_at: Option<i64>,
    pub started_at: Option<i64>,
    pub finished_at: Option<i64>,
    pub duration_ms: Option<i64>,
    pub error_detail: Option<String>,
    pub parsed_intent: Option<String>,
    pub prompt_hash: Option<String>,
    pub eligible_at: Option<i64>,
    pub eligible_reason: Option<String>,
}

/// An execution.
#[derive(Clone, Debug)]
pub struct ExecutionRow {
    pub id: String,
    pub thread_id: String,
    pub batch_id: Option<String>,
    pub agent_alias: String,
    pub dispatch_message_id: Option<i64>,
    pub status: String,
    pub queued_at: i64,
    pub picked_up_at: Option<i64>,
    pub started_at: Option<i64>,
    pub finished_at: Option<i64>,
    pub duration_ms: Option<i64>,
    pub exit_code: Option<i32>,
    pub output_preview: Option<String>,
    pub error_detail: Option<String>,
    pub parsed_intent: Option<String>,
    pub prompt_hash: Option<String>,
    pub attempt_number: i32,
    pub retry_after: Option<i64>,
    pub error_category: Option<String>,
    pub original_dispatch_message_id: Option<i64>,
    pub pid: Option<i64>,
    pub eligible_at: Option<i64>,
    pub eligible_reason: Option<String>,
}

impl ExecutionRow {
    /// A copy of the row.
    pub fn duplicate(&self) -> (r: ExecutionRow)
        ensures
            r == *self,
    {
        ExecutionRow {
            id: self.id.clone(),
            thread_id: self.thread_id.clone(),
            batch_id: opt_copy(&self.batch_id),
            agent_alias: self.agent_alias.clone(),
            dispatch_message_id: self.dispatch_message_id,
            status: self.status.clone(),
            queued_at: self.queued_at,
            picked_up_at: self.picked_up_at,
            started_at: self.started_at,
            finished_at: self.finished_at,
            duration_ms: self.duration_ms,
            exit_code: self.exit_code,
            output_preview: opt_copy(&self.output_preview),
            error_detail: opt_copy(&self.error_detail),
            parsed_intent: opt_copy(&self.parsed_intent),
            prompt_hash: opt_copy(&self.prompt_hash),
            attempt_number: self.attempt_number,
            retry_after: self.retry_after,
            error_category: opt_copy(&self.error_category),
            original_dispatch_message_id: self.original_dispatch_message_id,
            pid: self.pid,
            eligible_at: self.eligible_at,
            eligible_reason: opt_copy(&self.eligible_reason),
        }
    }
}

/// An event of an execution.
#[derive(Clone, Debug)]
pub struct ExecutionEventRow {
    pub id: i64,
    pub execution_id: String,
    pub event_type: String,
    pub summary: String,
    pub detail: Option<String>,
    pub timestamp_ms: i64,
    pub event_index: i32,
    pub tool_name: Option<String>,
}

/// A message of a thread.
#[derive(Clone, Debug)]
pub struct MessageRow {
    pub id: i64,
    pub thread_id: String,
    pub from_alias: String,
    pub to_alias: String,
    pub intent: String,
    pub body: String,
    pub batch_id: Option<String>,
    pub created_at: i64,
}

/// A queued or finished merge.
#[derive(Clone, Debug)]
pub struct MergeOperation {
    pub id: String,
    pub thread_id: String,
    pub source_branch: String,
    pub target_branch: String,
    pub merge_strategy: String,
    pub requested_by: String,
    pub status: String,
    pub push_requested: bool,
    pub queued_at: i64,
    pub claimed_at: Option<i64>,
    pub started_at: Option<i64>,
    pub finished_at: Option<i64>,
    pub duration_ms: Option<i64>,
    pub result_summary: Option<String>,
    pub error_detail: Option<String>,
    pub conflict_files: Option<String>,
    pub commit_message: Option<String>,
}

/// Token totals of an agent. The cost is carried as its display text.
#[derive(Clone, Debug)]
pub struct AgentCostSummary {
    pub agent_alias: String,
    pub cost_text: String,
    /// The cost in US dollars, as the bits of a double.
    pub cost_bits: u64,
    pub total_tokens_in: i64,
    pub total_tokens_out: i64,
    pub execution_count: i64,
}

/// Token and cost totals. The cost is carried as its display text.
#[derive(Clone, Debug)]
pub struct CostSummary {
    /// Whether any cost was recorded.
    pub has_cost: bool,
    /// The total cost as shown, such as `$1.23`.
    pub cost_text: String,
    pub total_tokens_in: i64,
    pub total_tokens_out: i64,
}

// ── Message references ───────────────────────────────────────────────────────

/// The reference to a message.
pub open spec fn reference_text(id: i64) -> Seq<char> {
    "db:"@ + text::dec_int(id as int)
}

/// The reference to a message.
pub fn message_ref(id: i64) -> (r: String)
    ensures
        r@ == reference_text(id),
{
    cat("db:", i64_text(id).as_str())
}

/// The message that a reference names: `db:` and its id, or the id alone.
pub open spec fn reference_id(s: Seq<char>) -> Option<i64> {
    if s.len() >= 3 && s.take(3) == "db:"@ {
        text::read_i64(s.skip(3))
    } else {
        text::read_i64(s)
    }
}

/// What is said of a text that is no reference.
pub open spec fn bad_reference_text(s: Seq<char>) -> Seq<char> {
    "invalid message reference '"@ + s + "': expected db:<id> or a numeric id"@
}

/// The message that a reference names.
pub fn parse_message_ref(s: &str) -> (r: Result<i64, String>)
    ensures
        match r {
            Ok(id) => reference_id(s@) == Some(id),
            Err(e) => reference_id(s@) is None && e@ == bad_reference_text(s@),
        },
{
    let id: Option<i64> = if starts_with(s, "db:") {
        let v: Vec<char> = chars_of(s);
        proof {
            reveal_strlit("db:");
            assert(s@.take(3) =~= "db:"@);
            assert(s@.subrange(3, s@.len() as int) =~= s@.skip(3));
        }
        parse_i64(string_of(&v, 3, v.len()).as_str())
    } else {
        proof {
            reveal_strlit("db:");
            if s@.len() >= 3 && s@.take(3) == "db:"@ {
                assert(text::occurs_at(s@, "db:"@, 0)) by {
                    assert(s@.subrange(0, 3) =~= s@.take(3));
                }
            }
        }
        parse_i64(s)
    };
    match id {
        Some(id) => Ok(id),
        None => Err(
            cat3("invalid message reference '", s, "': expected db:<id> or a numeric id"),
        ),
    }
}

/// Reading back the reference to a message gives the message.
pub proof fn law_reference_round_trip(id: i64)
    ensures
        reference_id(reference_text(id)) == Some(id),
        reference_id(text::dec_int(id as int)) == Some(id),
{
    reveal_strlit("db:");
    let t = text::dec_int(id as int);
    let s = reference_text(id);
    assert(s.take(3) =~= "db:"@);
    assert(s.skip(3) =~= t);
    if id >= 0 {
        text::lemma_dec_value(id as nat);
        assert(t == text::dec(id as nat));
    } else {
        reveal_strlit("-");
        text::lemma_dec_value((-(id as int)) as nat);
        assert(t.skip(1) =~= text::dec((-(id as int)) as nat));
    }
    assert(text::read_i64(t) == Some(id));
    assert(t[0] != 'd');
    if t.len() >= 3 && t.take(3) == "db:"@ {
        assert(t.take(3)[0] == 'd');
    }
}

// ── Conflicts ────────────────────────────────────────────────────────────────

/// The files in conflict of a merge: a stored list that can be read.
pub open spec fn conflicts_of(op: MergeOperation) -> Option<Seq<Seq<char>>> {
    match op.conflict_files {
        Some(t) => json::json_string_list(t@),
        None => None,
    }
}

/// The files in conflict of a merge.
pub fn read_conflicts(op: &MergeOperation) -> (r: Option<Vec<String>>)
    ensures
        text::opt_texts(r) == conflicts_of(*op),
{
    match &op.conflict_files {
        Some(t) => parse_string_list(t.as_str()),
        None => None,
    }
}

/// A status is read from its four texts alone, and a thread has ended in every
/// status but `Active`.
pub proof fn law_statuses(s: Seq<char>)
    ensures
        ThreadStatus::parsed(s) is Some <==> (s == "Active"@ || s == "Completed"@ || s == "Failed"@
            || s == "Abandoned"@),
        ThreadStatus::parsed(s) == Some(ThreadStatus::Active) <==> s == "Active"@,
        ThreadStatus::parsed(s) == Some(ThreadStatus::Completed) <==> s == "Completed"@,
        ThreadStatus::parsed(s) == Some(ThreadStatus::Failed) <==> s == "Failed"@,
        ThreadStatus::parsed(s) == Some(ThreadStatus::Abandoned) <==> s == "Abandoned"@,
        (ThreadStatus::parsed(s) matches Some(t) && t.terminal()) <==> (s == "Completed"@ || s
            == "Failed"@ || s == "Abandoned"@),
        ThreadStatus::Active.text() == "Active"@,
        ThreadStatus::Completed.text() == "Completed"@,
        ThreadStatus::Failed.text() == "Failed"@,
        ThreadStatus::Abandoned.text() == "Abandoned"@,
{
    law_status_round_trip(ThreadStatus::Active);
    law_status_round_trip(ThreadStatus::Completed);
    law_status_round_trip(ThreadStatus::Failed);
    law_status_round_trip(ThreadStatus::Abandoned);
}

/// A reference is `db:` and a number, or the number alone; nothing else is one.
pub proof fn law_references(s: Seq<char>)
    ensures
        reference_id("db:"@ + s) == text::read_i64(s),
        s.len() < 3 ==> reference_id(s) == text::read_i64(s),
        bad_reference_text(s) == "invalid message reference '"@ + s
            + "': expected db:<id> or a numeric id"@,
        unknown_status_text(s) == "unknown thread status: "@ + s,
{
    reveal_strlit("db:");
    assert(("db:"@ + s).take(3) =~= "db:"@);
    assert(("db:"@ + s).skip(3) =~= s);
}

/// The conflicts of a merge are the list that it keeps, none where it keeps none.
pub proof fn law_conflicts_that_are_kept(op: MergeOperation)
    ensures
        op.conflict_files is None ==> conflicts_of(op) is None,
        op.conflict_files matches Some(t) ==> conflicts_of(op) == json::json_string_list(t@),
{
}

} // verus!
