//! Parameters of the MCP tools.
use crate::json::Json;
use crate::text::{cat, parse_u64};
use crate::text;
use vstd::prelude::*;

verus! {

// ── Lenient numbers ──────────────────────────────────────────────────────────

/// What is said of a text that is no number.
pub open spec fn bad_number_text(s: Seq<char>) -> Seq<char> {
    "invalid u64 string: "@ + s
}

/// What is said of a value that is neither a number nor a text.
pub open spec fn no_variant_text() -> Seq<char> {
    "data did not match any variant of untagged enum StringOrU64"@
}

/// The number that a parameter stands for. Numbers may come as numbers or as
/// texts; a missing parameter and `null` mean none.
pub open spec fn lenient(value: Option<Json>) -> Result<Option<u64>, Seq<char>> {
    match value {
        None | Some(Json::Null) => Ok(None),
        Some(Json::Number(t)) => match text::read_u64(t@) {
            Some(n) => Ok(Some(n)),
            None => Err(no_variant_text()),
        },
        Some(Json::Str(s)) => match text::read_u64(s@) {
            Some(n) => Ok(Some(n)),
            None => Err(bad_number_text(s@)),
        },
        Some(_) => Err(no_variant_text()),
    }
}

/// The value of an optional reference.
pub open spec fn pointed(value: Option<&Json>) -> Option<Json> {
    match value {
        Some(v) => Some(*v),
        None => None,
    }
}

/// The number that a parameter stands for.
pub fn option_u64_lenient(value: Option<&Json>) -> (r: Result<Option<u64>, String>)
    ensures
        match r {
            Ok(n) => lenient(pointed(value)) == Ok::<Option<u64>, Seq<char>>(n),
            Err(e) => lenient(pointed(value)) == Err::<Option<u64>, Seq<char>>(e@),
        },
{
    match value {
        None => Ok(None),
        Some(Json::Null) => Ok(None),
        Some(Json::Number(t)) => match parse_u64(t.as_str()) {
            Some(n) => Ok(Some(n)),
            None => Err("data did not match any variant of untagged enum StringOrU64".to_owned()),
        },
        Some(Json::Str(s)) => match parse_u64(s.as_str()) {
            Some(n) => Ok(Some(n)),
            None => Err(cat("invalid u64 string: ", s.as_str())),
        },
        Some(_) => Err("data did not match any variant of untagged enum StringOrU64".to_owned()),
    }
}

/// A number reads the same whether it comes as a number or as its text.
pub proof fn law_lenient_forms_agree(number: String, text: String)
    requires
        number@ == text@,
        text::read_u64(number@) is Some,
    ensures
        lenient(Some(Json::Number(number))) == lenient(Some(Json::Str(text))),
        lenient(Some(Json::Number(number))) is Ok,
{
}

// ── Parameters ───────────────────────────────────────────────────────────────

#[derive(Clone, Debug)]
pub struct DispatchParams {
    /// Who sends.
    pub from: String,
    /// Who receives.
    pub to: String,
    pub body: String,
    pub batch: Option<String>,
    pub intent: String,
    /// The thread to continue; a new one if it is missing.
    pub thread_id: Option<String>,
    pub summary: Option<String>,
    /// When the work may start, as an ISO 8601 timestamp.
    pub scheduled_for: Option<String>,
    /// Whether the response must not be handed on.
    pub skip_handoff: Option<bool>,
}

#[derive(Clone, Debug)]
pub struct StatusParams {
    pub agent: Option<String>,
    pub thread_id: Option<String>,
}

#[derive(Clone, Debug)]
pub struct TranscriptParams {
    pub thread_id: String,
}

#[derive(Clone, Debug)]
pub struct CloseParams {
    pub thread_id: String,
    pub from: String,
    pub status: CloseStatus,
    pub note: Option<String>,
}

/// How a thread is closed, as the tool takes it.
#[derive(Clone, Copy, Debug, PartialEq, Eq, Structural)]
pub enum CloseStatus {
    Completed,
    Failed,
}

#[derive(Clone, Debug)]
pub struct ReadParams {
    /// `db:` and an id, or the id alone.
    pub reference: String,
}

#[derive(Clone, Debug)]
pub struct HealthParams {
    pub alias: Option<String>,
}

#[derive(Clone, Debug)]
pub struct TasksParams {
    pub alias: Option<String>,
    pub batch_id: Option<String>,
    /// 20 if it is missing.
    pub limit: Option<usize>,
    /// `scheduled` for the executions that wait for their time.
    pub filter: Option<String>,
}

#[derive(Clone, Debug)]
pub struct DiagnoseParams {
    pub thread_id: String,
}

#[derive(Clone, Debug)]
pub struct WaitParams {
    pub thread_id: String,
    pub intent: Option<String>,
    /// Only newer messages count.
    pub since_reference: Option<String>,
    /// Whether only messages from the call on count.
    pub strict_new: Option<bool>,
    pub timeout_secs: Option<u64>,
    /// Whether to wait until the whole chain has settled.
    pub await_chain: Option<bool>,
}

#[derive(Clone, Debug)]
pub struct PollParams {
    pub thread_id: String,
    pub intent: Option<String>,
    pub since_reference: Option<String>,
}

#[derive(Clone, Debug)]
pub struct BatchStatusParams {
    pub batch_id: String,
}

#[derive(Clone, Debug)]
pub struct AbandonParams {
    pub thread_id: String,
}

#[derive(Clone, Debug)]
pub struct AbandonBatchParams {
    pub batch_id: String,
}

#[derive(Clone, Debug)]
pub struct ReopenParams {
    pub thread_id: String,
}

#[derive(Clone, Debug)]
pub struct WorktreesParams {
    pub thread_id: Option<String>,
}

#[derive(Clone, Debug)]
pub struct ExecutionEventsParams {
    pub execution_id: String,
    /// Milliseconds since the epoch.
    pub since_timestamp: Option<i64>,
    pub since_event_index: Option<i32>,
    /// 100 if it is missing, 1000 at most.
    pub limit: Option<i64>,
}

#[derive(Clone, Debug)]
pub struct ReadLogParams {
    pub execution_id: String,
    /// The first line, from zero on.
    pub offset: Option<u64>,
    /// 200 if it is missing, 1000 at most.
    pub limit: Option<u64>,
    /// Whether the last lines are wanted.
    pub tail: Option<bool>,
}

#[derive(Clone, Debug)]
pub struct ToolStatsParams {
    pub agent_alias: Option<String>,
}

#[derive(Clone, Debug)]
pub struct MergeParams {
    pub thread_id: String,
    /// `main` if it is missing.
    pub target_branch: Option<String>,
    pub strategy: Option<String>,
    pub from: String,
}

#[derive(Clone, Debug)]
pub struct MergeStatusParams {
    pub op_id: Option<String>,
    pub target_branch: Option<String>,
    pub thread_id: Option<String>,
}

#[derive(Clone, Debug)]
pub struct MergeCancelParams {
    pub op_id: String,
}

#[derive(Clone, Debug)]
pub struct WaitMergeParams {
    pub op_id: String,
    /// 120 if it is missing.
    pub timeout_secs: Option<u64>,
}

#[derive(Clone, Debug)]
pub struct CommitParams {
    pub thread_id: String,
    pub message: String,
}

/// A number may be missing, a number, or a text that holds one; anything else is
/// refused, and a text that holds none is named.
pub proof fn law_lenient_numbers(n: u64, number: String, s: String, b: bool, items: Vec<Json>)
    ensures
        lenient(None) == Ok::<Option<u64>, Seq<char>>(None),
        lenient(Some(Json::Null)) == Ok::<Option<u64>, Seq<char>>(None),
        number@ == text::dec(n as nat) ==> lenient(Some(Json::Number(number))) == Ok::<
            Option<u64>,
            Seq<char>,
        >(Some(n)) && lenient(Some(Json::Str(number))) == Ok::<Option<u64>, Seq<char>>(Some(n)),
        text::read_u64(s@) is None ==> lenient(Some(Json::Str(s))) == Err::<Option<u64>, Seq<char>>(
            "invalid u64 string: "@ + s@,
        ),
        text::read_u64(s@) is None ==> lenient(Some(Json::Number(s))) == Err::<
            Option<u64>,
            Seq<char>,
        >("data did not match any variant of untagged enum StringOrU64"@),
        lenient(Some(Json::Bool(b))) is Err,
        lenient(Some(Json::Array(items))) is Err,
{
    text::law_numbers_round_trip(n, 0);
}

} // verus!
