//! Outbox records, their errors, and the protocol's transition table.

use vstd::prelude::*;

use crate::text::{concat_str, i64_to_decimal, signed_decimal, str_equal};

verus! {

/// Why an outbox operation was refused.
#[derive(Debug, PartialEq, Eq)]
pub enum OutboxError {
    Validation(String),
    NotFound,
    RevisionConflict { expected: i64, actual: i64 },
    InvalidTransition { from: String, to: String },
    IdempotencyConflict,
    Persistence(String),
}

/// The human-readable message of an outbox error.
pub open spec fn error_message(e: OutboxError) -> Seq<char> {
    match e {
        OutboxError::Validation(msg) => "Validation error: "@ + msg@,
        OutboxError::NotFound => "Outbox record not found"@,
        OutboxError::RevisionConflict { expected, actual } => "Revision conflict: expected "@
            + signed_decimal(expected as int) + ", got "@ + signed_decimal(actual as int),
        OutboxError::InvalidTransition { from, to } => "Illegal state transition from '"@ + from@
            + "' to '"@ + to@ + "'"@,
        OutboxError::IdempotencyConflict => "Idempotency key reused with different payload"@,
        OutboxError::Persistence(msg) => "Storage persistence error: "@ + msg@,
    }
}

impl OutboxError {
    /// The error's message, as its display form reads.
    pub fn message(&self) -> (r: String)
        ensures
            r@ == error_message(*self),
    {
        match self {
            OutboxError::Validation(msg) => concat_str("Validation error: ", msg.as_str()),
            OutboxError::NotFound => String::from_str("Outbox record not found"),
            OutboxError::RevisionConflict { expected, actual } => {
                let e = i64_to_decimal(*expected);
                let a = i64_to_decimal(*actual);
                let mut r = concat_str("Revision conflict: expected ", e.as_str());
                r.append(", got ");
                r.append(a.as_str());
                r
            },
            OutboxError::InvalidTransition { from, to } => {
                let mut r = concat_str("Illegal state transition from '", from.as_str());
                r.append("' to '");
                r.append(to.as_str());
                r.append("'");
                r
            },
            OutboxError::IdempotencyConflict => String::from_str(
                "Idempotency key reused with different payload",
            ),
            OutboxError::Persistence(msg) => concat_str("Storage persistence error: ", msg.as_str()),
        }
    }
}

/// The result of an outbox operation.
pub type OutboxResult<T> = Result<T, OutboxError>;

/// One task dispatched to the cloud, as the outbox tracks it.
#[derive(Debug, Clone)]
pub struct OutboxRecord {
    pub desktop_request_id: String,
    pub matter_id: String,
    pub task_hash: String,
    pub state: String,
    pub revision: i64,
    pub cloud_run_id: Option<String>,
    pub result_reference: Option<String>,
    pub result_hash: Option<String>,
    pub created_at: String,
    pub updated_at: String,
}

/// An outbox record as plain values.
pub struct RecordView {
    pub desktop_request_id: Seq<char>,
    pub matter_id: Seq<char>,
    pub task_hash: Seq<char>,
    pub state: Seq<char>,
    pub revision: i64,
    pub cloud_run_id: Option<Seq<char>>,
    pub result_reference: Option<Seq<char>>,
    pub result_hash: Option<Seq<char>>,
    pub created_at: Seq<char>,
    pub updated_at: Seq<char>,
}

/// The view of an optional string.
pub open spec fn opt_view(o: Option<String>) -> Option<Seq<char>> {
    match o {
        Some(s) => Some(s@),
        None => None,
    }
}

impl View for OutboxRecord {
    type V = RecordView;

    open spec fn view(&self) -> RecordView {
        RecordView {
            desktop_request_id: self.desktop_request_id@,
            matter_id: self.matter_id@,
            task_hash: self.task_hash@,
            state: self.state@,
            revision: self.revision,
            cloud_run_id: opt_view(self.cloud_run_id),
            result_reference: opt_view(self.result_reference),
            result_hash: opt_view(self.result_hash),
            created_at: self.created_at@,
            updated_at: self.updated_at@,
        }
    }
}

fn copy_opt(o: &Option<String>) -> (r: Option<String>)
    ensures
        opt_view(r) == opt_view(*o),
{
    match o {
        Some(s) => Some(s.clone()),
        None => None,
    }
}

impl OutboxRecord {
    /// An independent copy of the record.
    pub fn snapshot(&self) -> (r: OutboxRecord)
        ensures
            r@ == self@,
    {
        OutboxRecord {
            desktop_request_id: self.desktop_request_id.clone(),
            matter_id: self.matter_id.clone(),
            task_hash: self.task_hash.clone(),
            state: self.state.clone(),
            revision: self.revision,
            cloud_run_id: copy_opt(&self.cloud_run_id),
            result_reference: copy_opt(&self.result_reference),
            result_hash: copy_opt(&self.result_hash),
            created_at: self.created_at.clone(),
            updated_at: self.updated_at.clone(),
        }
    }
}

/// States from which no transition leads anywhere.
pub open spec fn is_terminal_state(s: Seq<char>) -> bool {
    s == "acknowledged"@ || s == "failed"@ || s == "cancelled"@ || s == "expired"@
}

/// The protocol's forward steps between two named states.
pub open spec fn is_listed_step(from: Seq<char>, to: Seq<char>) -> bool {
    ||| from == "local_created"@ && to == "admission_pending"@
    ||| from == "admission_pending"@ && to == "admitted"@
    ||| from == "admitted"@ && to == "staging"@
    ||| from == "staging"@ && to == "submitted"@
    ||| from == "submitted"@ && to == "cloud_running"@
    ||| from == "submitted"@ && to == "awaiting_approval"@
    ||| from == "cloud_running"@ && to == "awaiting_approval"@
    ||| from == "awaiting_approval"@ && to == "submitted"@
    ||| from == "awaiting_approval"@ && to == "cloud_running"@
    ||| from == "awaiting_approval"@ && to == "result_ready"@
    ||| from == "cloud_running"@ && to == "result_ready"@
    ||| from == "submitted"@ && to == "paused"@
    ||| from == "cloud_running"@ && to == "paused"@
    ||| from == "paused"@ && to == "submitted"@
    ||| from == "result_ready"@ && to == "downloaded"@
    ||| from == "downloaded"@ && to == "acknowledged"@
}

/// The states that a record in reconciliation may resume at.
pub open spec fn is_resume_target(to: Seq<char>) -> bool {
    ||| to == "admission_pending"@
    ||| to == "admitted"@
    ||| to == "staging"@
    ||| to == "submitted"@
    ||| to == "cloud_running"@
    ||| to == "awaiting_approval"@
    ||| to == "result_ready"@
    ||| to == "downloaded"@
}

/// The states that any non-terminal state may move to.
pub open spec fn is_escape_target(to: Seq<char>) -> bool {
    to == "reconciliation_required"@ || to == "failed"@ || to == "cancelled"@ || to == "expired"@
}

/// Whether the outbox protocol allows moving a record from `from` to `to`.
pub open spec fn transition_allowed(from: Seq<char>, to: Seq<char>) -> bool {
    &&& !is_terminal_state(from)
    &&& {
        ||| is_listed_step(from, to)
        ||| from == "reconciliation_required"@ && is_resume_target(to)
        ||| is_escape_target(to)
    }
}

fn is_terminal(s: &str) -> (r: bool)
    ensures
        r == is_terminal_state(s@),
{
    str_equal(s, "acknowledged") || str_equal(s, "failed") || str_equal(s, "cancelled")
        || str_equal(s, "expired")
}

fn step_is(from: &str, to: &str, a: &str, b: &str) -> (r: bool)
    ensures
        r == (from@ == a@ && to@ == b@),
{
    str_equal(from, a) && str_equal(to, b)
}

fn listed_step(from: &str, to: &str) -> (r: bool)
    ensures
        r == is_listed_step(from@, to@),
{
    step_is(from, to, "local_created", "admission_pending") || step_is(
        from,
        to,
        "admission_pending",
        "admitted",
    ) || step_is(from, to, "admitted", "staging") || step_is(from, to, "staging", "submitted")
        || step_is(from, to, "submitted", "cloud_running") || step_is(
        from,
        to,
        "submitted",
        "awaiting_approval",
    ) || step_is(from, to, "cloud_running", "awaiting_approval") || step_is(
        from,
        to,
        "awaiting_approval",
        "submitted",
    ) || step_is(from, to, "awaiting_approval", "cloud_running") || step_is(
        from,
        to,
        "awaiting_approval",
        "result_ready",
    ) || step_is(from, to, "cloud_running", "result_ready") || step_is(
        from,
        to,
        "submitted",
        "paused",
    ) || step_is(from, to, "cloud_running", "paused") || step_is(from, to, "paused", "submitted")
        || step_is(from, to, "result_ready", "downloaded") || step_is(
        from,
        to,
        "downloaded",
        "acknowledged",
    )
}

fn resume_target(to: &str) -> (r: bool)
    ensures
        r == is_resume_target(to@),
{
    str_equal(to, "admission_pending") || str_equal(to, "admitted") || str_equal(to, "staging")
        || str_equal(to, "submitted") || str_equal(to, "cloud_running") || str_equal(
        to,
        "awaiting_approval",
    ) || str_equal(to, "result_ready") || str_equal(to, "downloaded")
}

fn escape_target(to: &str) -> (r: bool)
    ensures
        r == is_escape_target(to@),
{
    str_equal(to, "reconciliation_required") || str_equal(to, "failed") || str_equal(
        to,
        "cancelled",
    ) || str_equal(to, "expired")
}

/// Validates whether a state transition is legal according to the outbox protocol.
///
/// Terminal states ('acknowledged', 'failed', 'cancelled', 'expired') are
/// one-way streets: nothing leaves them. A re-run needs a new request id.
pub fn can_transition(from: &str, to: &str) -> (r: bool)
    ensures
        r == transition_allowed(from@, to@),
{
    if is_terminal(from) {
        return false;
    }
    listed_step(from, to) || (str_equal(from, "reconciliation_required") && resume_target(to))
        || escape_target(to)
}

} // verus!
