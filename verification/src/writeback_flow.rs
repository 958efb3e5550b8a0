//! The durable execution of one bookmark write, as decisions between the
//! database, budget and provider steps the service performs: claiming the
//! idempotent operation, local admission, the budget reservation, consuming
//! the consent, the provider call and the terminal completion.

use vstd::prelude::*;
use crate::time::Timestamp;
use crate::writeback::{BookmarkAction, BookmarkAdmissionRefusal, BookmarkProviderError, BookmarkProviderEvidence,
    BookmarkProviderSuccess, BookmarkWriteResult, BookmarkWriteStatus, BookmarkWritebackError, BudgetError,
    LocalAdmission, refusal_error, admission_refusal_error, stored_status, stored_write_status,
    validate_provider_post_id, validate_idempotency_key, is_target_id, BookmarkDryRunOutcome, dry_run_of};
use vstd::utf8::encode_utf8;
use crate::json::str_eq;

verus! {

/// Validates a request before anything is claimed: the target first, then the
/// idempotency key.
pub fn validate_write_request(provider_post_id: &str, idempotency_key: &str) -> (r: Result<(), BookmarkWritebackError>)
    ensures
        r == if !is_target_id(provider_post_id@) {
            Err(BookmarkWritebackError::InvalidTarget)
        } else if !(0 < encode_utf8(idempotency_key@).len() <= 256) {
            Err(BookmarkWritebackError::InvalidIdempotencyKey)
        } else {
            Ok::<(), BookmarkWritebackError>(())
        },
{
    validate_provider_post_id(provider_post_id)?;
    validate_idempotency_key(idempotency_key)
}

// ---------------------------------------------------------------------------
// Claiming the operation.
// ---------------------------------------------------------------------------

/// What claiming an idempotency key found.
#[derive(Debug, Clone, Copy, PartialEq, Eq, Structural)]
pub enum OperationClaim {
    /// A new operation to execute.
    Execute(u128),
    /// An exact retry of a finished operation.
    Replay(BookmarkWriteResult),
    /// An exact retry of an operation still running.
    InProgress(u128),
}

/// The audit event a claim records, if any.
#[derive(Debug, Clone, Copy, PartialEq, Eq, Structural)]
pub enum ClaimAudit {
    RequestReceived(u128),
    IdempotencyConflict(u128),
    IdempotentReplay(u128),
}

impl ClaimAudit {
    /// The audited operation and the event class.
    pub fn event(self) -> (r: (u128, &'static str))
        ensures
            r.0 == match self {
                ClaimAudit::RequestReceived(id) => id,
                ClaimAudit::IdempotencyConflict(id) => id,
                ClaimAudit::IdempotentReplay(id) => id,
            },
            r.1@ == match self {
                ClaimAudit::RequestReceived(_) => "request_received"@,
                ClaimAudit::IdempotencyConflict(_) => "idempotency_conflict"@,
                ClaimAudit::IdempotentReplay(_) => "idempotent_replay"@,
            },
    {
        match self {
            ClaimAudit::RequestReceived(id) => (id, "request_received"),
            ClaimAudit::IdempotencyConflict(id) => (id, "idempotency_conflict"),
            ClaimAudit::IdempotentReplay(id) => (id, "idempotent_replay"),
        }
    }
}

/// The claim rule: a fresh insert executes; otherwise the stored operation
/// under the same key must carry the same request fingerprint (else a
/// conflict), and replays its terminal status or is still in progress. A
/// missing stored row is a query failure.
pub open spec fn claim_of(inserted: Option<u128>, existing: Option<(u128, Seq<char>, Seq<char>)>, fingerprint: Seq<char>)
    -> (Result<OperationClaim, BookmarkWritebackError>, Option<ClaimAudit>)
{
    match inserted {
        Some(id) => (Ok(OperationClaim::Execute(id)), Some(ClaimAudit::RequestReceived(id))),
        None => match existing {
            None => (Err(BookmarkWritebackError::Query), None),
            Some((id, stored_fingerprint, status)) => if stored_fingerprint != fingerprint {
                (Err(BookmarkWritebackError::IdempotencyConflict), Some(ClaimAudit::IdempotencyConflict(id)))
            } else {
                match stored_status(status) {
                    Some(s) => (
                        Ok(OperationClaim::Replay(BookmarkWriteResult { operation_id: id, status: s })),
                        Some(ClaimAudit::IdempotentReplay(id)),
                    ),
                    None => (Ok(OperationClaim::InProgress(id)), None),
                }
            },
        },
    }
}

/// Decides a claim from the insert result and, when the key was taken, the
/// stored operation's identity, fingerprint and status.
pub fn claim_outcome(inserted: Option<u128>, existing: Option<(u128, &str, &str)>, fingerprint: &str)
    -> (r: (Result<OperationClaim, BookmarkWritebackError>, Option<ClaimAudit>))
    ensures
        r == claim_of(inserted, match existing { Some((id, f, s)) => Some((id, f@, s@)), None => None }, fingerprint@),
{
    match inserted {
        Some(id) => (Ok(OperationClaim::Execute(id)), Some(ClaimAudit::RequestReceived(id))),
        None => match existing {
            None => (Err(BookmarkWritebackError::Query), None),
            Some((id, stored_fingerprint, status)) => if !str_eq(stored_fingerprint, fingerprint) {
                (Err(BookmarkWritebackError::IdempotencyConflict), Some(ClaimAudit::IdempotencyConflict(id)))
            } else {
                match stored_write_status(status) {
                    Some(s) => (
                        Ok(OperationClaim::Replay(BookmarkWriteResult { operation_id: id, status: s })),
                        Some(ClaimAudit::IdempotentReplay(id)),
                    ),
                    None => (Ok(OperationClaim::InProgress(id)), None),
                }
            },
        },
    }
}

/// A dry run executes only a fresh claim; any retry is reported as in progress.
pub fn dry_run_operation(claim: OperationClaim) -> (r: Result<u128, BookmarkWritebackError>)
    ensures
        r == match claim {
            OperationClaim::Execute(id) => Ok::<u128, BookmarkWritebackError>(id),
            _ => Err(BookmarkWritebackError::OperationInProgress),
        },
{
    match claim {
        OperationClaim::Execute(id) => Ok(id),
        _ => Err(BookmarkWritebackError::OperationInProgress),
    }
}

// ---------------------------------------------------------------------------
// Waiting for an operation in progress.
// ---------------------------------------------------------------------------

/// How many times a retry polls an operation in progress.
pub const MAX_POLLS: usize = 500;

/// What a retry does after one poll.
#[derive(Debug, Clone, Copy, PartialEq, Eq, Structural)]
pub enum WaitNext {
    /// The operation finished: replay its result.
    Replay(BookmarkWriteResult),
    /// Sleep, then poll again.
    PollAgain,
    /// Sleep, then give up: the operation is still in progress.
    GiveUp,
}

/// The wait rule after poll number `poll` (from 0) read `status`.
pub open spec fn wait_of(operation_id: u128, poll: usize, status: Option<Seq<char>>) -> WaitNext {
    match status {
        Some(s) if stored_status(s) is Some => WaitNext::Replay(
            BookmarkWriteResult { operation_id, status: stored_status(s)->0 },
        ),
        _ => if poll + 1 < MAX_POLLS { WaitNext::PollAgain } else { WaitNext::GiveUp },
    }
}

/// Decides what follows one poll of an operation in progress.
pub fn wait_next(operation_id: u128, poll: usize, status: Option<&str>) -> (r: WaitNext)
    requires
        poll < MAX_POLLS,
    ensures
        r == wait_of(operation_id, poll, match status { Some(s) => Some(s@), None => None }),
{
    if let Some(s) = status {
        if let Some(stored) = stored_write_status(s) {
            return WaitNext::Replay(BookmarkWriteResult { operation_id, status: stored });
        }
    }
    if poll + 1 < MAX_POLLS { WaitNext::PollAgain } else { WaitNext::GiveUp }
}

/// Waiting ends within the poll limit: only a poll before the last one polls again.
pub proof fn lemma_wait_is_bounded(operation_id: u128, poll: usize, status: Option<Seq<char>>)
    requires
        poll < MAX_POLLS,
    ensures
        wait_of(operation_id, poll, status) is PollAgain ==> poll + 1 < MAX_POLLS,
        poll + 1 == MAX_POLLS ==> !(wait_of(operation_id, poll, status) is PollAgain),
{
}

// ---------------------------------------------------------------------------
// Consuming the consent.
// ---------------------------------------------------------------------------

/// The steps of the transaction that consumes a consent before the provider call.
#[derive(Debug, Clone, Copy, PartialEq, Eq, Structural)]
pub enum ConsentStep {
    Begin,
    /// Lock the live, matching consent.
    Lock,
    MarkConsumed,
    MarkInFlight,
    RecordAdmission,
    Commit,
}

/// What follows one step of consuming a consent.
#[derive(Debug)]
pub enum ConsentNext {
    /// Run the next step.
    Continue(ConsentStep),
    /// Refund the reservation, then fail with the error.
    RefundThenFail(BookmarkWritebackError),
    /// The consent is consumed and the operation is in flight.
    Consumed,
}

/// The consumption rule: the steps run in order; the lock must find the
/// consent (else consent is required); any failure refunds the reservation.
pub open spec fn consent_next_of(step: ConsentStep, outcome: Result<bool, ()>) -> ConsentNext {
    match outcome {
        Err(()) => ConsentNext::RefundThenFail(BookmarkWritebackError::Query),
        Ok(found) => match step {
            ConsentStep::Begin => ConsentNext::Continue(ConsentStep::Lock),
            ConsentStep::Lock => if found {
                ConsentNext::Continue(ConsentStep::MarkConsumed)
            } else {
                ConsentNext::RefundThenFail(BookmarkWritebackError::ConsentRequired)
            },
            ConsentStep::MarkConsumed => ConsentNext::Continue(ConsentStep::MarkInFlight),
            ConsentStep::MarkInFlight => ConsentNext::Continue(ConsentStep::RecordAdmission),
            ConsentStep::RecordAdmission => ConsentNext::Continue(ConsentStep::Commit),
            ConsentStep::Commit => ConsentNext::Consumed,
        },
    }
}

/// Decides what follows one step; `outcome` is whether the step succeeded
/// and, for the lock, whether it found the consent.
pub fn consent_next(step: ConsentStep, outcome: Result<bool, ()>) -> (r: ConsentNext)
    ensures
        r == consent_next_of(step, outcome),
{
    match outcome {
        Err(()) => ConsentNext::RefundThenFail(BookmarkWritebackError::Query),
        Ok(found) => match step {
            ConsentStep::Begin => ConsentNext::Continue(ConsentStep::Lock),
            ConsentStep::Lock => if found {
                ConsentNext::Continue(ConsentStep::MarkConsumed)
            } else {
                ConsentNext::RefundThenFail(BookmarkWritebackError::ConsentRequired)
            },
            ConsentStep::MarkConsumed => ConsentNext::Continue(ConsentStep::MarkInFlight),
            ConsentStep::MarkInFlight => ConsentNext::Continue(ConsentStep::RecordAdmission),
            ConsentStep::RecordAdmission => ConsentNext::Continue(ConsentStep::Commit),
            ConsentStep::Commit => ConsentNext::Consumed,
        },
    }
}

/// The error a failed consumption reports after its refund: the refund's own
/// failure wins.
pub fn after_refund(pending: BookmarkWritebackError, refund: Result<(), BudgetError>) -> (r: BookmarkWritebackError)
    ensures
        r == match refund {
            Err(b) => BookmarkWritebackError::Budget(b),
            Ok(()) => pending,
        },
{
    match refund {
        Err(b) => BookmarkWritebackError::Budget(b),
        Ok(()) => pending,
    }
}

/// Only a committed transaction consumes the consent, and every failed step
/// refunds the reservation before the error is reported.
pub proof fn lemma_consent_consumed_only_on_commit(step: ConsentStep, outcome: Result<bool, ()>)
    ensures
        consent_next_of(step, outcome) is Consumed <==> (step == ConsentStep::Commit && outcome is Ok),
        outcome is Err ==> consent_next_of(step, outcome) is RefundThenFail,
{
}

// ---------------------------------------------------------------------------
// Completion.
// ---------------------------------------------------------------------------

/// How a confirmed provider mutation is recorded.
#[derive(Debug, Clone, Copy, PartialEq, Eq, Structural)]
pub struct ConfirmedCompletion {
    /// The terminal status: succeeded when the local projection was updated.
    pub status: BookmarkWriteStatus,
    /// When the projection was updated.
    pub projection_observed_at: Option<Timestamp>,
}

/// Records a confirmed mutation: the projection update decides between a
/// success and a pending projection.
pub fn confirmed_completion(projection_updated: bool, observed_at: Timestamp) -> (r: ConfirmedCompletion)
    ensures
        r.status == if projection_updated { BookmarkWriteStatus::Succeeded } else { BookmarkWriteStatus::ProjectionPending },
        r.projection_observed_at == if projection_updated { Some(observed_at) } else { None },
{
    if projection_updated {
        ConfirmedCompletion { status: BookmarkWriteStatus::Succeeded, projection_observed_at: Some(observed_at) }
    } else {
        ConfirmedCompletion { status: BookmarkWriteStatus::ProjectionPending, projection_observed_at: None }
    }
}

/// The stored status and audit projection token of a confirmed completion.
pub fn confirmed_tokens(status: BookmarkWriteStatus) -> (r: (&'static str, &'static str))
    ensures
        r.0@ == if status == BookmarkWriteStatus::Succeeded { "succeeded"@ } else { "projection_pending"@ },
        r.1@ == if status == BookmarkWriteStatus::Succeeded { "updated"@ } else { "pending"@ },
{
    if status == BookmarkWriteStatus::Succeeded { ("succeeded", "updated") } else { ("projection_pending", "pending") }
}

// ---------------------------------------------------------------------------
// The execution.
// ---------------------------------------------------------------------------

/// Where one live execution stands.
pub enum ExecutePhase {
    /// Waiting for the claim.
    Claiming,
    /// Waiting for an operation in progress elsewhere.
    Waiting,
    /// Waiting for local admission.
    Admitting { operation_id: u128 },
    /// Waiting for the budget reservation.
    Reserving { operation_id: u128 },
    /// Waiting for the consent to be consumed.
    ConsumingConsent { operation_id: u128 },
    /// Waiting for the provider.
    AwaitingProvider { operation_id: u128 },
    /// Waiting for the confirmed completion to be recorded.
    Confirming { operation_id: u128 },
    /// Waiting for a terminal record; then the outcome is returned.
    Recording { outcome: Result<BookmarkWriteResult, BookmarkWritebackError> },
    /// Finished.
    Done,
}

/// What the service learned from the step it performed.
pub enum ExecuteEvent {
    Claimed(Result<OperationClaim, BookmarkWritebackError>),
    Waited(Result<BookmarkWriteResult, BookmarkWritebackError>),
    Admission(Result<LocalAdmission, BookmarkWritebackError>),
    Reserved(Result<(), BudgetError>),
    ConsentConsumed(Result<(), BookmarkWritebackError>),
    ProviderReturned(Result<BookmarkProviderSuccess, BookmarkProviderError>),
    Confirmed(Result<BookmarkWriteStatus, BookmarkWritebackError>),
    Recorded(Result<(), BookmarkWritebackError>),
}

/// The step the service performs next.
pub enum ExecuteAction {
    WaitForOperation { operation_id: u128 },
    EvaluateLocal { operation_id: u128 },
    ReserveBudget,
    ConsumeConsent { operation_id: u128 },
    CallProvider { action: BookmarkAction },
    CompleteConfirmed { operation_id: u128, evidence: BookmarkProviderEvidence },
    CompleteAlreadySatisfied { operation_id: u128, observed_at: Timestamp },
    RefuseOperation { operation_id: u128, class: BookmarkAdmissionRefusal, reset_at: Option<Timestamp> },
    CompleteUncertain { operation_id: u128, evidence: BookmarkProviderEvidence },
    CompleteProviderFailure { operation_id: u128, error: BookmarkProviderError },
    /// Return this result to the caller.
    Finish(Result<BookmarkWriteResult, BookmarkWritebackError>),
}

/// The execution rule. A retry of a finished operation returns its stored
/// result and a retry of a running one waits for it; a fresh operation is
/// admitted locally, reserves one budget unit, consumes its consent and only
/// then calls the provider. Refusals and provider outcomes are recorded before
/// the result is returned. `None` when the event does not answer the phase.
pub open spec fn execute_transition(phase: ExecutePhase, action: BookmarkAction, event: ExecuteEvent)
    -> Option<(ExecutePhase, ExecuteAction)>
{
    match (phase, event) {
        (ExecutePhase::Claiming, ExecuteEvent::Claimed(claimed)) => Some(match claimed {
            Err(e) => (ExecutePhase::Done, ExecuteAction::Finish(Err(e))),
            Ok(OperationClaim::Execute(id)) => (ExecutePhase::Admitting { operation_id: id }, ExecuteAction::EvaluateLocal { operation_id: id }),
            Ok(OperationClaim::Replay(result)) => (ExecutePhase::Done, ExecuteAction::Finish(Ok(result))),
            Ok(OperationClaim::InProgress(id)) => (ExecutePhase::Waiting, ExecuteAction::WaitForOperation { operation_id: id }),
        }),
        (ExecutePhase::Waiting, ExecuteEvent::Waited(waited)) => Some((ExecutePhase::Done, ExecuteAction::Finish(waited))),
        (ExecutePhase::Admitting { operation_id }, ExecuteEvent::Admission(admission)) => Some(match admission {
            Err(e) => (ExecutePhase::Done, ExecuteAction::Finish(Err(e))),
            Ok(LocalAdmission::Admitted { .. }) => (ExecutePhase::Reserving { operation_id }, ExecuteAction::ReserveBudget),
            Ok(LocalAdmission::AlreadySatisfied { observed_at }) => (
                ExecutePhase::Recording { outcome: Ok(BookmarkWriteResult { operation_id, status: BookmarkWriteStatus::AlreadySatisfied }) },
                ExecuteAction::CompleteAlreadySatisfied { operation_id, observed_at },
            ),
            Ok(LocalAdmission::Refused { class, reset_at }) => (
                ExecutePhase::Recording { outcome: Err(refusal_error(class, reset_at)) },
                ExecuteAction::RefuseOperation { operation_id, class, reset_at },
            ),
        }),
        (ExecutePhase::Reserving { operation_id }, ExecuteEvent::Reserved(reserved)) => Some(match reserved {
            Ok(()) => (ExecutePhase::ConsumingConsent { operation_id }, ExecuteAction::ConsumeConsent { operation_id }),
            Err(BudgetError::Exhausted { reset_at }) => (
                ExecutePhase::Recording { outcome: Err(BookmarkWritebackError::Budget(BudgetError::Exhausted { reset_at })) },
                ExecuteAction::RefuseOperation { operation_id, class: BookmarkAdmissionRefusal::BudgetExhausted, reset_at: Some(reset_at) },
            ),
            Err(e) => (ExecutePhase::Done, ExecuteAction::Finish(Err(BookmarkWritebackError::Budget(e)))),
        }),
        (ExecutePhase::ConsumingConsent { operation_id }, ExecuteEvent::ConsentConsumed(consumed)) => Some(match consumed {
            Err(e) => (ExecutePhase::Done, ExecuteAction::Finish(Err(e))),
            Ok(()) => (ExecutePhase::AwaitingProvider { operation_id }, ExecuteAction::CallProvider { action }),
        }),
        (ExecutePhase::AwaitingProvider { operation_id }, ExecuteEvent::ProviderReturned(returned)) => Some(match returned {
            Ok(success) => (ExecutePhase::Confirming { operation_id }, ExecuteAction::CompleteConfirmed { operation_id, evidence: success.evidence }),
            Err(BookmarkProviderError::Uncertain { evidence, .. }) => (
                ExecutePhase::Recording { outcome: Ok(BookmarkWriteResult { operation_id, status: BookmarkWriteStatus::Uncertain }) },
                ExecuteAction::CompleteUncertain { operation_id, evidence },
            ),
            Err(e) => (
                ExecutePhase::Recording { outcome: Err(BookmarkWritebackError::Provider(e)) },
                ExecuteAction::CompleteProviderFailure { operation_id, error: e },
            ),
        }),
        (ExecutePhase::Confirming { operation_id }, ExecuteEvent::Confirmed(confirmed)) => Some(match confirmed {
            Ok(status) => (ExecutePhase::Done, ExecuteAction::Finish(Ok(BookmarkWriteResult { operation_id, status }))),
            Err(e) => (ExecutePhase::Done, ExecuteAction::Finish(Err(e))),
        }),
        (ExecutePhase::Recording { outcome }, ExecuteEvent::Recorded(recorded)) => Some(match recorded {
            Ok(()) => (ExecutePhase::Done, ExecuteAction::Finish(outcome)),
            Err(e) => (ExecutePhase::Done, ExecuteAction::Finish(Err(e))),
        }),
        _ => None,
    }
}

fn evidence_copy(e: &BookmarkProviderEvidence) -> (r: BookmarkProviderEvidence)
    ensures
        r == *e,
{
    BookmarkProviderEvidence {
        request_id: match &e.request_id {
            Some(s) => Some(s.clone()),
            None => None,
        },
    }
}

fn provider_error_copy(e: &BookmarkProviderError) -> (r: BookmarkProviderError)
    ensures
        r == *e,
{
    match e {
        BookmarkProviderError::Unavailable => BookmarkProviderError::Unavailable,
        BookmarkProviderError::CredentialUnavailable => BookmarkProviderError::CredentialUnavailable,
        BookmarkProviderError::CredentialScopeRequired => BookmarkProviderError::CredentialScopeRequired,
        BookmarkProviderError::CredentialInvalid => BookmarkProviderError::CredentialInvalid,
        BookmarkProviderError::Transient => BookmarkProviderError::Transient,
        BookmarkProviderError::AuthorizationLost { evidence } => BookmarkProviderError::AuthorizationLost { evidence: evidence_copy(evidence) },
        BookmarkProviderError::RateLimited { reset_epoch_seconds, evidence } => BookmarkProviderError::RateLimited {
            reset_epoch_seconds: *reset_epoch_seconds,
            evidence: evidence_copy(evidence),
        },
        BookmarkProviderError::DefiniteRefusal { status, evidence } => BookmarkProviderError::DefiniteRefusal {
            status: *status,
            evidence: evidence_copy(evidence),
        },
        BookmarkProviderError::Uncertain { status, evidence } => BookmarkProviderError::Uncertain {
            status: *status,
            evidence: evidence_copy(evidence),
        },
    }
}

/// Advances one execution by the event that answers its pending step.
pub fn execute_step(phase: ExecutePhase, action: BookmarkAction, event: ExecuteEvent) -> (r: Option<(ExecutePhase, ExecuteAction)>)
    ensures
        r == execute_transition(phase, action, event),
{
    match (phase, event) {
        (ExecutePhase::Claiming, ExecuteEvent::Claimed(claimed)) => Some(match claimed {
            Err(e) => (ExecutePhase::Done, ExecuteAction::Finish(Err(e))),
            Ok(OperationClaim::Execute(id)) => (ExecutePhase::Admitting { operation_id: id }, ExecuteAction::EvaluateLocal { operation_id: id }),
            Ok(OperationClaim::Replay(result)) => (ExecutePhase::Done, ExecuteAction::Finish(Ok(result))),
            Ok(OperationClaim::InProgress(id)) => (ExecutePhase::Waiting, ExecuteAction::WaitForOperation { operation_id: id }),
        }),
        (ExecutePhase::Waiting, ExecuteEvent::Waited(waited)) => Some((ExecutePhase::Done, ExecuteAction::Finish(waited))),
        (ExecutePhase::Admitting { operation_id }, ExecuteEvent::Admission(admission)) => Some(match admission {
            Err(e) => (ExecutePhase::Done, ExecuteAction::Finish(Err(e))),
            Ok(LocalAdmission::Admitted { .. }) => (ExecutePhase::Reserving { operation_id }, ExecuteAction::ReserveBudget),
            Ok(LocalAdmission::AlreadySatisfied { observed_at }) => (
                ExecutePhase::Recording { outcome: Ok(BookmarkWriteResult { operation_id, status: BookmarkWriteStatus::AlreadySatisfied }) },
                ExecuteAction::CompleteAlreadySatisfied { operation_id, observed_at },
            ),
            Ok(LocalAdmission::Refused { class, reset_at }) => (
                ExecutePhase::Recording { outcome: Err(admission_refusal_error(class, reset_at)) },
                ExecuteAction::RefuseOperation { operation_id, class, reset_at },
            ),
        }),
        (ExecutePhase::Reserving { operation_id }, ExecuteEvent::Reserved(reserved)) => Some(match reserved {
            Ok(()) => (ExecutePhase::ConsumingConsent { operation_id }, ExecuteAction::ConsumeConsent { operation_id }),
            Err(BudgetError::Exhausted { reset_at }) => (
                ExecutePhase::Recording { outcome: Err(BookmarkWritebackError::Budget(BudgetError::Exhausted { reset_at })) },
                ExecuteAction::RefuseOperation { operation_id, class: BookmarkAdmissionRefusal::BudgetExhausted, reset_at: Some(reset_at) },
            ),
            Err(e) => (ExecutePhase::Done, ExecuteAction::Finish(Err(BookmarkWritebackError::Budget(e)))),
        }),
        (ExecutePhase::ConsumingConsent { operation_id }, ExecuteEvent::ConsentConsumed(consumed)) => Some(match consumed {
            Err(e) => (ExecutePhase::Done, ExecuteAction::Finish(Err(e))),
            Ok(()) => (ExecutePhase::AwaitingProvider { operation_id }, ExecuteAction::CallProvider { action }),
        }),
        (ExecutePhase::AwaitingProvider { operation_id }, ExecuteEvent::ProviderReturned(returned)) => Some(match returned {
            Ok(success) => (ExecutePhase::Confirming { operation_id }, ExecuteAction::CompleteConfirmed { operation_id, evidence: success.evidence }),
            Err(BookmarkProviderError::Uncertain { evidence, .. }) => (
                ExecutePhase::Recording { outcome: Ok(BookmarkWriteResult { operation_id, status: BookmarkWriteStatus::Uncertain }) },
                ExecuteAction::CompleteUncertain { operation_id, evidence },
            ),
            Err(e) => {
                let recorded = provider_error_copy(&e);
                (
                    ExecutePhase::Recording { outcome: Err(BookmarkWritebackError::Provider(e)) },
                    ExecuteAction::CompleteProviderFailure { operation_id, error: recorded },
                )
            },
        }),
        (ExecutePhase::Confirming { operation_id }, ExecuteEvent::Confirmed(confirmed)) => Some(match confirmed {
            Ok(status) => (ExecutePhase::Done, ExecuteAction::Finish(Ok(BookmarkWriteResult { operation_id, status }))),
            Err(e) => (ExecutePhase::Done, ExecuteAction::Finish(Err(e))),
        }),
        (ExecutePhase::Recording { outcome }, ExecuteEvent::Recorded(recorded)) => Some(match recorded {
            Ok(()) => (ExecutePhase::Done, ExecuteAction::Finish(outcome)),
            Err(e) => (ExecutePhase::Done, ExecuteAction::Finish(Err(e))),
        }),
        _ => None,
    }
}

/// The provider is called only once the consent is consumed, and only from
/// an operation that was admitted and reserved its budget unit.
pub proof fn lemma_provider_only_after_consent(phase: ExecutePhase, action: BookmarkAction, event: ExecuteEvent)
    ensures
        execute_transition(phase, action, event) matches Some((_, ExecuteAction::CallProvider { .. }))
            ==> phase is ConsumingConsent && event matches ExecuteEvent::ConsentConsumed(Ok(())),
        execute_transition(phase, action, event) matches Some((_, ExecuteAction::ConsumeConsent { .. }))
            ==> phase is Reserving && event matches ExecuteEvent::Reserved(Ok(())),
        execute_transition(phase, action, event) matches Some((_, ExecuteAction::ReserveBudget))
            ==> phase is Admitting && event matches ExecuteEvent::Admission(Ok(LocalAdmission::Admitted { .. })),
{
}

/// A refused admission is recorded, then reported as its refusal error; an
/// exact retry of a finished operation returns the stored result unchanged.
pub proof fn lemma_refusal_and_replay(
    operation_id: u128,
    action: BookmarkAction,
    class: BookmarkAdmissionRefusal,
    reset_at: Option<Timestamp>,
    stored: BookmarkWriteResult,
)
    ensures
        execute_transition(ExecutePhase::Admitting { operation_id }, action,
            ExecuteEvent::Admission(Ok(LocalAdmission::Refused { class, reset_at }))) == Some((
            ExecutePhase::Recording { outcome: Err(refusal_error(class, reset_at)) },
            ExecuteAction::RefuseOperation { operation_id, class, reset_at },
        )),
        execute_transition(ExecutePhase::Recording { outcome: Err(refusal_error(class, reset_at)) }, action,
            ExecuteEvent::Recorded(Ok(()))) == Some((ExecutePhase::Done, ExecuteAction::Finish(Err(refusal_error(class, reset_at))))),
        execute_transition(ExecutePhase::Claiming, action, ExecuteEvent::Claimed(Ok(OperationClaim::Replay(stored))))
            == Some((ExecutePhase::Done, ExecuteAction::Finish(Ok(stored)))),
{
}

/// A dry run predicts what the live execution does with the same local
/// admission: it would submit exactly when the live run goes on to reserve
/// budget, would refuse with exactly the class the live run records, and
/// would be already satisfied exactly when the live run completes as such.
pub proof fn lemma_dry_run_predicts_execution(
    operation_id: u128,
    action: BookmarkAction,
    admission: LocalAdmission,
    evaluated_at: Timestamp,
    class: BookmarkAdmissionRefusal,
)
    ensures
        dry_run_of(action, admission, evaluated_at).outcome == BookmarkDryRunOutcome::WouldSubmit(action)
            <==> execute_transition(ExecutePhase::Admitting { operation_id }, action, ExecuteEvent::Admission(Ok(admission)))
                matches Some((_, ExecuteAction::ReserveBudget)),
        dry_run_of(action, admission, evaluated_at).outcome == BookmarkDryRunOutcome::WouldRefuse(class)
            <==> (execute_transition(ExecutePhase::Admitting { operation_id }, action, ExecuteEvent::Admission(Ok(admission)))
                matches Some((_, ExecuteAction::RefuseOperation { class: c, .. })) && c == class),
        dry_run_of(action, admission, evaluated_at).outcome == BookmarkDryRunOutcome::WouldAlreadySatisfy(action)
            <==> execute_transition(ExecutePhase::Admitting { operation_id }, action, ExecuteEvent::Admission(Ok(admission)))
                matches Some((_, ExecuteAction::CompleteAlreadySatisfied { .. })),
{
}


// ---------------------------------------------------------------------------
// Stored terminal results.
// ---------------------------------------------------------------------------

/// The status text an operation is stored with once it finished with a
/// terminal result; an already-satisfied result is stored as a success.
pub open spec fn stored_status_token(status: BookmarkWriteStatus) -> Seq<char> {
    match status {
        BookmarkWriteStatus::Succeeded => "succeeded"@,
        BookmarkWriteStatus::AlreadySatisfied => "succeeded"@,
        BookmarkWriteStatus::Uncertain => "uncertain"@,
        BookmarkWriteStatus::ProjectionPending => "projection_pending"@,
        BookmarkWriteStatus::ReconciledNotCurrent => "reconciled_not_current"@,
    }
}

pub fn stored_status_text(status: BookmarkWriteStatus) -> (r: &'static str)
    ensures
        r@ == stored_status_token(status),
{
    match status {
        BookmarkWriteStatus::Succeeded => "succeeded",
        BookmarkWriteStatus::AlreadySatisfied => "succeeded",
        BookmarkWriteStatus::Uncertain => "uncertain",
        BookmarkWriteStatus::ProjectionPending => "projection_pending",
        BookmarkWriteStatus::ReconciledNotCurrent => "reconciled_not_current",
    }
}

/// The status a retry reports for a stored terminal result.
pub open spec fn replayed_status(status: BookmarkWriteStatus) -> BookmarkWriteStatus {
    match status {
        BookmarkWriteStatus::AlreadySatisfied => BookmarkWriteStatus::Succeeded,
        _ => status,
    }
}

/// A stored status text reads back as the terminal status it was stored for.
pub proof fn lemma_stored_status_reads_back(status: BookmarkWriteStatus)
    ensures
        stored_status(stored_status_token(status)) == Some(replayed_status(status)),
{
    reveal_strlit("succeeded");
    reveal_strlit("reconciled_succeeded");
    reveal_strlit("projection_pending");
    reveal_strlit("uncertain");
    reveal_strlit("reconciled_not_current");
    // Distinct texts differ in their first or ninth character.
    assert("uncertain"@[0] != "succeeded"@[0]);
    assert("uncertain"@[0] != "reconciled_succeeded"@[0]);
    assert("uncertain"@[0] != "projection_pending"@[0]);
    assert("projection_pending"@[0] != "succeeded"@[0]);
    assert("projection_pending"@[0] != "reconciled_succeeded"@[0]);
    assert("reconciled_not_current"@[0] != "succeeded"@[0]);
    assert("reconciled_not_current"@[0] != "projection_pending"@[0]);
    assert("reconciled_not_current"@[0] != "uncertain"@[0]);
    assert("reconciled_not_current"@[11] != "reconciled_succeeded"@[11]);
}

/// An exact retry of a finished operation returns its first result (an
/// already-satisfied one as a success) without admitting, reserving budget,
/// consuming consent or calling the provider again: the claim replays the
/// stored status and the execution finishes at once.
pub proof fn lemma_replay_returns_first_result(
    action: BookmarkAction,
    first: BookmarkWriteResult,
    fingerprint: Seq<char>,
)
    ensures
        ({
            let replayed = BookmarkWriteResult { operation_id: first.operation_id, status: replayed_status(first.status) };
            &&& claim_of(None, Some((first.operation_id, fingerprint, stored_status_token(first.status))), fingerprint)
                == (Ok::<OperationClaim, BookmarkWritebackError>(OperationClaim::Replay(replayed)),
                    Some(ClaimAudit::IdempotentReplay(first.operation_id)))
            &&& execute_transition(ExecutePhase::Claiming, action, ExecuteEvent::Claimed(Ok(OperationClaim::Replay(replayed))))
                == Some((ExecutePhase::Done, ExecuteAction::Finish(Ok(replayed))))
        }),
{
    lemma_stored_status_reads_back(first.status);
}

} // verus!
