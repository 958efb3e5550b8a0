//! Bounded upstream compliance revalidation of retained X sources: how a
//! provider answer is recorded, when it takes a source down, and how a
//! due-source run is bounded by the request budget.

use vstd::prelude::*;
use crate::time::{Timestamp, rfc3339_text, render_rfc3339};
use crate::writeback::BudgetError;
use crate::social_sources::tagged_uuid;
use crate::ids::uuid_string;
use crate::text::{chars_of, extend_chars, string_of};

verus! {

/// An authoritative provider observation for one preserved post.
#[derive(Debug, Clone, Copy, PartialEq, Eq, Structural)]
pub enum ComplianceAvailability {
    /// The connected user remains authorized to access the post.
    Available,
    /// The provider reports that the post was deleted.
    Deleted,
    /// The provider reports that the post is protected from this connection.
    Protected,
    /// The provider reports that the author is suspended.
    AuthorSuspended,
    /// The provider authoritatively reports another unavailable state.
    Unavailable,
}

/// Non-sensitive evidence returned with an authoritative observation.
#[derive(Debug, Clone, PartialEq, Eq)]
pub struct ComplianceObservation {
    /// The classified upstream authorization state.
    pub availability: ComplianceAvailability,
    /// Provider request identity suitable for diagnostics, when supplied.
    pub provider_request_id: Option<String>,
}

/// An indeterminate provider failure with no takedown authority.
#[derive(Debug, Clone, Copy, PartialEq, Eq, Structural)]
pub enum ComplianceSourceError {
    /// The provider budget or endpoint rate limit refused the check.
    RateLimited,
    /// The current connection no longer carries the required read scope.
    AuthorizationLost,
    /// The provider failed transiently without authoritative source state.
    ProviderFailure,
    /// The returned evidence could not be classified safely.
    InvalidEvidence,
}

impl ComplianceSourceError {
    /// The error's display text.
    pub fn message(&self) -> (r: &'static str)
        ensures
            r@ == match *self {
                ComplianceSourceError::RateLimited => "the provider rate-limited compliance revalidation"@,
                ComplianceSourceError::AuthorizationLost => "the provider authorization cannot revalidate this source"@,
                ComplianceSourceError::ProviderFailure => "the provider temporarily failed compliance revalidation"@,
                ComplianceSourceError::InvalidEvidence => "the provider returned invalid compliance evidence"@,
            },
    {
        match self {
            ComplianceSourceError::RateLimited => "the provider rate-limited compliance revalidation",
            ComplianceSourceError::AuthorizationLost => "the provider authorization cannot revalidate this source",
            ComplianceSourceError::ProviderFailure => "the provider temporarily failed compliance revalidation",
            ComplianceSourceError::InvalidEvidence => "the provider returned invalid compliance evidence",
        }
    }
}

/// Official-provider seam for one post authorization check.
pub trait ComplianceRevalidationSource {
    /// Revalidates one opaque provider post identity.
    fn revalidate(&self, provider_post_id: &str) -> Result<ComplianceObservation, ComplianceSourceError>;
}

/// Summary of one bounded due-source invocation.
#[derive(Debug, Clone, Copy, PartialEq, Eq, Structural)]
pub struct ComplianceRunSummary {
    /// Provider calls that produced ledger evidence.
    pub checked: u32,
    /// Sources newly removed by authoritative observations.
    pub takedowns: u32,
    /// Whether the existing provider-request budget stopped the invocation.
    pub budget_exhausted: bool,
}

impl Default for ComplianceRunSummary {
    fn default() -> (r: Self)
        ensures
            r == (ComplianceRunSummary { checked: 0, takedowns: 0, budget_exhausted: false }),
    {
        ComplianceRunSummary { checked: 0, takedowns: 0, budget_exhausted: false }
    }
}

/// Compliance orchestration failure.
#[derive(Debug, Clone, Copy, PartialEq, Eq, Structural)]
pub enum ComplianceRevalidationError {
    /// The existing durable provider budget failed.
    Budget(BudgetError),
    /// X-owned due or evidence state could not be persisted.
    Query,
    /// The shared removal contract could not represent takedown evidence.
    Contract,
}

// ---------------------------------------------------------------------------
// Stored vocabulary.
// ---------------------------------------------------------------------------

/// The post availability stored for an observation.
pub open spec fn post_availability_of(a: ComplianceAvailability) -> Seq<char> {
    match a {
        ComplianceAvailability::Available => "active"@,
        ComplianceAvailability::Deleted => "deleted"@,
        ComplianceAvailability::Protected => "protected"@,
        ComplianceAvailability::AuthorSuspended => "author_suspended"@,
        ComplianceAvailability::Unavailable => "unavailable"@,
    }
}

pub fn post_availability(availability: ComplianceAvailability) -> (r: &'static str)
    ensures
        r@ == post_availability_of(availability),
{
    match availability {
        ComplianceAvailability::Available => "active",
        ComplianceAvailability::Deleted => "deleted",
        ComplianceAvailability::Protected => "protected",
        ComplianceAvailability::AuthorSuspended => "author_suspended",
        ComplianceAvailability::Unavailable => "unavailable",
    }
}

/// The ledger outcome (and tombstone reason) of an observation.
pub open spec fn availability_outcome_of(a: ComplianceAvailability) -> Seq<char> {
    match a {
        ComplianceAvailability::Available => "available"@,
        ComplianceAvailability::Deleted => "deleted"@,
        ComplianceAvailability::Protected => "protected"@,
        ComplianceAvailability::AuthorSuspended => "author_suspended"@,
        ComplianceAvailability::Unavailable => "unavailable"@,
    }
}

pub fn availability_outcome(availability: ComplianceAvailability) -> (r: &'static str)
    ensures
        r@ == availability_outcome_of(availability),
{
    match availability {
        ComplianceAvailability::Available => "available",
        ComplianceAvailability::Deleted => "deleted",
        ComplianceAvailability::Protected => "protected",
        ComplianceAvailability::AuthorSuspended => "author_suspended",
        ComplianceAvailability::Unavailable => "unavailable",
    }
}

/// The ledger failure class of an indeterminate failure.
pub open spec fn failure_token_of(e: ComplianceSourceError) -> Seq<char> {
    match e {
        ComplianceSourceError::RateLimited => "rate_limited"@,
        ComplianceSourceError::AuthorizationLost => "authorization_lost"@,
        ComplianceSourceError::ProviderFailure => "provider_failure"@,
        ComplianceSourceError::InvalidEvidence => "invalid_evidence"@,
    }
}

pub fn failure_token(error: ComplianceSourceError) -> (r: &'static str)
    ensures
        r@ == failure_token_of(error),
{
    match error {
        ComplianceSourceError::RateLimited => "rate_limited",
        ComplianceSourceError::AuthorizationLost => "authorization_lost",
        ComplianceSourceError::ProviderFailure => "provider_failure",
        ComplianceSourceError::InvalidEvidence => "invalid_evidence",
    }
}

// ---------------------------------------------------------------------------
// Evidence.
// ---------------------------------------------------------------------------

/// The ledger entry of one provider answer.
pub struct RevalidationEvidence {
    /// The authoritative availability; `None` for an indeterminate failure.
    pub availability: Option<ComplianceAvailability>,
    pub provider_request_id: Option<String>,
    pub outcome: &'static str,
    pub failure_class: Option<&'static str>,
}

/// Records a provider answer: an observation keeps its availability and
/// request identity; a failure is indeterminate and keeps only its class.
pub fn revalidation_evidence(result: Result<ComplianceObservation, ComplianceSourceError>) -> (r: RevalidationEvidence)
    ensures
        match result {
            Ok(observation) => {
                &&& r.availability == Some(observation.availability)
                &&& r.provider_request_id == observation.provider_request_id
                &&& r.outcome@ == availability_outcome_of(observation.availability)
                &&& r.failure_class is None
            },
            Err(error) => {
                &&& r.availability is None
                &&& r.provider_request_id is None
                &&& r.outcome@ == "indeterminate"@
                &&& r.failure_class matches Some(c) && c@ == failure_token_of(error)
            },
        },
{
    match result {
        Ok(observation) => RevalidationEvidence {
            availability: Some(observation.availability),
            provider_request_id: observation.provider_request_id,
            outcome: availability_outcome(observation.availability),
            failure_class: None,
        },
        Err(error) => RevalidationEvidence {
            availability: None,
            provider_request_id: None,
            outcome: "indeterminate",
            failure_class: Some(failure_token(error)),
        },
    }
}

/// What recording evidence changes: the post's stored availability, and
/// whether the source is to be taken down. Only an authoritative observation
/// other than `Available` takes a source down.
pub fn evidence_effects(evidence: &RevalidationEvidence) -> (r: (Option<&'static str>, bool))
    ensures
        match evidence.availability {
            Some(a) => r.0 matches Some(s) && s@ == post_availability_of(a) && r.1 == (a != ComplianceAvailability::Available),
            None => r.0 is None && !r.1,
        },
{
    match evidence.availability {
        Some(a) => (Some(post_availability(a)), a != ComplianceAvailability::Available),
        None => (None, false),
    }
}

/// The removal event a takedown publishes.
pub struct RemovalEvent {
    pub social_source_id: u128,
    /// `user:` and the owner's internal identity.
    pub owner: String,
    /// Always `retention_policy`.
    pub reason: &'static str,
    pub removed_at: String,
    /// The outbox aggregate and correlation identity: `social_source:` and the source.
    pub aggregate: String,
    /// `compliance_revalidation:` and the ledger entry.
    pub causation: String,
}

fn tagged(prefix: &str, id: u128) -> (r: String)
    ensures
        r@ == tagged_uuid(prefix@, id),
{
    let mut out = chars_of(prefix);
    extend_chars(&mut out, &uuid_string(id));
    string_of(&out)
}

/// Builds the removal event of a takedown; an instant that cannot be written
/// is a contract error.
pub fn removal_event(social_source_id: u128, owner_id: u128, revalidation_id: u128, checked_at: Timestamp)
    -> (r: Result<RemovalEvent, ComplianceRevalidationError>)
    ensures
        match rfc3339_text(checked_at.seconds, checked_at.nanos) {
            None => r == Err::<RemovalEvent, ComplianceRevalidationError>(ComplianceRevalidationError::Contract),
            Some(text) => r matches Ok(e) && {
                &&& e.social_source_id == social_source_id
                &&& e.owner@ == tagged_uuid("user:"@, owner_id)
                &&& e.reason@ == "retention_policy"@
                &&& e.removed_at@ == text
                &&& e.aggregate@ == tagged_uuid("social_source:"@, social_source_id)
                &&& e.causation@ == tagged_uuid("compliance_revalidation:"@, revalidation_id)
            },
        },
{
    let removed_at = match render_rfc3339(checked_at) {
        Some(t) => t,
        None => return Err(ComplianceRevalidationError::Contract),
    };
    Ok(RemovalEvent {
        social_source_id,
        owner: tagged("user:", owner_id),
        reason: "retention_policy",
        removed_at,
        aggregate: tagged("social_source:", social_source_id),
        causation: tagged("compliance_revalidation:", revalidation_id),
    })
}

// ---------------------------------------------------------------------------
// The due-source run.
// ---------------------------------------------------------------------------

/// One due-source run over the selected candidates.
pub struct ComplianceRun {
    pub summary: ComplianceRunSummary,
    /// How many due sources were selected (at most the run's item limit).
    pub candidates: u32,
}

/// A run's summary never counts more checks than candidates, nor more
/// takedowns than checks.
pub open spec fn run_wf(run: ComplianceRun) -> bool {
    run.summary.takedowns <= run.summary.checked <= run.candidates
}

pub fn start_compliance_run(candidates: u32) -> (r: ComplianceRun)
    ensures
        r.candidates == candidates,
        r.summary == (ComplianceRunSummary { checked: 0, takedowns: 0, budget_exhausted: false }),
        run_wf(r),
{
    ComplianceRun { summary: ComplianceRunSummary::default(), candidates }
}

/// What follows a budget reservation for the next candidate.
#[derive(Debug, Clone, Copy, PartialEq, Eq, Structural)]
pub enum ComplianceNext {
    /// Ask the provider about the candidate.
    Revalidate,
    /// The budget is spent: the run stops and reports it.
    Stop,
    /// The budget itself failed.
    Fail(ComplianceRevalidationError),
}

pub fn compliance_reserved(run: &mut ComplianceRun, reserved: Result<(), BudgetError>) -> (r: ComplianceNext)
    requires
        run_wf(*old(run)),
    ensures
        r == match reserved {
            Ok(()) => ComplianceNext::Revalidate,
            Err(BudgetError::Exhausted { .. }) => ComplianceNext::Stop,
            Err(e) => ComplianceNext::Fail(ComplianceRevalidationError::Budget(e)),
        },
        final(run).summary.budget_exhausted == (old(run).summary.budget_exhausted || r == ComplianceNext::Stop),
        final(run).summary.checked == old(run).summary.checked,
        final(run).summary.takedowns == old(run).summary.takedowns,
        final(run).candidates == old(run).candidates,
        run_wf(*final(run)),
{
    match reserved {
        Ok(()) => ComplianceNext::Revalidate,
        Err(BudgetError::Exhausted { .. }) => {
            run.summary.budget_exhausted = true;
            ComplianceNext::Stop
        },
        Err(e) => ComplianceNext::Fail(ComplianceRevalidationError::Budget(e)),
    }
}

/// Counts one recorded check and whether it took its source down.
pub fn record_revalidation(run: &mut ComplianceRun, takedown: bool)
    requires
        run_wf(*old(run)),
        old(run).summary.checked < old(run).candidates,
    ensures
        final(run).summary.checked == old(run).summary.checked + 1,
        final(run).summary.takedowns == old(run).summary.takedowns + if takedown { 1int } else { 0int },
        final(run).summary.budget_exhausted == old(run).summary.budget_exhausted,
        final(run).candidates == old(run).candidates,
        run_wf(*final(run)),
{
    run.summary.checked = run.summary.checked + 1;
    if takedown {
        run.summary.takedowns = run.summary.takedowns + 1;
    }
}

impl ComplianceRevalidationError {
    /// The error's display text.
    pub fn message(&self) -> (r: &'static str)
        ensures
            r@ == match *self {
                ComplianceRevalidationError::Budget(BudgetError::Exhausted { .. }) => "the write budget window is exhausted"@,
                ComplianceRevalidationError::Budget(BudgetError::Unavailable) => "the write budget is unavailable"@,
                ComplianceRevalidationError::Query => "the compliance revalidation query failed"@,
                ComplianceRevalidationError::Contract => "the compliance takedown payload is invalid"@,
            },
    {
        match self {
            ComplianceRevalidationError::Budget(b) => b.message(),
            ComplianceRevalidationError::Query => "the compliance revalidation query failed",
            ComplianceRevalidationError::Contract => "the compliance takedown payload is invalid",
        }
    }
}

} // verus!
