//! Explicit bookmark write-back: the closed vocabulary, local admission, the
//! provider's answers, and the terminal outcomes of one mutation.

use vstd::prelude::*;
use vstd::utf8::encode_utf8;
use crate::articles::{all_digits, digits_value, lemma_digits_value_step};
use crate::digest::{sha256_hex, sha256_hex_of};
use crate::ids::{uuid_text, uuid_string};
use crate::json::{JsonValue, json_document, parse_json_document, json_get, json_get_exec, str_eq, string_literal, member_text, object_text,
    string_literal_exec, member_text_exec, object_text_exec};
use crate::order::views;
use crate::legacy::opt_str;
use crate::text::{chars_of, digit, is_digit, is_lower, is_alnum, string_of, extend_chars};
use crate::time::{Timestamp, instant_lt, earlier, epoch_instant, from_epoch_seconds, shift_seconds,
    shifted_instant, delta_seconds_representable};

verus! {

/// The complete and deliberately closed bookmark mutation surface.
#[derive(Debug, Clone, Copy, PartialEq, Eq, Structural)]
pub enum BookmarkAction {
    /// Save one provider post to the connected account's bookmarks.
    Add,
    /// Remove one provider post from the connected account's bookmarks.
    Remove,
}

pub open spec fn action_token(a: BookmarkAction) -> Seq<char> {
    match a {
        BookmarkAction::Add => "add"@,
        BookmarkAction::Remove => "remove"@,
    }
}

impl BookmarkAction {
    /// The stored name of the action.
    pub fn as_str(self) -> (r: &'static str)
        ensures
            r@ == action_token(self),
    {
        match self {
            BookmarkAction::Add => "add",
            BookmarkAction::Remove => "remove",
        }
    }
}

/// A consent surface identifier: one to 64 bytes, a lowercase letter or digit
/// first, then lowercase letters, digits, `.`, `_` or `-`.
pub open spec fn is_surface_id(s: Seq<char>) -> bool {
    &&& 0 < s.len() <= 64
    &&& (is_lower(s[0]) || is_digit(s[0]))
    &&& forall|i: int| 1 <= i < s.len() ==> (is_lower(#[trigger] s[i]) || is_digit(s[i]) || s[i] == '.' || s[i] == '_' || s[i] == '-')
}

/// A validated bounded identifier for the trusted consent-recording surface.
#[derive(Debug, Clone, PartialEq, Eq)]
pub struct ConsentSurfaceId(String);

impl ConsentSurfaceId {
    pub closed spec fn view_text(self) -> Seq<char> {
        self.0@
    }

    /// Validates and owns one surface identifier.
    pub fn parse(value: &str) -> (r: Result<Self, BookmarkWritebackError>)
        ensures
            is_surface_id(value@) ==> (r matches Ok(id) && id.view_text() == value@),
            !is_surface_id(value@) ==> r == Err::<Self, BookmarkWritebackError>(BookmarkWritebackError::InvalidSurface),
    {
        let chars = chars_of(value);
        if chars.len() == 0 || chars.len() > 64 {
            return Err(BookmarkWritebackError::InvalidSurface);
        }
        let first = chars[0];
        if !(('a' <= first && first <= 'z') || digit(first)) {
            return Err(BookmarkWritebackError::InvalidSurface);
        }
        let mut i: usize = 1;
        while i < chars.len()
            invariant
                1 <= i <= chars.len(),
                chars@ == value@,
                forall|j: int| 1 <= j < i ==> (is_lower(#[trigger] chars@[j]) || is_digit(chars@[j]) || chars@[j] == '.' || chars@[j] == '_' || chars@[j] == '-'),
            decreases chars.len() - i,
        {
            let c = chars[i];
            if !(('a' <= c && c <= 'z') || digit(c) || c == '.' || c == '_' || c == '-') {
                return Err(BookmarkWritebackError::InvalidSurface);
            }
            i += 1;
        }
        Ok(ConsentSurfaceId(value.to_string()))
    }

    /// The identifier's text.
    pub fn as_str(&self) -> (r: &str)
        ensures
            r@ == self.view_text(),
    {
        self.0.as_str()
    }
}

/// The terminal classification returned by a completed bookmark mutation.
#[derive(Debug, Clone, Copy, PartialEq, Eq, Structural)]
pub enum BookmarkWriteStatus {
    /// The provider mutation completed successfully.
    Succeeded,
    /// Durable local evidence already proved the requested bookmark state.
    AlreadySatisfied,
    /// The request may have reached the provider and awaits authoritative reconciliation.
    Uncertain,
    /// The provider confirmed success but the normalized target is not yet available locally.
    ProjectionPending,
    /// A complete snapshot proved the requested state is not current.
    ReconciledNotCurrent,
}

/// One stable operation identity and its stored terminal result.
#[derive(Debug, Clone, Copy, PartialEq, Eq, Structural)]
pub struct BookmarkWriteResult {
    /// The durable operation identity exact retries must share.
    pub operation_id: u128,
    /// The terminal result classification.
    pub status: BookmarkWriteStatus,
}

/// A closed local admission refusal reported by an advisory dry run.
#[derive(Debug, Clone, Copy, PartialEq, Eq, Structural)]
pub enum BookmarkAdmissionRefusal {
    /// The account is not owned by the authenticated user.
    OwnershipMismatch,
    /// The connected account is not active.
    ConnectionInactive,
    /// No independently active local write authorization exists.
    WriteAuthorizationRequired,
    /// The credential or local authorization lacks a required scope.
    WriteScopeRequired,
    /// No matching unconsumed consent exists.
    ConsentRequired,
    /// The isolated bookmark-write budget cannot currently admit one request.
    BudgetExhausted,
}

/// The local outcome a dry-run bookmark action currently predicts.
#[derive(Debug, Clone, Copy, PartialEq, Eq, Structural)]
pub enum BookmarkDryRunOutcome {
    /// The local gates predict that the provider request would be submitted.
    WouldSubmit(BookmarkAction),
    /// Durable local evidence already proves the requested state.
    WouldAlreadySatisfy(BookmarkAction),
    /// One local admission gate would refuse the request.
    WouldRefuse(BookmarkAdmissionRefusal),
}

/// Advisory dry-run evidence without provider, consent, projection, or budget effects.
#[derive(Debug, Clone, Copy, PartialEq, Eq, Structural)]
pub struct BookmarkDryRunResult {
    /// The typed local decision at evaluation time.
    pub outcome: BookmarkDryRunOutcome,
    /// The instant at which local admission was evaluated.
    pub evaluated_at: Timestamp,
    /// The durable bookmark observation that informed the decision, when one exists.
    pub observed_at: Option<Timestamp>,
    /// The inspected bookmark-write reset instant, when budget informed the decision.
    pub budget_reset_at: Option<Timestamp>,
    /// Always true: provider state may change after this local preview.
    pub advisory: bool,
}

/// Bounded, non-sensitive provider response evidence safe for operation/audit storage.
#[derive(Debug, Clone, PartialEq, Eq)]
pub struct BookmarkProviderEvidence {
    /// Provider request identity after syntax and length validation.
    pub request_id: Option<String>,
}

impl Default for BookmarkProviderEvidence {
    fn default() -> (r: Self)
        ensures
            r.request_id is None,
    {
        BookmarkProviderEvidence { request_id: None }
    }
}

/// A provider response that confirmed the requested bookmark state.
#[derive(Debug, Clone, PartialEq, Eq)]
pub struct BookmarkProviderSuccess {
    /// Non-sensitive response correlation evidence.
    pub evidence: BookmarkProviderEvidence,
}

/// A non-sensitive bookmark-provider failure.
#[derive(Debug, Clone, PartialEq, Eq)]
pub enum BookmarkProviderError {
    /// The provider did not complete the requested mutation.
    Unavailable,
    /// Owned account or credential persistence could not be read safely.
    CredentialUnavailable,
    /// The persisted scope evidence is incomplete for bookmark mutation.
    CredentialScopeRequired,
    /// The account-bound credential envelope could not be opened or decoded.
    CredentialInvalid,
    /// A connect failure proved that no request reached the provider.
    Transient,
    /// Provider authentication or authorization is no longer usable.
    AuthorizationLost { evidence: BookmarkProviderEvidence },
    /// The provider refused the current rate window.
    RateLimited { reset_epoch_seconds: Option<i64>, evidence: BookmarkProviderEvidence },
    /// A completed 4xx response definitively refused the request.
    DefiniteRefusal { status: u16, evidence: BookmarkProviderEvidence },
    /// A request may have reached the provider, but its result is not known.
    Uncertain { status: Option<u16>, evidence: BookmarkProviderEvidence },
}

/// Why the isolated write budget refused a reservation.
#[derive(Debug, Clone, Copy, PartialEq, Eq, Structural)]
pub enum BudgetError {
    /// The window is spent until `reset_at`.
    Exhausted { reset_at: Timestamp },
    /// The budget's own persistence failed.
    Unavailable,
}

/// Why a bookmark write-back request could not complete.
#[derive(Debug, Clone, PartialEq, Eq)]
pub enum BookmarkWritebackError {
    /// The account is not owned by the authenticated user.
    OwnershipMismatch,
    /// The account's read connection is not active.
    ConnectionInactive,
    /// No independently active local write authorization exists.
    WriteAuthorizationRequired,
    /// The active credential or local authorization lacks a required scope.
    WriteScopeRequired,
    /// No live one-action consent admits this owner/account/action/target tuple.
    ConsentRequired,
    /// The caller reused an account-scoped idempotency key for different content.
    IdempotencyConflict,
    /// An exact request is already being executed by another caller or process.
    OperationInProgress,
    /// The caller supplied an empty or unreasonably large idempotency key.
    InvalidIdempotencyKey,
    /// Provider post identities are decimal strings of at most 19 digits.
    InvalidTarget,
    /// The consent surface is outside the bounded lowercase vocabulary.
    InvalidSurface,
    /// The supplied approval instant is future-dated or outside the configured lifetime.
    InvalidApprovalInstant,
    /// The isolated bookmark-write budget could not admit the provider request.
    Budget(BudgetError),
    /// A budget refusal lost the reset evidence needed for a truthful result.
    InvalidBudgetEvidence,
    /// The provider did not complete the mutation.
    Provider(BookmarkProviderError),
    /// Owned persistence could not evaluate or record admission.
    Query,
}

// ---------------------------------------------------------------------------
// Request validation.
// ---------------------------------------------------------------------------

/// A provider post identity: one to nineteen ASCII digits.
pub open spec fn is_target_id(s: Seq<char>) -> bool {
    0 < s.len() <= 19 && all_digits(s)
}

/// Validates a provider post identity.
pub fn validate_provider_post_id(provider_post_id: &str) -> (r: Result<(), BookmarkWritebackError>)
    ensures
        is_target_id(provider_post_id@) ==> r == Ok::<(), BookmarkWritebackError>(()),
        !is_target_id(provider_post_id@) ==> r == Err::<(), BookmarkWritebackError>(BookmarkWritebackError::InvalidTarget),
{
    let chars = chars_of(provider_post_id);
    if chars.len() == 0 || chars.len() > 19 {
        return Err(BookmarkWritebackError::InvalidTarget);
    }
    let mut i: usize = 0;
    while i < chars.len()
        invariant
            i <= chars.len(),
            chars@ == provider_post_id@,
            forall|j: int| 0 <= j < i ==> is_digit(#[trigger] chars@[j]),
        decreases chars.len() - i,
    {
        if !digit(chars[i]) {
            return Err(BookmarkWritebackError::InvalidTarget);
        }
        i += 1;
    }
    Ok(())
}

/// An idempotency key: one to 256 bytes of UTF-8.
pub fn validate_idempotency_key(key: &str) -> (r: Result<(), BookmarkWritebackError>)
    ensures
        0 < encode_utf8(key@).len() <= 256 ==> r == Ok::<(), BookmarkWritebackError>(()),
        !(0 < encode_utf8(key@).len() <= 256) ==> r == Err::<(), BookmarkWritebackError>(BookmarkWritebackError::InvalidIdempotencyKey),
{
    let n = key.as_bytes().len();
    if n == 0 || n > 256 {
        Err(BookmarkWritebackError::InvalidIdempotencyKey)
    } else {
        Ok(())
    }
}

// ---------------------------------------------------------------------------
// Stored vocabulary.
// ---------------------------------------------------------------------------

/// The terminal status a stored operation status names, if it is terminal.
pub open spec fn stored_status(s: Seq<char>) -> Option<BookmarkWriteStatus> {
    if s == "succeeded"@ || s == "reconciled_succeeded"@ {
        Some(BookmarkWriteStatus::Succeeded)
    } else if s == "projection_pending"@ {
        Some(BookmarkWriteStatus::ProjectionPending)
    } else if s == "uncertain"@ {
        Some(BookmarkWriteStatus::Uncertain)
    } else if s == "reconciled_not_current"@ {
        Some(BookmarkWriteStatus::ReconciledNotCurrent)
    } else {
        None
    }
}

pub fn stored_write_status(status: &str) -> (r: Option<BookmarkWriteStatus>)
    ensures
        r == stored_status(status@),
{
    if str_eq(status, "succeeded") || str_eq(status, "reconciled_succeeded") {
        Some(BookmarkWriteStatus::Succeeded)
    } else if str_eq(status, "projection_pending") {
        Some(BookmarkWriteStatus::ProjectionPending)
    } else if str_eq(status, "uncertain") {
        Some(BookmarkWriteStatus::Uncertain)
    } else if str_eq(status, "reconciled_not_current") {
        Some(BookmarkWriteStatus::ReconciledNotCurrent)
    } else {
        None
    }
}

/// The ordinal an audit event class gets inside one operation's trail.
pub open spec fn audit_rank(e: Seq<char>) -> i32 {
    if e == "request_received"@ {
        1
    } else if e == "gate_admitted"@ || e == "gate_refused"@ || e == "budget_refused"@ {
        2
    } else if e == "provider_attempted"@ {
        3
    } else if e == "provider_classified"@ {
        4
    } else if e == "projection_reconciled"@ || e == "outcome_uncertain"@ {
        5
    } else if e == "operation_completed"@ {
        6
    } else if e == "idempotent_replay"@ || e == "idempotency_conflict"@ || e == "dry_run_completed"@ {
        7
    } else if e == "snapshot_reconciled"@ {
        8
    } else {
        9
    }
}

pub fn audit_ordinal(event_class: &str) -> (r: i32)
    ensures
        r == audit_rank(event_class@),
{
    if str_eq(event_class, "request_received") {
        1
    } else if str_eq(event_class, "gate_admitted") || str_eq(event_class, "gate_refused") || str_eq(event_class, "budget_refused") {
        2
    } else if str_eq(event_class, "provider_attempted") {
        3
    } else if str_eq(event_class, "provider_classified") {
        4
    } else if str_eq(event_class, "projection_reconciled") || str_eq(event_class, "outcome_uncertain") {
        5
    } else if str_eq(event_class, "operation_completed") {
        6
    } else if str_eq(event_class, "idempotent_replay") || str_eq(event_class, "idempotency_conflict") || str_eq(event_class, "dry_run_completed") {
        7
    } else if str_eq(event_class, "snapshot_reconciled") {
        8
    } else {
        9
    }
}

/// The error a local admission refusal is reported as; a budget refusal
/// without its reset instant is invalid evidence.
pub open spec fn refusal_error(refusal: BookmarkAdmissionRefusal, reset_at: Option<Timestamp>) -> BookmarkWritebackError {
    match refusal {
        BookmarkAdmissionRefusal::OwnershipMismatch => BookmarkWritebackError::OwnershipMismatch,
        BookmarkAdmissionRefusal::ConnectionInactive => BookmarkWritebackError::ConnectionInactive,
        BookmarkAdmissionRefusal::WriteAuthorizationRequired => BookmarkWritebackError::WriteAuthorizationRequired,
        BookmarkAdmissionRefusal::WriteScopeRequired => BookmarkWritebackError::WriteScopeRequired,
        BookmarkAdmissionRefusal::ConsentRequired => BookmarkWritebackError::ConsentRequired,
        BookmarkAdmissionRefusal::BudgetExhausted => match reset_at {
            Some(t) => BookmarkWritebackError::Budget(BudgetError::Exhausted { reset_at: t }),
            None => BookmarkWritebackError::InvalidBudgetEvidence,
        },
    }
}

pub fn admission_refusal_error(refusal: BookmarkAdmissionRefusal, reset_at: Option<Timestamp>) -> (r: BookmarkWritebackError)
    ensures
        r == refusal_error(refusal, reset_at),
{
    match refusal {
        BookmarkAdmissionRefusal::OwnershipMismatch => BookmarkWritebackError::OwnershipMismatch,
        BookmarkAdmissionRefusal::ConnectionInactive => BookmarkWritebackError::ConnectionInactive,
        BookmarkAdmissionRefusal::WriteAuthorizationRequired => BookmarkWritebackError::WriteAuthorizationRequired,
        BookmarkAdmissionRefusal::WriteScopeRequired => BookmarkWritebackError::WriteScopeRequired,
        BookmarkAdmissionRefusal::ConsentRequired => BookmarkWritebackError::ConsentRequired,
        BookmarkAdmissionRefusal::BudgetExhausted => match reset_at {
            Some(t) => BookmarkWritebackError::Budget(BudgetError::Exhausted { reset_at: t }),
            None => BookmarkWritebackError::InvalidBudgetEvidence,
        },
    }
}

/// The stored outcome of a dry run.
pub open spec fn dry_run_token(outcome: BookmarkDryRunOutcome) -> Seq<char> {
    match outcome {
        BookmarkDryRunOutcome::WouldSubmit(BookmarkAction::Add) => "would_add"@,
        BookmarkDryRunOutcome::WouldSubmit(BookmarkAction::Remove) => "would_remove"@,
        BookmarkDryRunOutcome::WouldAlreadySatisfy(BookmarkAction::Add) => "already_added"@,
        BookmarkDryRunOutcome::WouldAlreadySatisfy(BookmarkAction::Remove) => "already_removed"@,
        BookmarkDryRunOutcome::WouldRefuse(BookmarkAdmissionRefusal::OwnershipMismatch) => "refused_ownership"@,
        BookmarkDryRunOutcome::WouldRefuse(BookmarkAdmissionRefusal::ConnectionInactive) => "refused_connection"@,
        BookmarkDryRunOutcome::WouldRefuse(BookmarkAdmissionRefusal::WriteAuthorizationRequired) => "refused_authorization"@,
        BookmarkDryRunOutcome::WouldRefuse(BookmarkAdmissionRefusal::WriteScopeRequired) => "refused_scope"@,
        BookmarkDryRunOutcome::WouldRefuse(BookmarkAdmissionRefusal::ConsentRequired) => "refused_consent"@,
        BookmarkDryRunOutcome::WouldRefuse(BookmarkAdmissionRefusal::BudgetExhausted) => "refused_budget"@,
    }
}

pub fn dry_run_outcome_token(outcome: BookmarkDryRunOutcome) -> (r: &'static str)
    ensures
        r@ == dry_run_token(outcome),
{
    match outcome {
        BookmarkDryRunOutcome::WouldSubmit(BookmarkAction::Add) => "would_add",
        BookmarkDryRunOutcome::WouldSubmit(BookmarkAction::Remove) => "would_remove",
        BookmarkDryRunOutcome::WouldAlreadySatisfy(BookmarkAction::Add) => "already_added",
        BookmarkDryRunOutcome::WouldAlreadySatisfy(BookmarkAction::Remove) => "already_removed",
        BookmarkDryRunOutcome::WouldRefuse(BookmarkAdmissionRefusal::OwnershipMismatch) => "refused_ownership",
        BookmarkDryRunOutcome::WouldRefuse(BookmarkAdmissionRefusal::ConnectionInactive) => "refused_connection",
        BookmarkDryRunOutcome::WouldRefuse(BookmarkAdmissionRefusal::WriteAuthorizationRequired) => "refused_authorization",
        BookmarkDryRunOutcome::WouldRefuse(BookmarkAdmissionRefusal::WriteScopeRequired) => "refused_scope",
        BookmarkDryRunOutcome::WouldRefuse(BookmarkAdmissionRefusal::ConsentRequired) => "refused_consent",
        BookmarkDryRunOutcome::WouldRefuse(BookmarkAdmissionRefusal::BudgetExhausted) => "refused_budget",
    }
}

/// The stored outcome of a refused operation.
pub open spec fn refusal_token(class: BookmarkAdmissionRefusal) -> Seq<char> {
    match class {
        BookmarkAdmissionRefusal::OwnershipMismatch => "ownership_mismatch"@,
        BookmarkAdmissionRefusal::ConnectionInactive => "connection_inactive"@,
        BookmarkAdmissionRefusal::WriteAuthorizationRequired => "write_authorization_required"@,
        BookmarkAdmissionRefusal::WriteScopeRequired => "write_scope_required"@,
        BookmarkAdmissionRefusal::ConsentRequired => "consent_required"@,
        BookmarkAdmissionRefusal::BudgetExhausted => "budget_exhausted"@,
    }
}

/// The stored outcome of a refused operation and the audit event it records.
pub fn refusal_outcome(class: BookmarkAdmissionRefusal) -> (r: (&'static str, &'static str))
    ensures
        r.0@ == refusal_token(class),
        r.1@ == if class == BookmarkAdmissionRefusal::BudgetExhausted { "budget_refused"@ } else { "gate_refused"@ },
{
    let outcome = match class {
        BookmarkAdmissionRefusal::OwnershipMismatch => "ownership_mismatch",
        BookmarkAdmissionRefusal::ConnectionInactive => "connection_inactive",
        BookmarkAdmissionRefusal::WriteAuthorizationRequired => "write_authorization_required",
        BookmarkAdmissionRefusal::WriteScopeRequired => "write_scope_required",
        BookmarkAdmissionRefusal::ConsentRequired => "consent_required",
        BookmarkAdmissionRefusal::BudgetExhausted => "budget_exhausted",
    };
    let event = if class == BookmarkAdmissionRefusal::BudgetExhausted { "budget_refused" } else { "gate_refused" };
    (outcome, event)
}

// ---------------------------------------------------------------------------
// Provider answers.
// ---------------------------------------------------------------------------

/// The stored outcome, request identity and rate-limit reset of a provider failure.
pub open spec fn failure_evidence(e: BookmarkProviderError) -> (Seq<char>, Option<Seq<char>>, Option<Timestamp>) {
    match e {
        BookmarkProviderError::Unavailable => ("provider_unavailable"@, None, None),
        BookmarkProviderError::CredentialUnavailable => ("credential_unavailable"@, None, None),
        BookmarkProviderError::CredentialScopeRequired => ("credential_scope_required"@, None, None),
        BookmarkProviderError::CredentialInvalid => ("credential_invalid"@, None, None),
        BookmarkProviderError::Transient => ("transient_before_contact"@, None, None),
        BookmarkProviderError::AuthorizationLost { evidence } => ("authorization_lost"@, opt_str(evidence.request_id), None),
        BookmarkProviderError::RateLimited { reset_epoch_seconds, evidence } => (
            "rate_limited"@,
            opt_str(evidence.request_id),
            match reset_epoch_seconds {
                Some(s) => epoch_instant(s),
                None => None,
            },
        ),
        BookmarkProviderError::DefiniteRefusal { evidence, .. } => ("definite_refusal"@, opt_str(evidence.request_id), None),
        BookmarkProviderError::Uncertain { evidence, .. } => ("uncertain"@, opt_str(evidence.request_id), None),
    }
}

pub fn provider_failure_evidence(error: &BookmarkProviderError) -> (r: (&'static str, Option<String>, Option<Timestamp>))
    ensures
        (r.0@, opt_str(r.1), r.2) == failure_evidence(*error),
{
    match error {
        BookmarkProviderError::Unavailable => ("provider_unavailable", None, None),
        BookmarkProviderError::CredentialUnavailable => ("credential_unavailable", None, None),
        BookmarkProviderError::CredentialScopeRequired => ("credential_scope_required", None, None),
        BookmarkProviderError::CredentialInvalid => ("credential_invalid", None, None),
        BookmarkProviderError::Transient => ("transient_before_contact", None, None),
        BookmarkProviderError::AuthorizationLost { evidence } => ("authorization_lost", evidence.request_id.clone(), None),
        BookmarkProviderError::RateLimited { reset_epoch_seconds, evidence } => {
            let reset = match reset_epoch_seconds {
                Some(s) => from_epoch_seconds(*s),
                None => None,
            };
            ("rate_limited", evidence.request_id.clone(), reset)
        },
        BookmarkProviderError::DefiniteRefusal { evidence, .. } => ("definite_refusal", evidence.request_id.clone(), None),
        BookmarkProviderError::Uncertain { evidence, .. } => ("uncertain", evidence.request_id.clone(), None),
    }
}

/// A provider request identity worth keeping: 1 to 128 bytes of ASCII letters,
/// digits, `.`, `_`, `:` or `-`.
pub open spec fn is_request_id(s: Seq<char>) -> bool {
    &&& 0 < s.len() <= 128
    &&& forall|i: int| 0 <= i < s.len() ==> (is_alnum(#[trigger] s[i]) || s[i] == '.' || s[i] == '_' || s[i] == ':' || s[i] == '-')
}

pub fn bounded_request_id(value: &str) -> (r: Option<String>)
    ensures
        is_request_id(value@) ==> opt_str(r) == Some(value@),
        !is_request_id(value@) ==> r is None,
{
    let chars = chars_of(value);
    if chars.len() == 0 || chars.len() > 128 {
        return None;
    }
    let mut i: usize = 0;
    while i < chars.len()
        invariant
            i <= chars.len(),
            chars@ == value@,
            forall|j: int| 0 <= j < i ==> (is_alnum(#[trigger] chars@[j]) || chars@[j] == '.' || chars@[j] == '_' || chars@[j] == ':' || chars@[j] == '-'),
        decreases chars.len() - i,
    {
        let c = chars[i];
        if !(crate::text::alnum(c) || c == '.' || c == '_' || c == ':' || c == '-') {
            return None;
        }
        i += 1;
    }
    Some(value.to_string())
}

/// A transport failure: a connect failure never reached the provider; any
/// other may have.
pub fn classify_transport(is_connect: bool, status: Option<u16>) -> (r: BookmarkProviderError)
    ensures
        is_connect ==> r == BookmarkProviderError::Transient,
        !is_connect ==> r == (BookmarkProviderError::Uncertain { status, evidence: BookmarkProviderEvidence { request_id: None } }),
{
    if is_connect {
        BookmarkProviderError::Transient
    } else {
        BookmarkProviderError::Uncertain { status, evidence: BookmarkProviderEvidence { request_id: None } }
    }
}

/// `i64::from_str`: an optional sign, then at least one decimal digit, in range.
pub open spec fn parse_i64(s: Seq<char>) -> Option<i64> {
    let neg = s.len() > 0 && s[0] == '-';
    let d = if s.len() > 0 && (s[0] == '-' || s[0] == '+') { s.drop_first() } else { s };
    if d.len() == 0 || !all_digits(d) {
        None
    } else if neg {
        if digits_value(d) <= 0x8000_0000_0000_0000 { Some((-(digits_value(d) as int)) as i64) } else { None }
    } else {
        if digits_value(d) <= 0x7fff_ffff_ffff_ffff { Some(digits_value(d) as i64) } else { None }
    }
}

/// Parses a decimal `i64` as `str::parse::<i64>` does.
pub fn parse_i64_exec(text: &str) -> (r: Option<i64>)
    ensures
        r == parse_i64(text@),
{
    let s = chars_of(text);
    let neg = s.len() > 0 && s[0] == '-';
    let start: usize = if s.len() > 0 && (s[0] == '-' || s[0] == '+') { 1 } else { 0 };
    let ghost d = if s@.len() > 0 && (s@[0] == '-' || s@[0] == '+') { s@.drop_first() } else { s@ };
    assert(d =~= s@.skip(start as int));
    if start >= s.len() {
        return None;
    }
    let limit: u64 = if neg { 0x8000_0000_0000_0000 } else { 0x7fff_ffff_ffff_ffff };
    let mut value: u64 = 0;
    let mut over = false;
    let mut i: usize = start;
    while i < s.len()
        invariant
            start <= i <= s.len(),
            s@ == text@,
            d =~= s@.skip(start as int),
            d == (if text@.len() > 0 && (text@[0] == '-' || text@[0] == '+') { text@.drop_first() } else { text@ }),
            neg == (s@.len() > 0 && s@[0] == '-'),
            neg ==> limit == 0x8000_0000_0000_0000u64,
            !neg ==> limit == 0x7fff_ffff_ffff_ffffu64,
            all_digits(s@.subrange(start as int, i as int)),
            !over ==> value == digits_value(s@.subrange(start as int, i as int)) && value <= limit,
            over ==> digits_value(s@.subrange(start as int, i as int)) > limit,
        decreases s.len() - i,
    {
        let c = s[i];
        if !digit(c) {
            assert(d[i - start] == c);
            assert(!is_digit(d[i - start]));
            assert(!all_digits(d));
            assert(parse_i64(text@) is None);
            return None;
        }
        proof {
            assert(s@.subrange(start as int, i + 1) =~= s@.subrange(start as int, i as int).push(c));
            lemma_digits_value_step(s@.subrange(start as int, i as int), c);
        }
        if !over {
            let digit_value = ((c as u32) - 48) as u64;
            if value > (limit - digit_value) / 10 {
                over = true;
                assert(value * 10 + digit_value > limit) by (nonlinear_arith)
                    requires value > (limit - digit_value) / 10, digit_value <= 9, limit >= 9;
            } else {
                assert(value * 10 + digit_value <= limit) by (nonlinear_arith)
                    requires value <= (limit - digit_value) / 10, digit_value <= 9, limit >= 9;
                value = value * 10 + digit_value;
            }
        } else {
            proof {
                crate::articles::lemma_digits_value_grows(s@.subrange(start as int, i as int), c);
            }
        }
        i += 1;
    }
    assert(s@.subrange(start as int, s.len() as int) =~= d);
    if over {
        None
    } else if neg {
        if value == 0x8000_0000_0000_0000 {
            Some(i64::MIN)
        } else {
            Some(-(value as i64))
        }
    } else {
        Some(value as i64)
    }
}

/// How a completed response's status classifies the mutation before its body
/// is read: authorization lost (401, 403), rate limited (429, with the reset
/// header's epoch seconds when it parses), a definite refusal (other 4xx), or
/// uncertain (anything not 2xx); `None` for 2xx.
pub open spec fn status_failure(status: u16, reset_header: Option<Seq<char>>, evidence: BookmarkProviderEvidence) -> Option<BookmarkProviderError> {
    if status == 401 || status == 403 {
        Some(BookmarkProviderError::AuthorizationLost { evidence })
    } else if status == 429 {
        Some(BookmarkProviderError::RateLimited {
            reset_epoch_seconds: match reset_header { Some(h) => parse_i64(h), None => None },
            evidence,
        })
    } else if 400 <= status <= 499 {
        Some(BookmarkProviderError::DefiniteRefusal { status, evidence })
    } else if !(200 <= status <= 299) {
        Some(BookmarkProviderError::Uncertain { status: Some(status), evidence })
    } else {
        None
    }
}

/// The status classes partition the statuses: 401 and 403 lose authorization,
/// 429 is rate limited, the other 4xx are definite refusals carrying their
/// status, every other non-2xx status is uncertain, and only 2xx passes.
pub proof fn lemma_status_classes(status: u16, reset_header: Option<Seq<char>>, evidence: BookmarkProviderEvidence)
    ensures
        status == 401 || status == 403 ==> status_failure(status, reset_header, evidence)
            == Some(BookmarkProviderError::AuthorizationLost { evidence }),
        status == 429 ==> status_failure(status, reset_header, evidence) matches Some(BookmarkProviderError::RateLimited { .. }),
        status_failure(status, reset_header, evidence) matches Some(BookmarkProviderError::DefiniteRefusal { status: s, .. })
            ==> s == status && 400 <= status <= 499 && status != 401 && status != 403 && status != 429,
        status_failure(status, reset_header, evidence) matches Some(BookmarkProviderError::Uncertain { status: s, .. })
            ==> s == Some(status) && !(200 <= status <= 299) && !(400 <= status <= 499),
        status_failure(status, reset_header, evidence) is None <==> 200 <= status <= 299,
{
}

pub fn classify_status(status: u16, reset_header: Option<&str>, evidence: BookmarkProviderEvidence) -> (r: Option<BookmarkProviderError>)
    ensures
        r == status_failure(status, match reset_header { Some(h) => Some(h@), None => None }, evidence),
        status == 401 || status == 403 ==> r == Some(BookmarkProviderError::AuthorizationLost { evidence }),
        status == 429 ==> r matches Some(BookmarkProviderError::RateLimited { .. }),
        r matches Some(BookmarkProviderError::DefiniteRefusal { status: s, .. })
            ==> s == status && 400 <= status <= 499 && status != 401 && status != 403 && status != 429,
        r is None <==> 200 <= status <= 299,
{
    proof {
        lemma_status_classes(status, match reset_header { Some(h) => Some(h@), None => None }, evidence);
    }
    if status == 401 || status == 403 {
        Some(BookmarkProviderError::AuthorizationLost { evidence })
    } else if status == 429 {
        let reset_epoch_seconds = match reset_header {
            Some(h) => parse_i64_exec(h),
            None => None,
        };
        Some(BookmarkProviderError::RateLimited { reset_epoch_seconds, evidence })
    } else if 400 <= status && status <= 499 {
        Some(BookmarkProviderError::DefiniteRefusal { status, evidence })
    } else if !(200 <= status && status <= 299) {
        Some(BookmarkProviderError::Uncertain { status: Some(status), evidence })
    } else {
        None
    }
}

/// The most response bytes read before the result is deemed uncertain.
pub const MAX_RESPONSE_BYTES: u64 = 65536;

/// Whether a successful response body confirms the requested state:
/// `data.bookmarked` must be the expected boolean. A body that did not parse,
/// or says otherwise, leaves the result uncertain.
pub open spec fn body_confirms(body: Option<JsonValue>, expected: bool) -> bool {
    match body {
        Some(v) => match json_get(v, "data"@) {
            Some(data) => json_get(data, "bookmarked"@) == Some(JsonValue::Bool(expected)),
            None => false,
        },
        None => false,
    }
}

/// The result of a 2xx response: success when the body, read as JSON,
/// confirms the requested state, else uncertain with the status.
pub fn classify_body(status: u16, body: &[u8], expected_bookmarked: bool, evidence: BookmarkProviderEvidence) -> (r: Result<BookmarkProviderSuccess, BookmarkProviderError>)
    ensures
        body_confirms(json_document(body@), expected_bookmarked) ==> r == Ok::<BookmarkProviderSuccess, BookmarkProviderError>(BookmarkProviderSuccess { evidence }),
        !body_confirms(json_document(body@), expected_bookmarked) ==> r == Err::<BookmarkProviderSuccess, BookmarkProviderError>(BookmarkProviderError::Uncertain { status: Some(status), evidence }),
{
    let document = parse_json_document(body);
    let confirmed = match &document {
        Some(v) => match json_get_exec(v, "data") {
            Some(data) => match json_get_exec(data, "bookmarked") {
                Some(JsonValue::Bool(b)) => *b == expected_bookmarked,
                _ => false,
            },
            None => false,
        },
        None => false,
    };
    if confirmed {
        Ok(BookmarkProviderSuccess { evidence })
    } else {
        Err(BookmarkProviderError::Uncertain { status: Some(status), evidence })
    }
}

/// Whether reading another chunk keeps the body within the limit (`None`
/// for an advertised length, checked before reading).
pub fn body_within_limit(read_so_far: usize, more: u64) -> (r: bool)
    ensures
        r == (read_so_far + more <= MAX_RESPONSE_BYTES),
{
    if more > MAX_RESPONSE_BYTES {
        return false;
    }
    (read_so_far as u128) + (more as u128) <= (MAX_RESPONSE_BYTES as u128)
}

// ---------------------------------------------------------------------------
// Write authority.
// ---------------------------------------------------------------------------

/// The scopes a bookmark mutation needs on both the credential and the local authorization.
pub open spec fn required_scopes() -> Seq<Seq<char>> {
    seq!["users.read"@, "tweet.read"@, "bookmark.read"@, "offline.access"@, "bookmark.write"@]
}

pub open spec fn grants(scopes: Seq<String>, scope: Seq<char>) -> bool {
    exists|i: int| 0 <= i < scopes.len() && #[trigger] scopes[i]@ == scope
}

/// Whether both grants hold every required scope.
pub open spec fn scopes_complete(credential: Seq<String>, authorization: Seq<String>) -> bool {
    forall|k: int| 0 <= k < required_scopes().len() ==> grants(credential, #[trigger] required_scopes()[k]) && grants(authorization, required_scopes()[k])
}

fn grants_exec(scopes: &Vec<String>, scope: &str) -> (r: bool)
    ensures
        r == grants(scopes@, scope@),
{
    let mut i: usize = 0;
    while i < scopes.len()
        invariant
            i <= scopes.len(),
            forall|j: int| 0 <= j < i ==> #[trigger] scopes@[j]@ != scope@,
        decreases scopes.len() - i,
    {
        if str_eq(scopes[i].as_str(), scope) {
            return true;
        }
        i += 1;
    }
    false
}

/// Whether the credential and the local authorization both grant every required scope.
pub fn has_required_scopes(credential: &Vec<String>, authorization: &Vec<String>) -> (r: bool)
    ensures
        r == scopes_complete(credential@, authorization@),
{
    let ok = grants_exec(credential, "users.read") && grants_exec(authorization, "users.read")
        && grants_exec(credential, "tweet.read") && grants_exec(authorization, "tweet.read")
        && grants_exec(credential, "bookmark.read") && grants_exec(authorization, "bookmark.read")
        && grants_exec(credential, "offline.access") && grants_exec(authorization, "offline.access")
        && grants_exec(credential, "bookmark.write") && grants_exec(authorization, "bookmark.write");
    proof {
        if !ok {
            if !scopes_complete(credential@, authorization@) {
            } else {
                assert(grants(credential@, required_scopes()[0]) && grants(authorization@, required_scopes()[0]));
                assert(grants(credential@, required_scopes()[1]) && grants(authorization@, required_scopes()[1]));
                assert(grants(credential@, required_scopes()[2]) && grants(authorization@, required_scopes()[2]));
                assert(grants(credential@, required_scopes()[3]) && grants(authorization@, required_scopes()[3]));
                assert(grants(credential@, required_scopes()[4]) && grants(authorization@, required_scopes()[4]));
            }
        } else {
            assert forall|k: int| 0 <= k < required_scopes().len() implies grants(credential@, #[trigger] required_scopes()[k]) && grants(authorization@, required_scopes()[k]) by {
                if k == 0 {} else if k == 1 {} else if k == 2 {} else if k == 3 {} else {}
            }
        }
    }
    ok
}

/// The local write authority: the newest active credential's scopes and the
/// account's bookmark-write authorization (its status and scopes).
pub open spec fn authority_result(credential: Option<Seq<String>>, authorization: Option<(Seq<char>, Seq<String>)>) -> Result<(), BookmarkWritebackError> {
    match (credential, authorization) {
        (None, _) => Err(BookmarkWritebackError::WriteAuthorizationRequired),
        (Some(_), None) => Err(BookmarkWritebackError::WriteAuthorizationRequired),
        (Some(c), Some((status, a))) => if status != "active"@ {
            Err(BookmarkWritebackError::WriteAuthorizationRequired)
        } else if !scopes_complete(c, a) {
            Err(BookmarkWritebackError::WriteScopeRequired)
        } else {
            Ok(())
        },
    }
}

/// Write authority needs an active local authorization, and `bookmark.write`
/// granted to both it and the credential: read-only grants never admit a write.
pub proof fn lemma_write_needs_write_scope(credential: Option<Seq<String>>, authorization: Option<(Seq<char>, Seq<String>)>)
    ensures
        authority_result(credential, authorization) is Ok ==> (credential matches Some(c)
            && authorization matches Some((status, a)) && status == "active"@
            && grants(c, "bookmark.write"@) && grants(a, "bookmark.write"@)),
{
    if authority_result(credential, authorization) is Ok {
        let c = credential->0;
        let (_, a) = authorization->0;
        assert(required_scopes()[4] == "bookmark.write"@);
        assert(grants(c, required_scopes()[4]) && grants(a, required_scopes()[4]));
    }
}

/// Checks the local write authority.
pub fn require_write_authority(credential_scopes: Option<&Vec<String>>, authorization: Option<(&str, &Vec<String>)>) -> (r: Result<(), BookmarkWritebackError>)
    ensures
        r == authority_result(
            match credential_scopes { Some(c) => Some(c@), None => None },
            match authorization { Some((s, a)) => Some((s@, a@)), None => None },
        ),
{
    let c = match credential_scopes {
        None => return Err(BookmarkWritebackError::WriteAuthorizationRequired),
        Some(c) => c,
    };
    let (status, a) = match authorization {
        None => return Err(BookmarkWritebackError::WriteAuthorizationRequired),
        Some(x) => x,
    };
    if !str_eq(status, "active") {
        return Err(BookmarkWritebackError::WriteAuthorizationRequired);
    }
    if !has_required_scopes(c, a) {
        return Err(BookmarkWritebackError::WriteScopeRequired);
    }
    Ok(())
}

/// The provider's credential check: the account must have an active
/// credential and authorization, both granting every required scope.
pub fn credential_scopes_ok(row: Option<(&Vec<String>, &Vec<String>)>) -> (r: Result<(), BookmarkProviderError>)
    ensures
        match row {
            None => r == Err::<(), BookmarkProviderError>(BookmarkProviderError::CredentialUnavailable),
            Some((c, a)) => if scopes_complete(c@, a@) {
                r == Ok::<(), BookmarkProviderError>(())
            } else {
                r == Err::<(), BookmarkProviderError>(BookmarkProviderError::CredentialScopeRequired)
            },
        },
{
    match row {
        None => Err(BookmarkProviderError::CredentialUnavailable),
        Some((c, a)) => if has_required_scopes(c, a) {
            Ok(())
        } else {
            Err(BookmarkProviderError::CredentialScopeRequired)
        },
    }
}

// ---------------------------------------------------------------------------
// Request fingerprints.
// ---------------------------------------------------------------------------

/// The last `count` base-256 digits of `n`, most significant first.
pub open spec fn base256(n: nat, count: nat) -> Seq<u8>
    decreases count,
{
    if count == 0 {
        Seq::empty()
    } else {
        base256(n / 256, (count - 1) as nat).push((n % 256) as u8)
    }
}

/// `u64::to_be_bytes`.
pub open spec fn be_u64(n: nat) -> Seq<u8> {
    base256(n, 8)
}

pub open spec fn shift256(n: nat, k: nat) -> nat
    decreases k,
{
    if k == 0 { n } else { shift256(n / 256, (k - 1) as nat) }
}

proof fn lemma_shift256_step(n: nat, k: nat)
    ensures
        shift256(n, k + 1) == shift256(n, k) / 256,
    decreases k,
{
    assert(shift256(n, k + 1) == shift256(n / 256, k));
    if k > 0 {
        lemma_shift256_step(n / 256, (k - 1) as nat);
        assert(shift256(n, k) == shift256(n / 256, (k - 1) as nat));
    } else {
        assert(shift256(n / 256, 0) == n / 256);
    }
}

proof fn lemma_base256_digit(n: nat, count: nat, k: nat)
    requires
        k < count,
    ensures
        base256(n, count).len() == count,
        base256(n, count)[count - 1 - k] == (shift256(n, k) % 256) as u8,
    decreases count,
{
    lemma_base256_len(n, count);
    lemma_base256_len(n / 256, (count - 1) as nat);
    if k > 0 {
        lemma_base256_digit(n / 256, (count - 1) as nat, (k - 1) as nat);
    }
}

proof fn lemma_base256_len(n: nat, count: nat)
    ensures
        base256(n, count).len() == count,
    decreases count,
{
    if count > 0 {
        lemma_base256_len(n / 256, (count - 1) as nat);
    }
}

fn push_be_u64(out: &mut Vec<u8>, n: u64)
    ensures
        final(out)@ == old(out)@ + be_u64(n as nat),
{
    let mut digits: Vec<u8> = Vec::new();
    let mut m: u64 = n;
    let mut k: usize = 0;
    while k < 8
        invariant
            k <= 8,
            m as nat == shift256(n as nat, k as nat),
            digits@.len() == k,
            forall|j: int| 0 <= j < k ==> #[trigger] digits@[j] == base256(n as nat, 8)[7 - j],
        decreases 8 - k,
    {
        proof {
            lemma_base256_digit(n as nat, 8, k as nat);
            lemma_shift256_step(n as nat, k as nat);
        }
        digits.push((m % 256) as u8);
        m = m / 256;
        k += 1;
    }
    let ghost start = out@;
    proof {
        lemma_base256_len(n as nat, 8);
    }
    let mut i: usize = 0;
    while i < 8
        invariant
            i <= 8,
            digits@.len() == 8,
            base256(n as nat, 8).len() == 8,
            forall|j: int| 0 <= j < 8 ==> #[trigger] digits@[j] == base256(n as nat, 8)[7 - j],
            out@ == start + base256(n as nat, 8).take(i as int),
        decreases 8 - i,
    {
        out.push(digits[7 - i]);
        i += 1;
        assert(out@ =~= start + base256(n as nat, 8).take(i as int));
    }
    assert(base256(n as nat, 8).take(8) =~= base256(n as nat, 8));
}

/// The domain-separation prefix of a request fingerprint.
pub open spec fn fingerprint_prefix() -> Seq<u8> {
    seq![114u8, 97u8, 116u8, 97u8, 116u8, 111u8, 115u8, 107u8, 114u8, 45u8, 120u8, 45u8, 98u8, 111u8, 111u8, 107u8, 109u8, 97u8, 114u8, 107u8, 45u8, 119u8, 114u8, 105u8, 116u8, 101u8, 0u8]
}

/// Each part preceded by its length as eight big-endian bytes.
pub open spec fn framed(parts: Seq<Seq<u8>>) -> Seq<u8>
    decreases parts.len(),
{
    if parts.len() == 0 {
        Seq::empty()
    } else {
        framed(parts.drop_last()) + be_u64(parts.last().len()) + parts.last()
    }
}

/// The fingerprint of a request: the SHA-256 of the prefix and the framed
/// owner, account, action, target, consent and execution mode.
pub open spec fn fingerprint_of(owner: u128, account: u128, action: BookmarkAction, target: Seq<char>, consent: u128, mode: Seq<char>) -> Seq<char> {
    sha256_hex_of(fingerprint_prefix() + framed(seq![
        encode_utf8(uuid_text(owner)),
        encode_utf8(uuid_text(account)),
        encode_utf8(action_token(action)),
        encode_utf8(target),
        encode_utf8(uuid_text(consent)),
        encode_utf8(mode),
    ]))
}

fn push_part(out: &mut Vec<u8>, part: &str, Ghost(done): Ghost<Seq<Seq<u8>>>)
    requires
        old(out)@ == fingerprint_prefix() + framed(done),
    ensures
        final(out)@ == fingerprint_prefix() + framed(done.push(encode_utf8(part@))),
{
    let bytes = part.as_bytes();
    push_be_u64(out, bytes.len() as u64);
    let ghost mid = out@;
    let mut i: usize = 0;
    while i < bytes.len()
        invariant
            i <= bytes.len(),
            out@ == mid + bytes@.take(i as int),
        decreases bytes.len() - i,
    {
        out.push(bytes[i]);
        i += 1;
        assert(out@ =~= mid + bytes@.take(i as int));
    }
    assert(bytes@.take(bytes.len() as int) =~= bytes@);
    assert(done.push(encode_utf8(part@)).drop_last() =~= done);
    assert(out@ =~= fingerprint_prefix() + framed(done.push(encode_utf8(part@))));
}

/// The fingerprint binding an idempotent request to its exact content.
pub fn request_fingerprint(owner: u128, account: u128, action: BookmarkAction, target: &str, consent: u128, mode: &str) -> (r: String)
    ensures
        r@ == fingerprint_of(owner, account, action, target@, consent, mode@),
{
    let mut out: Vec<u8> = Vec::new();
    out.push(114u8);
    out.push(97u8);
    out.push(116u8);
    out.push(97u8);
    out.push(116u8);
    out.push(111u8);
    out.push(115u8);
    out.push(107u8);
    out.push(114u8);
    out.push(45u8);
    out.push(120u8);
    out.push(45u8);
    out.push(98u8);
    out.push(111u8);
    out.push(111u8);
    out.push(107u8);
    out.push(109u8);
    out.push(97u8);
    out.push(114u8);
    out.push(107u8);
    out.push(45u8);
    out.push(119u8);
    out.push(114u8);
    out.push(105u8);
    out.push(116u8);
    out.push(101u8);
    out.push(0u8);
    assert(out@ =~= fingerprint_prefix() + framed(Seq::empty()));
    let owner_text = string_of(&uuid_string(owner));
    let account_text = string_of(&uuid_string(account));
    let consent_text = string_of(&uuid_string(consent));
    let ghost p0 = Seq::<Seq<u8>>::empty();
    push_part(&mut out, owner_text.as_str(), Ghost(p0));
    let ghost p1 = p0.push(encode_utf8(uuid_text(owner)));
    push_part(&mut out, account_text.as_str(), Ghost(p1));
    let ghost p2 = p1.push(encode_utf8(uuid_text(account)));
    push_part(&mut out, action.as_str(), Ghost(p2));
    let ghost p3 = p2.push(encode_utf8(action_token(action)));
    push_part(&mut out, target, Ghost(p3));
    let ghost p4 = p3.push(encode_utf8(target@));
    push_part(&mut out, consent_text.as_str(), Ghost(p4));
    let ghost p5 = p4.push(encode_utf8(uuid_text(consent)));
    push_part(&mut out, mode, Ghost(p5));
    proof {
        assert(p5.push(encode_utf8(mode@)) =~= seq![
            encode_utf8(uuid_text(owner)),
            encode_utf8(uuid_text(account)),
            encode_utf8(action_token(action)),
            encode_utf8(target@),
            encode_utf8(uuid_text(consent)),
            encode_utf8(mode@),
        ]);
    }
    sha256_hex(out.as_slice())
}

/// `256^count`.
pub open spec fn pow256(count: nat) -> nat
    decreases count,
{
    if count == 0 { 1 } else { 256 * pow256((count - 1) as nat) }
}

/// Below `256^count`, the last `count` base-256 digits determine the number.
proof fn lemma_base256_injective(n: nat, m: nat, count: nat)
    requires
        n < pow256(count),
        m < pow256(count),
        base256(n, count) == base256(m, count),
    ensures
        n == m,
    decreases count,
{
    if count == 0 {
        assert(pow256(0) == 1);
    } else {
        let c1 = (count - 1) as nat;
        let p = pow256(c1);
        assert(pow256(count) == 256 * p);
        assert(base256(n, count).drop_last() =~= base256(n / 256, c1));
        assert(base256(m, count).drop_last() =~= base256(m / 256, c1));
        assert(base256(n, count).last() == (n % 256) as u8);
        assert(base256(m, count).last() == (m % 256) as u8);
        assert(n / 256 < p) by (nonlinear_arith)
            requires n < 256 * p;
        assert(m / 256 < p) by (nonlinear_arith)
            requires m < 256 * p;
        lemma_base256_injective(n / 256, m / 256, c1);
        assert(n % 256 == m % 256);
    }
}

/// The framing read from the front: the first part's length, the first
/// part, then the framing of the rest.
proof fn lemma_framed_front(parts: Seq<Seq<u8>>)
    requires
        parts.len() > 0,
    ensures
        framed(parts) == be_u64(parts[0].len()) + parts[0] + framed(parts.drop_first()),
    decreases parts.len(),
{
    if parts.len() == 1 {
        assert(parts.drop_last() =~= Seq::<Seq<u8>>::empty());
        assert(parts.drop_first() =~= Seq::<Seq<u8>>::empty());
        assert(framed(parts) =~= be_u64(parts[0].len()) + parts[0] + framed(parts.drop_first()));
    } else {
        let init = parts.drop_last();
        lemma_framed_front(init);
        assert(init.drop_first() =~= parts.drop_first().drop_last());
        assert(init[0] == parts[0]);
        assert(parts.drop_first().last() == parts.last());
        assert(framed(parts) =~= be_u64(parts[0].len()) + parts[0] + framed(parts.drop_first()));
    }
}

/// The framing is unambiguous: lists of parts, each shorter than `2^64`
/// bytes, frame to the same bytes only when they are the same list, so a
/// fingerprint's hashed input binds every field exactly.
pub proof fn lemma_framing_unambiguous(a: Seq<Seq<u8>>, b: Seq<Seq<u8>>)
    requires
        forall|i: int| 0 <= i < a.len() ==> (#[trigger] a[i]).len() < pow256(8),
        forall|i: int| 0 <= i < b.len() ==> (#[trigger] b[i]).len() < pow256(8),
        framed(a) == framed(b),
    ensures
        a == b,
    decreases a.len(),
{
    lemma_base256_len(0, 8);
    if a.len() == 0 {
        if b.len() > 0 {
            lemma_framed_front(b);
            lemma_base256_len(b[0].len(), 8);
            assert(framed(b).len() >= 8);
        }
        assert(a =~= b);
    } else if b.len() == 0 {
        lemma_framed_front(a);
        lemma_base256_len(a[0].len(), 8);
        assert(framed(a).len() >= 8);
    } else {
        lemma_framed_front(a);
        lemma_framed_front(b);
        let la = a[0].len();
        let lb = b[0].len();
        lemma_base256_len(la, 8);
        lemma_base256_len(lb, 8);
        let fa = framed(a);
        assert(fa.subrange(0, 8) =~= be_u64(la));
        assert(framed(b).subrange(0, 8) =~= be_u64(lb));
        lemma_base256_injective(la, lb, 8);
        assert(fa.subrange(8, 8 + la as int) =~= a[0]);
        assert(framed(b).subrange(8, 8 + lb as int) =~= b[0]);
        assert(fa.subrange(8 + la as int, fa.len() as int) =~= framed(a.drop_first()));
        assert(framed(b).subrange(8 + lb as int, framed(b).len() as int) =~= framed(b.drop_first()));
        lemma_framing_unambiguous(a.drop_first(), b.drop_first());
        assert(a =~= seq![a[0]] + a.drop_first());
        assert(b =~= seq![b[0]] + b.drop_first());
    }
}

// ---------------------------------------------------------------------------
// Consent.
// ---------------------------------------------------------------------------

/// A consent lifetime: a positive number of seconds `chrono` can represent.
pub fn consent_lifetime(seconds: i64) -> (r: Result<i64, BookmarkWritebackError>)
    ensures
        0 < seconds <= i64::MAX / 1000 ==> r == Ok::<i64, BookmarkWritebackError>(seconds),
        !(0 < seconds <= i64::MAX / 1000) ==> r == Err::<i64, BookmarkWritebackError>(BookmarkWritebackError::InvalidApprovalInstant),
{
    if !delta_seconds_representable(seconds) {
        return Err(BookmarkWritebackError::InvalidApprovalInstant);
    }
    if seconds <= 0 {
        return Err(BookmarkWritebackError::InvalidApprovalInstant);
    }
    Ok(seconds)
}

/// What recording a consent decides before any write: the target must be a
/// provider post identity, the account owned and connected, and the approval
/// neither future-dated nor already expired after `lifetime` seconds.
pub open spec fn consent_decision(target: Seq<char>, account_state: Option<Seq<char>>, approved_at: Timestamp, now: Timestamp, lifetime: i64) -> Result<Timestamp, BookmarkWritebackError> {
    if !is_target_id(target) {
        Err(BookmarkWritebackError::InvalidTarget)
    } else {
        match account_state {
            None => Err(BookmarkWritebackError::OwnershipMismatch),
            Some(state) => if state != "connected"@ {
                Err(BookmarkWritebackError::ConnectionInactive)
            } else {
                match shifted_instant(approved_at.seconds, approved_at.nanos, lifetime) {
                    None => Err(BookmarkWritebackError::InvalidApprovalInstant),
                    Some(expires_at) => if instant_lt(now, approved_at) || !instant_lt(now, expires_at) {
                        Err(BookmarkWritebackError::InvalidApprovalInstant)
                    } else {
                        Ok(expires_at)
                    },
                }
            },
        }
    }
}

/// A recorded consent is live from its approval: approval at or before now,
/// and expiry strictly after now.
pub proof fn lemma_consent_window_holds_now(target: Seq<char>, account_state: Option<Seq<char>>, approved_at: Timestamp, now: Timestamp, lifetime: i64)
    ensures
        consent_decision(target, account_state, approved_at, now, lifetime) matches Ok(expires_at)
            ==> !instant_lt(now, approved_at) && instant_lt(now, expires_at),
{
}

/// Decides whether a consent may be recorded; its expiry on success.
pub fn consent_window(target: &str, account_state: Option<&str>, approved_at: Timestamp, now: Timestamp, lifetime: i64) -> (r: Result<Timestamp, BookmarkWritebackError>)
    requires
        0 < lifetime <= i64::MAX / 1000,
    ensures
        r == consent_decision(target@, match account_state { Some(s) => Some(s@), None => None }, approved_at, now, lifetime),
{
    validate_provider_post_id(target)?;
    let state = match account_state {
        None => return Err(BookmarkWritebackError::OwnershipMismatch),
        Some(s) => s,
    };
    if !str_eq(state, "connected") {
        return Err(BookmarkWritebackError::ConnectionInactive);
    }
    let expires_at = match shift_seconds(approved_at, lifetime) {
        Some(t) => t,
        None => return Err(BookmarkWritebackError::InvalidApprovalInstant),
    };
    if earlier(now, approved_at) || !earlier(now, expires_at) {
        return Err(BookmarkWritebackError::InvalidApprovalInstant);
    }
    Ok(expires_at)
}

/// Immutable evidence returned after recording one explicit approval.
#[derive(Debug, Clone, PartialEq, Eq)]
pub struct BookmarkWriteConsent {
    pub id: u128,
    pub internal_user_id: u128,
    pub account_id: u128,
    pub action: BookmarkAction,
    pub provider_post_id: String,
    pub approved_at: Timestamp,
    pub expires_at: Timestamp,
    pub surface: ConsentSurfaceId,
}

/// One live bookmark request from an authenticated owner.
#[derive(Debug, Clone, PartialEq, Eq)]
pub struct BookmarkWriteRequest {
    pub internal_user_id: u128,
    pub account_id: u128,
    pub consent_id: u128,
    pub provider_post_id: String,
    pub idempotency_key: String,
}

// ---------------------------------------------------------------------------
// Local admission.
// ---------------------------------------------------------------------------

/// The local decision on one request.
#[derive(Debug, Clone, Copy, PartialEq, Eq, Structural)]
pub enum LocalAdmission {
    /// Every gate admits the request; the budget window resets at the instant.
    Admitted { budget_reset_at: Timestamp },
    /// Durable local evidence already shows the requested state.
    AlreadySatisfied { observed_at: Timestamp },
    /// A gate refuses the request.
    Refused { class: BookmarkAdmissionRefusal, reset_at: Option<Timestamp> },
}

/// The facts the gates read, in the order they read them.
pub struct AdmissionFacts {
    /// The account's connection state, when the owner owns it.
    pub account_state: Option<String>,
    /// The write-authority check.
    pub authority: Result<(), BookmarkWritebackError>,
    /// Whether a live, unconsumed consent matches the request.
    pub consent_live: bool,
    /// The bookmark's last saved and removed observations, when one exists.
    pub observation: Option<(Timestamp, Option<Timestamp>)>,
    /// Whether the budget could admit one request, and when its window resets.
    pub budget: (bool, Timestamp),
}

/// The admission decision: ownership, connection, write authority, consent,
/// existing state, then budget; the first gate that decides wins. Authority
/// failures other than the two refusals are errors.
pub open spec fn admission_decision(action: BookmarkAction, f: AdmissionFacts) -> Result<LocalAdmission, BookmarkWritebackError> {
    match f.account_state {
        None => Ok(LocalAdmission::Refused { class: BookmarkAdmissionRefusal::OwnershipMismatch, reset_at: None }),
        Some(state) => if state@ != "connected"@ {
            Ok(LocalAdmission::Refused { class: BookmarkAdmissionRefusal::ConnectionInactive, reset_at: None })
        } else {
            match f.authority {
                Err(BookmarkWritebackError::WriteAuthorizationRequired) =>
                    Ok(LocalAdmission::Refused { class: BookmarkAdmissionRefusal::WriteAuthorizationRequired, reset_at: None }),
                Err(BookmarkWritebackError::WriteScopeRequired) =>
                    Ok(LocalAdmission::Refused { class: BookmarkAdmissionRefusal::WriteScopeRequired, reset_at: None }),
                Err(e) => Err(e),
                Ok(()) => if !f.consent_live {
                    Ok(LocalAdmission::Refused { class: BookmarkAdmissionRefusal::ConsentRequired, reset_at: None })
                } else {
                    match (action, f.observation) {
                        (BookmarkAction::Add, Some((saved_at, None))) => Ok(LocalAdmission::AlreadySatisfied { observed_at: saved_at }),
                        (BookmarkAction::Remove, Some((_, Some(removed_at)))) => Ok(LocalAdmission::AlreadySatisfied { observed_at: removed_at }),
                        _ => if f.budget.0 {
                            Ok(LocalAdmission::Admitted { budget_reset_at: f.budget.1 })
                        } else {
                            Ok(LocalAdmission::Refused { class: BookmarkAdmissionRefusal::BudgetExhausted, reset_at: Some(f.budget.1) })
                        },
                    }
                },
            }
        }
    }
}

/// Only an owned, connected account with write authority, a live consent, no
/// satisfying observation and an eligible budget admits a provider request.
pub proof fn lemma_admitted_needs_every_gate(action: BookmarkAction, f: AdmissionFacts)
    ensures
        admission_decision(action, f) matches Ok(LocalAdmission::Admitted { .. }) ==> {
            &&& f.account_state matches Some(state) && state@ == "connected"@
            &&& f.authority is Ok
            &&& f.consent_live
            &&& f.budget.0
        },
{
}

/// The ownership and connection gates; `None` lets the request through.
pub fn gate_account(state: Option<&str>) -> (r: Option<LocalAdmission>)
    ensures
        match state {
            None => r == Some(LocalAdmission::Refused { class: BookmarkAdmissionRefusal::OwnershipMismatch, reset_at: None }),
            Some(s) => if s@ != "connected"@ {
                r == Some(LocalAdmission::Refused { class: BookmarkAdmissionRefusal::ConnectionInactive, reset_at: None })
            } else {
                r is None
            },
        },
{
    match state {
        None => Some(LocalAdmission::Refused { class: BookmarkAdmissionRefusal::OwnershipMismatch, reset_at: None }),
        Some(s) => if !str_eq(s, "connected") {
            Some(LocalAdmission::Refused { class: BookmarkAdmissionRefusal::ConnectionInactive, reset_at: None })
        } else {
            None
        },
    }
}

/// The write-authority gate.
pub fn gate_authority(authority: Result<(), BookmarkWritebackError>) -> (r: Result<Option<LocalAdmission>, BookmarkWritebackError>)
    ensures
        match authority {
            Err(BookmarkWritebackError::WriteAuthorizationRequired) => r == Ok::<Option<LocalAdmission>, BookmarkWritebackError>(
                Some(LocalAdmission::Refused { class: BookmarkAdmissionRefusal::WriteAuthorizationRequired, reset_at: None })),
            Err(BookmarkWritebackError::WriteScopeRequired) => r == Ok::<Option<LocalAdmission>, BookmarkWritebackError>(
                Some(LocalAdmission::Refused { class: BookmarkAdmissionRefusal::WriteScopeRequired, reset_at: None })),
            Err(e) => r == Err::<Option<LocalAdmission>, BookmarkWritebackError>(e),
            Ok(()) => r == Ok::<Option<LocalAdmission>, BookmarkWritebackError>(None),
        },
{
    match authority {
        Err(BookmarkWritebackError::WriteAuthorizationRequired) =>
            Ok(Some(LocalAdmission::Refused { class: BookmarkAdmissionRefusal::WriteAuthorizationRequired, reset_at: None })),
        Err(BookmarkWritebackError::WriteScopeRequired) =>
            Ok(Some(LocalAdmission::Refused { class: BookmarkAdmissionRefusal::WriteScopeRequired, reset_at: None })),
        Err(e) => Err(e),
        Ok(()) => Ok(None),
    }
}

/// The consent gate.
pub fn gate_consent(consent_live: bool) -> (r: Option<LocalAdmission>)
    ensures
        r == if consent_live { None } else { Some(LocalAdmission::Refused { class: BookmarkAdmissionRefusal::ConsentRequired, reset_at: None }) },
{
    if consent_live { None } else { Some(LocalAdmission::Refused { class: BookmarkAdmissionRefusal::ConsentRequired, reset_at: None }) }
}

/// The existing-state gate: an add of a saved bookmark, or a removal of an
/// observed removal, is already satisfied.
pub fn gate_observation(action: BookmarkAction, observation: Option<(Timestamp, Option<Timestamp>)>) -> (r: Option<LocalAdmission>)
    ensures
        r == match (action, observation) {
            (BookmarkAction::Add, Some((saved_at, None))) => Some(LocalAdmission::AlreadySatisfied { observed_at: saved_at }),
            (BookmarkAction::Remove, Some((_, Some(removed_at)))) => Some(LocalAdmission::AlreadySatisfied { observed_at: removed_at }),
            _ => None,
        },
{
    match (action, observation) {
        (BookmarkAction::Add, Some((saved_at, None))) => Some(LocalAdmission::AlreadySatisfied { observed_at: saved_at }),
        (BookmarkAction::Remove, Some((_, Some(removed_at)))) => Some(LocalAdmission::AlreadySatisfied { observed_at: removed_at }),
        _ => None,
    }
}

/// The budget gate.
pub fn gate_budget(eligible: bool, reset_at: Timestamp) -> (r: LocalAdmission)
    ensures
        r == if eligible {
            LocalAdmission::Admitted { budget_reset_at: reset_at }
        } else {
            LocalAdmission::Refused { class: BookmarkAdmissionRefusal::BudgetExhausted, reset_at: Some(reset_at) }
        },
{
    if eligible {
        LocalAdmission::Admitted { budget_reset_at: reset_at }
    } else {
        LocalAdmission::Refused { class: BookmarkAdmissionRefusal::BudgetExhausted, reset_at: Some(reset_at) }
    }
}

/// Evaluates local admission from the gathered facts.
pub fn evaluate_local(action: BookmarkAction, facts: AdmissionFacts) -> (r: Result<LocalAdmission, BookmarkWritebackError>)
    ensures
        r == admission_decision(action, facts),
{
    let state = match &facts.account_state {
        Some(s) => Some(s.as_str()),
        None => None,
    };
    if let Some(decided) = gate_account(state) {
        return Ok(decided);
    }
    if let Some(decided) = gate_authority(facts.authority)? {
        return Ok(decided);
    }
    if let Some(decided) = gate_consent(facts.consent_live) {
        return Ok(decided);
    }
    if let Some(decided) = gate_observation(action, facts.observation) {
        return Ok(decided);
    }
    Ok(gate_budget(facts.budget.0, facts.budget.1))
}

/// The advisory result of a dry run.
pub open spec fn dry_run_of(action: BookmarkAction, admission: LocalAdmission, evaluated_at: Timestamp) -> BookmarkDryRunResult {
    match admission {
        LocalAdmission::Refused { class, reset_at } => BookmarkDryRunResult {
            outcome: BookmarkDryRunOutcome::WouldRefuse(class), evaluated_at, observed_at: None, budget_reset_at: reset_at, advisory: true,
        },
        LocalAdmission::AlreadySatisfied { observed_at } => BookmarkDryRunResult {
            outcome: BookmarkDryRunOutcome::WouldAlreadySatisfy(action), evaluated_at, observed_at: Some(observed_at), budget_reset_at: None, advisory: true,
        },
        LocalAdmission::Admitted { budget_reset_at } => BookmarkDryRunResult {
            outcome: BookmarkDryRunOutcome::WouldSubmit(action), evaluated_at, observed_at: None, budget_reset_at: Some(budget_reset_at), advisory: true,
        },
    }
}

pub fn dry_run_result(action: BookmarkAction, admission: LocalAdmission, evaluated_at: Timestamp) -> (r: BookmarkDryRunResult)
    ensures
        r == dry_run_of(action, admission, evaluated_at),
{
    match admission {
        LocalAdmission::Refused { class, reset_at } => BookmarkDryRunResult {
            outcome: BookmarkDryRunOutcome::WouldRefuse(class), evaluated_at, observed_at: None, budget_reset_at: reset_at, advisory: true,
        },
        LocalAdmission::AlreadySatisfied { observed_at } => BookmarkDryRunResult {
            outcome: BookmarkDryRunOutcome::WouldAlreadySatisfy(action), evaluated_at, observed_at: Some(observed_at), budget_reset_at: None, advisory: true,
        },
        LocalAdmission::Admitted { budget_reset_at } => BookmarkDryRunResult {
            outcome: BookmarkDryRunOutcome::WouldSubmit(action), evaluated_at, observed_at: None, budget_reset_at: Some(budget_reset_at), advisory: true,
        },
    }
}

/// The audit event a dry run records for its gates.
pub fn dry_run_gate_event(outcome: BookmarkDryRunOutcome) -> (r: &'static str)
    ensures
        r@ == match outcome {
            BookmarkDryRunOutcome::WouldRefuse(BookmarkAdmissionRefusal::BudgetExhausted) => "budget_refused"@,
            BookmarkDryRunOutcome::WouldRefuse(_) => "gate_refused"@,
            _ => "gate_admitted"@,
        },
{
    match outcome {
        BookmarkDryRunOutcome::WouldRefuse(BookmarkAdmissionRefusal::BudgetExhausted) => "budget_refused",
        BookmarkDryRunOutcome::WouldRefuse(_) => "gate_refused",
        _ => "gate_admitted",
    }
}

impl BudgetError {
    /// The error's display text.
    pub fn message(&self) -> (r: &'static str)
        ensures
            r@ == match *self {
                BudgetError::Exhausted { .. } => "the write budget window is exhausted"@,
                BudgetError::Unavailable => "the write budget is unavailable"@,
            },
    {
        match self {
            BudgetError::Exhausted { .. } => "the write budget window is exhausted",
            BudgetError::Unavailable => "the write budget is unavailable",
        }
    }
}

impl BookmarkProviderError {
    /// The error's display text.
    pub fn message(&self) -> (r: &'static str)
        ensures
            r@ == match *self {
                BookmarkProviderError::Unavailable => "the bookmark provider did not complete the mutation"@,
                BookmarkProviderError::CredentialUnavailable => "the bookmark provider credential state is unavailable"@,
                BookmarkProviderError::CredentialScopeRequired => "the bookmark provider credential lacks required scope evidence"@,
                BookmarkProviderError::CredentialInvalid => "the bookmark provider credential envelope is invalid"@,
                BookmarkProviderError::Transient => "the bookmark provider request failed transiently before contact"@,
                BookmarkProviderError::AuthorizationLost { .. } => "the bookmark provider authorization was lost"@,
                BookmarkProviderError::RateLimited { .. } => "the bookmark provider rate limit was exhausted"@,
                BookmarkProviderError::DefiniteRefusal { .. } => "the bookmark provider returned a definite refusal"@,
                BookmarkProviderError::Uncertain { .. } => "the bookmark provider mutation result is uncertain"@,
            },
    {
        match self {
            BookmarkProviderError::Unavailable => "the bookmark provider did not complete the mutation",
            BookmarkProviderError::CredentialUnavailable => "the bookmark provider credential state is unavailable",
            BookmarkProviderError::CredentialScopeRequired => "the bookmark provider credential lacks required scope evidence",
            BookmarkProviderError::CredentialInvalid => "the bookmark provider credential envelope is invalid",
            BookmarkProviderError::Transient => "the bookmark provider request failed transiently before contact",
            BookmarkProviderError::AuthorizationLost { .. } => "the bookmark provider authorization was lost",
            BookmarkProviderError::RateLimited { .. } => "the bookmark provider rate limit was exhausted",
            BookmarkProviderError::DefiniteRefusal { .. } => "the bookmark provider returned a definite refusal",
            BookmarkProviderError::Uncertain { .. } => "the bookmark provider mutation result is uncertain",
        }
    }
}

impl BookmarkWritebackError {
    /// The error's display text; budget and provider errors show their own.
    pub fn message(&self) -> (r: &'static str)
        ensures
            r@ == match *self {
                BookmarkWritebackError::OwnershipMismatch => "the connected account is not owned by the authenticated user"@,
                BookmarkWritebackError::ConnectionInactive => "the connected account is not active"@,
                BookmarkWritebackError::WriteAuthorizationRequired => "bookmark-write authorization is required"@,
                BookmarkWritebackError::WriteScopeRequired => "the active credential lacks bookmark-write prerequisites"@,
                BookmarkWritebackError::ConsentRequired => "the bookmark mutation has no matching live consent"@,
                BookmarkWritebackError::IdempotencyConflict => "the idempotency key is already bound to a different request"@,
                BookmarkWritebackError::OperationInProgress => "the idempotent bookmark operation is still in progress"@,
                BookmarkWritebackError::InvalidIdempotencyKey => "the idempotency key is invalid"@,
                BookmarkWritebackError::InvalidTarget => "the provider post identity is invalid"@,
                BookmarkWritebackError::InvalidSurface => "the consent surface identifier is invalid"@,
                BookmarkWritebackError::InvalidApprovalInstant => "the consent approval instant is not currently admissible"@,
                BookmarkWritebackError::Budget(BudgetError::Exhausted { .. }) => "the write budget window is exhausted"@,
                BookmarkWritebackError::Budget(BudgetError::Unavailable) => "the write budget is unavailable"@,
                BookmarkWritebackError::InvalidBudgetEvidence => "bookmark-write budget refusal lacked reset evidence"@,
                BookmarkWritebackError::Provider(e) => match e {
                    BookmarkProviderError::Unavailable => "the bookmark provider did not complete the mutation"@,
                    BookmarkProviderError::CredentialUnavailable => "the bookmark provider credential state is unavailable"@,
                    BookmarkProviderError::CredentialScopeRequired => "the bookmark provider credential lacks required scope evidence"@,
                    BookmarkProviderError::CredentialInvalid => "the bookmark provider credential envelope is invalid"@,
                    BookmarkProviderError::Transient => "the bookmark provider request failed transiently before contact"@,
                    BookmarkProviderError::AuthorizationLost { .. } => "the bookmark provider authorization was lost"@,
                    BookmarkProviderError::RateLimited { .. } => "the bookmark provider rate limit was exhausted"@,
                    BookmarkProviderError::DefiniteRefusal { .. } => "the bookmark provider returned a definite refusal"@,
                    BookmarkProviderError::Uncertain { .. } => "the bookmark provider mutation result is uncertain"@,
                },
                BookmarkWritebackError::Query => "bookmark write-back persistence failed"@,
            },
    {
        match self {
            BookmarkWritebackError::OwnershipMismatch => "the connected account is not owned by the authenticated user",
            BookmarkWritebackError::ConnectionInactive => "the connected account is not active",
            BookmarkWritebackError::WriteAuthorizationRequired => "bookmark-write authorization is required",
            BookmarkWritebackError::WriteScopeRequired => "the active credential lacks bookmark-write prerequisites",
            BookmarkWritebackError::ConsentRequired => "the bookmark mutation has no matching live consent",
            BookmarkWritebackError::IdempotencyConflict => "the idempotency key is already bound to a different request",
            BookmarkWritebackError::OperationInProgress => "the idempotent bookmark operation is still in progress",
            BookmarkWritebackError::InvalidIdempotencyKey => "the idempotency key is invalid",
            BookmarkWritebackError::InvalidTarget => "the provider post identity is invalid",
            BookmarkWritebackError::InvalidSurface => "the consent surface identifier is invalid",
            BookmarkWritebackError::InvalidApprovalInstant => "the consent approval instant is not currently admissible",
            BookmarkWritebackError::Budget(b) => b.message(),
            BookmarkWritebackError::InvalidBudgetEvidence => "bookmark-write budget refusal lacked reset evidence",
            BookmarkWritebackError::Provider(e) => e.message(),
            BookmarkWritebackError::Query => "bookmark write-back persistence failed",
        }
    }
}


// ---------------------------------------------------------------------------
// The provider request.
// ---------------------------------------------------------------------------

/// The endpoint of a bookmark mutation: the user's bookmarks for an add, the
/// post under them for a removal.
pub open spec fn bookmark_endpoint(base_url: Seq<char>, provider_user_id: Seq<char>, action: BookmarkAction, provider_post_id: Seq<char>) -> Seq<char> {
    match action {
        BookmarkAction::Add => base_url + "/2/users/"@ + provider_user_id + "/bookmarks"@,
        BookmarkAction::Remove => base_url + "/2/users/"@ + provider_user_id + "/bookmarks/"@ + provider_post_id,
    }
}

/// The JSON body of a bookmark mutation: `{"tweet_id":...}` for an add, none
/// for a removal.
pub open spec fn bookmark_body(action: BookmarkAction, provider_post_id: Seq<char>) -> Option<Seq<char>> {
    match action {
        BookmarkAction::Add => Some(object_text(seq![member_text("tweet_id"@, string_literal(provider_post_id))])),
        BookmarkAction::Remove => None,
    }
}

/// Builds the request a bookmark mutation sends: its endpoint and its body.
pub fn bookmark_request(base_url: &str, provider_user_id: &str, action: BookmarkAction, provider_post_id: &str)
    -> (r: (String, Option<String>))
    ensures
        r.0@ == bookmark_endpoint(base_url@, provider_user_id@, action, provider_post_id@),
        opt_str(r.1) == bookmark_body(action, provider_post_id@),
{
    let mut url = chars_of(base_url);
    extend_chars(&mut url, &chars_of("/2/users/"));
    extend_chars(&mut url, &chars_of(provider_user_id));
    match action {
        BookmarkAction::Add => {
            extend_chars(&mut url, &chars_of("/bookmarks"));
            let mut members: Vec<Vec<char>> = Vec::new();
            members.push(member_text_exec("tweet_id", &string_literal_exec(provider_post_id)));
            assert(views(members@) =~= seq![member_text("tweet_id"@, string_literal(provider_post_id@))]);
            let body = string_of(&object_text_exec(&members));
            assert(url@ =~= bookmark_endpoint(base_url@, provider_user_id@, action, provider_post_id@));
            (string_of(&url), Some(body))
        },
        BookmarkAction::Remove => {
            extend_chars(&mut url, &chars_of("/bookmarks/"));
            extend_chars(&mut url, &chars_of(provider_post_id));
            assert(url@ =~= bookmark_endpoint(base_url@, provider_user_id@, action, provider_post_id@));
            (string_of(&url), None)
        },
    }
}

} // verus!
