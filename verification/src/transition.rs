//! The owner-facing transition steps: import admission, the cutover checklist,
//! and recorded owner decisions.

use vstd::prelude::*;
use vstd::utf8::encode_utf8;
use crate::digest::{sha256_hex_of, sha256_text};
use crate::ids::{uuid_text, uuid_string};
use crate::json::{JsonValue, json_document, parse_json_document, JsonNumber, json_get, json_get_exec, str_eq};
use crate::legacy::{ApprovalDecision, ImportCounts, LegacyTransitionError, is_sha256_text, valid_sha256, nonnegative_count};
use crate::shadow::ShadowSummary;
use crate::text::{chars_of, decimal, decimal_exec, extend_chars, signed_decimal, signed_decimal_exec, string_of};
use crate::time::Timestamp;

verus! {

// ---------------------------------------------------------------------------
// Import admission.
// ---------------------------------------------------------------------------

/// Explicit owner mapping bound to one target account and preflight source digest.
#[derive(Debug, Clone, PartialEq, Eq)]
pub struct OwnershipApproval {
    /// Existing X account selected by the owner.
    pub account_id: u128,
    /// Internal owner already bound to that account.
    pub internal_owner_id: u128,
    /// Exact selected source artifact digest.
    pub source_digest: String,
    /// Digest of the reviewed owner mapping evidence.
    pub approval_digest: String,
}

/// The stored state of the selected target account.
#[derive(Debug, Clone, PartialEq, Eq)]
pub struct TargetAccount {
    /// The internal owner bound to the account.
    pub internal_owner_id: u128,
    /// The provider user the account was connected as.
    pub provider_user_id: String,
    /// The connection state.
    pub state: String,
}

/// Durable result of one accepted or idempotently reused import.
#[derive(Debug, Clone, Copy, PartialEq, Eq)]
pub struct ImportOutcome {
    /// Persisted import run identity.
    pub run_id: u128,
    /// Deterministic terminal counts.
    pub counts: ImportCounts,
    /// Whether a prior identical completed run was reused without writes.
    pub reused: bool,
}

/// The approval checks made before any account is read: an approval is
/// required, bound to the batch's source digest, with a SHA-256 evidence digest.
pub fn check_ownership_approval(approval: Option<&OwnershipApproval>, batch_source_digest: &str) -> (r: Result<(), LegacyTransitionError>)
    ensures
        match approval {
            None => r == Err::<(), LegacyTransitionError>(LegacyTransitionError::MissingOwnershipApproval),
            Some(a) => if a.source_digest@ != batch_source_digest@ || !is_sha256_text(a.approval_digest@) {
                r == Err::<(), LegacyTransitionError>(LegacyTransitionError::InvalidOwnershipApproval)
            } else {
                r == Ok::<(), LegacyTransitionError>(())
            },
        },
{
    let a = match approval {
        None => return Err(LegacyTransitionError::MissingOwnershipApproval),
        Some(a) => a,
    };
    if !str_eq(a.source_digest.as_str(), batch_source_digest) || !valid_sha256(a.approval_digest.as_str()) {
        return Err(LegacyTransitionError::InvalidOwnershipApproval);
    }
    Ok(())
}

/// The account checks that follow: the account must exist, belong to the
/// approving owner and be connected.
pub fn check_target_account(account: Option<&TargetAccount>, approval: &OwnershipApproval) -> (r: Result<(), LegacyTransitionError>)
    ensures
        match account {
            None => r == Err::<(), LegacyTransitionError>(LegacyTransitionError::TargetAccountNotFound),
            Some(t) => if t.internal_owner_id != approval.internal_owner_id {
                r == Err::<(), LegacyTransitionError>(LegacyTransitionError::InvalidOwnershipApproval)
            } else if t.state@ != "connected"@ {
                r == Err::<(), LegacyTransitionError>(LegacyTransitionError::TargetAccountNotConnected)
            } else {
                r == Ok::<(), LegacyTransitionError>(())
            },
        },
{
    let t = match account {
        None => return Err(LegacyTransitionError::TargetAccountNotFound),
        Some(t) => t,
    };
    if t.internal_owner_id != approval.internal_owner_id {
        return Err(LegacyTransitionError::InvalidOwnershipApproval);
    }
    if !str_eq(t.state.as_str(), "connected") {
        return Err(LegacyTransitionError::TargetAccountNotConnected);
    }
    Ok(())
}

/// The identity check: the provider user the current OAuth credential
/// authenticates must be the one the account was connected as.
pub fn check_current_identity(current_provider_user_id: &str, account: &TargetAccount) -> (r: Result<(), LegacyTransitionError>)
    ensures
        current_provider_user_id@ == account.provider_user_id@ ==> r == Ok::<(), LegacyTransitionError>(()),
        current_provider_user_id@ != account.provider_user_id@ ==> r == Err::<(), LegacyTransitionError>(LegacyTransitionError::CurrentIdentityMismatch),
{
    if str_eq(current_provider_user_id, account.provider_user_id.as_str()) {
        Ok(())
    } else {
        Err(LegacyTransitionError::CurrentIdentityMismatch)
    }
}

// ---------------------------------------------------------------------------
// The checklist.
// ---------------------------------------------------------------------------

/// The evidence a checklist binds.
#[derive(Debug, Clone, PartialEq, Eq)]
pub struct ChecklistEvidence {
    pub account_id: u128,
    pub import_run_id: u128,
    pub shadow_report_id: u128,
    pub snapshot_id: u128,
    pub inserted: i32,
    pub matched: i32,
    pub updated: i32,
    pub conflicted: i32,
    pub rejected: i32,
    pub unmapped: i32,
    pub import_digest: String,
    pub snapshot_digest: String,
    pub report_digest: String,
    pub summary: ShadowSummary,
}

/// Deterministic owner checklist bound to one persisted shadow report.
#[derive(Debug, Clone, PartialEq, Eq)]
pub struct ChecklistOutcome {
    /// Exact Markdown reviewed by the owner.
    pub markdown: String,
    /// SHA-256 of the exact Markdown bytes.
    pub checklist_digest: String,
    /// Shadow report evidence bound into the checklist.
    pub shadow_report_id: u128,
}

/// The Markdown checklist an owner reviews before cutover.
pub open spec fn checklist_text(e: ChecklistEvidence) -> Seq<char> {
    "# Field Theory cutover checklist\n\nAccount: `"@
        + uuid_text(e.account_id)
        + "`  \nImport run: `"@
        + uuid_text(e.import_run_id)
        + "`  \nShadow report: `"@
        + uuid_text(e.shadow_report_id)
        + "`  \nComplete snapshot: `"@
        + uuid_text(e.snapshot_id)
        + "`\n\n## Backup\n\n- [ ] Confirm the read-only legacy archive backup and PostgreSQL backup are retained.\n\n## Import counts\n\n- Inserted: "@
        + signed_decimal(e.inserted as int)
        + "\n- Matched: "@
        + signed_decimal(e.matched as int)
        + "\n- Updated: "@
        + signed_decimal(e.updated as int)
        + "\n- Conflicted: "@
        + signed_decimal(e.conflicted as int)
        + "\n- Rejected: "@
        + signed_decimal(e.rejected as int)
        + "\n- Unmapped: "@
        + signed_decimal(e.unmapped as int)
        + "\n- Import digest: `"@
        + e.import_digest@
        + "`\n\n## Complete official snapshot\n\n- [ ] Confirm snapshot `"@
        + uuid_text(e.snapshot_id)
        + "` remains the current complete successful full snapshot.\n- Snapshot digest: `"@
        + e.snapshot_digest@
        + "`\n\n## Shadow findings\n\n- Provider-ID matched: "@
        + decimal(e.summary.matched as nat)
        + "\n- URL matched: "@
        + decimal(e.summary.url_matched as nat)
        + "\n- Legacy only: "@
        + decimal(e.summary.legacy_only as nat)
        + "\n- Official only: "@
        + decimal(e.summary.official_only as nat)
        + "\n- Identity conflicts: "@
        + decimal(e.summary.identity_conflicts as nat)
        + "\n- Unmapped: "@
        + decimal(e.summary.unmapped as nat)
        + "\n- Report digest: `"@
        + e.report_digest@
        + "`\n\n## Privacy and cost review\n\n- [ ] Confirm no cookies, tokens, sessions, source paths, post bodies, URLs, or handles entered evidence records.\n- [ ] Confirm the official full snapshot cost and rate-limit evidence are accepted.\n\n## Workspace changeset\n\n- [ ] Approve a separate `ratatoskr-workspace` changeset before any external routing change.\n\n## Stability window\n\n- [ ] Record the owner-approved shadow stability window and monitoring owner.\n\n## Rollback\n\n1. Stop the external routing rollout in the workspace changeset.\n2. Restore the previous routing revision; do not delete imported, report, or approval evidence.\n3. Re-run `shadow-report` against the current complete official snapshot before another approval.\n\n## Evidence retention\n\n- [ ] Retain the legacy source unchanged, import run, shadow JSON, this checklist, owner decision evidence, and rollback record.\n"@
}

/// The owner checklist for one shadow report.
pub fn checklist_markdown(e: &ChecklistEvidence) -> (r: String)
    ensures
        r@ == checklist_text(*e),
{
    let mut out: Vec<char> = Vec::new();
    extend_chars(&mut out, &chars_of("# Field Theory cutover checklist\n\nAccount: `"));
    extend_chars(&mut out, &uuid_string(e.account_id));
    extend_chars(&mut out, &chars_of("`  \nImport run: `"));
    extend_chars(&mut out, &uuid_string(e.import_run_id));
    extend_chars(&mut out, &chars_of("`  \nShadow report: `"));
    extend_chars(&mut out, &uuid_string(e.shadow_report_id));
    extend_chars(&mut out, &chars_of("`  \nComplete snapshot: `"));
    extend_chars(&mut out, &uuid_string(e.snapshot_id));
    extend_chars(&mut out, &chars_of("`\n\n## Backup\n\n- [ ] Confirm the read-only legacy archive backup and PostgreSQL backup are retained.\n\n## Import counts\n\n- Inserted: "));
    extend_chars(&mut out, &signed_decimal_exec(e.inserted as i64));
    extend_chars(&mut out, &chars_of("\n- Matched: "));
    extend_chars(&mut out, &signed_decimal_exec(e.matched as i64));
    extend_chars(&mut out, &chars_of("\n- Updated: "));
    extend_chars(&mut out, &signed_decimal_exec(e.updated as i64));
    extend_chars(&mut out, &chars_of("\n- Conflicted: "));
    extend_chars(&mut out, &signed_decimal_exec(e.conflicted as i64));
    extend_chars(&mut out, &chars_of("\n- Rejected: "));
    extend_chars(&mut out, &signed_decimal_exec(e.rejected as i64));
    extend_chars(&mut out, &chars_of("\n- Unmapped: "));
    extend_chars(&mut out, &signed_decimal_exec(e.unmapped as i64));
    extend_chars(&mut out, &chars_of("\n- Import digest: `"));
    extend_chars(&mut out, &chars_of(e.import_digest.as_str()));
    extend_chars(&mut out, &chars_of("`\n\n## Complete official snapshot\n\n- [ ] Confirm snapshot `"));
    extend_chars(&mut out, &uuid_string(e.snapshot_id));
    extend_chars(&mut out, &chars_of("` remains the current complete successful full snapshot.\n- Snapshot digest: `"));
    extend_chars(&mut out, &chars_of(e.snapshot_digest.as_str()));
    extend_chars(&mut out, &chars_of("`\n\n## Shadow findings\n\n- Provider-ID matched: "));
    extend_chars(&mut out, &decimal_exec(e.summary.matched));
    extend_chars(&mut out, &chars_of("\n- URL matched: "));
    extend_chars(&mut out, &decimal_exec(e.summary.url_matched));
    extend_chars(&mut out, &chars_of("\n- Legacy only: "));
    extend_chars(&mut out, &decimal_exec(e.summary.legacy_only));
    extend_chars(&mut out, &chars_of("\n- Official only: "));
    extend_chars(&mut out, &decimal_exec(e.summary.official_only));
    extend_chars(&mut out, &chars_of("\n- Identity conflicts: "));
    extend_chars(&mut out, &decimal_exec(e.summary.identity_conflicts));
    extend_chars(&mut out, &chars_of("\n- Unmapped: "));
    extend_chars(&mut out, &decimal_exec(e.summary.unmapped));
    extend_chars(&mut out, &chars_of("\n- Report digest: `"));
    extend_chars(&mut out, &chars_of(e.report_digest.as_str()));
    extend_chars(&mut out, &chars_of("`\n\n## Privacy and cost review\n\n- [ ] Confirm no cookies, tokens, sessions, source paths, post bodies, URLs, or handles entered evidence records.\n- [ ] Confirm the official full snapshot cost and rate-limit evidence are accepted.\n\n## Workspace changeset\n\n- [ ] Approve a separate `ratatoskr-workspace` changeset before any external routing change.\n\n## Stability window\n\n- [ ] Record the owner-approved shadow stability window and monitoring owner.\n\n## Rollback\n\n1. Stop the external routing rollout in the workspace changeset.\n2. Restore the previous routing revision; do not delete imported, report, or approval evidence.\n3. Re-run `shadow-report` against the current complete official snapshot before another approval.\n\n## Evidence retention\n\n- [ ] Retain the legacy source unchanged, import run, shadow JSON, this checklist, owner decision evidence, and rollback record.\n"));
    assert(out@ =~= checklist_text(*e));
    string_of(&out)
}

/// The checklist for the evidence and the SHA-256 of its bytes.
pub fn checklist_for_evidence(e: &ChecklistEvidence) -> (r: ChecklistOutcome)
    ensures
        r.markdown@ == checklist_text(*e),
        r.checklist_digest@ == sha256_hex_of(encode_utf8(checklist_text(*e))),
        r.shadow_report_id == e.shadow_report_id,
{
    let markdown = checklist_markdown(e);
    let checklist_digest = sha256_text(markdown.as_str());
    ChecklistOutcome { markdown, checklist_digest, shadow_report_id: e.shadow_report_id }
}

/// A non-negative integer member of a stored summary object (`Value::as_u64`).
pub open spec fn summary_count(summary: JsonValue, field: Seq<char>) -> Option<u64> {
    match json_get(summary, field) {
        Some(JsonValue::Number(JsonNumber::PosInt(n))) => Some(n),
        _ => None,
    }
}

fn summary_count_exec(summary: &JsonValue, field: &str) -> (r: Result<u64, LegacyTransitionError>)
    ensures
        match summary_count(*summary, field@) {
            Some(n) => r == Ok::<u64, LegacyTransitionError>(n),
            None => r == Err::<u64, LegacyTransitionError>(LegacyTransitionError::Database),
        },
{
    match json_get_exec(summary, field) {
        Some(JsonValue::Number(JsonNumber::PosInt(n))) => Ok(*n),
        _ => Err(LegacyTransitionError::Database),
    }
}

/// The summary counts a stored report payload holds under `summary`; a
/// payload without them is a database failure.
pub open spec fn stored_summary(payload: JsonValue) -> Option<ShadowSummary> {
    match json_get(payload, "summary"@) {
        Some(s) => if s is Object {
            match (summary_count(s, "matched"@), summary_count(s, "url_matched"@), summary_count(s, "legacy_only"@),
                summary_count(s, "official_only"@), summary_count(s, "identity_conflicts"@), summary_count(s, "unmapped"@)) {
                (Some(a), Some(b), Some(c), Some(d), Some(f), Some(g)) => Some(ShadowSummary {
                    matched: a, url_matched: b, legacy_only: c, official_only: d, identity_conflicts: f, unmapped: g,
                }),
                _ => None,
            }
        } else {
            None
        },
        None => None,
    }
}

/// Reads the summary counts of a stored report payload.
pub fn report_summary(payload: &JsonValue) -> (r: Result<ShadowSummary, LegacyTransitionError>)
    ensures
        match stored_summary(*payload) {
            Some(s) => r == Ok::<ShadowSummary, LegacyTransitionError>(s),
            None => r == Err::<ShadowSummary, LegacyTransitionError>(LegacyTransitionError::Database),
        },
{
    let summary = match json_get_exec(payload, "summary") {
        Some(s) => s,
        None => return Err(LegacyTransitionError::Database),
    };
    match summary {
        JsonValue::Object(_) => {},
        _ => return Err(LegacyTransitionError::Database),
    }
    let matched = summary_count_exec(summary, "matched")?;
    let url_matched = summary_count_exec(summary, "url_matched")?;
    let legacy_only = summary_count_exec(summary, "legacy_only")?;
    let official_only = summary_count_exec(summary, "official_only")?;
    let identity_conflicts = summary_count_exec(summary, "identity_conflicts")?;
    let unmapped = summary_count_exec(summary, "unmapped")?;
    Ok(ShadowSummary { matched, url_matched, legacy_only, official_only, identity_conflicts, unmapped })
}

// ---------------------------------------------------------------------------
// Owner decisions.
// ---------------------------------------------------------------------------

/// Exact owner decision input, containing digests rather than private evidence bodies.
#[derive(Debug, Clone, PartialEq, Eq)]
pub struct TransitionApprovalRequest {
    pub account_id: u128,
    pub internal_owner_id: u128,
    pub shadow_report_id: u128,
    pub checklist_digest: String,
    pub owner_evidence_digest: String,
    pub decision: ApprovalDecision,
    pub decided_at: Timestamp,
}

/// Durable result of recording one owner decision.
#[derive(Debug, Clone, Copy, PartialEq, Eq)]
pub struct TransitionApprovalOutcome {
    pub approval_id: u128,
    pub reused: bool,
}

/// A decision request must carry SHA-256 digests and bind the checklist the
/// owner reviewed, which must be the current one.
pub fn check_decision_digests(request: &TransitionApprovalRequest, current_checklist_digest: &str) -> (r: Result<(), LegacyTransitionError>)
    ensures
        is_sha256_text(request.owner_evidence_digest@) && is_sha256_text(request.checklist_digest@)
            && request.checklist_digest@ == current_checklist_digest@ ==> r == Ok::<(), LegacyTransitionError>(()),
        !(is_sha256_text(request.owner_evidence_digest@) && is_sha256_text(request.checklist_digest@)
            && request.checklist_digest@ == current_checklist_digest@) ==> r == Err::<(), LegacyTransitionError>(LegacyTransitionError::ChecklistDigestMismatch),
{
    if !valid_sha256(request.owner_evidence_digest.as_str()) || !valid_sha256(request.checklist_digest.as_str()) {
        return Err(LegacyTransitionError::ChecklistDigestMismatch);
    }
    if !str_eq(request.checklist_digest.as_str(), current_checklist_digest) {
        return Err(LegacyTransitionError::ChecklistDigestMismatch);
    }
    Ok(())
}

/// The stored name of a decision.
pub open spec fn decision_token(d: ApprovalDecision) -> Seq<char> {
    match d {
        ApprovalDecision::Approved => "approved"@,
        ApprovalDecision::Rejected => "rejected"@,
    }
}

pub fn decision_name(d: ApprovalDecision) -> (r: &'static str)
    ensures
        r@ == decision_token(d),
{
    match d {
        ApprovalDecision::Approved => "approved",
        ApprovalDecision::Rejected => "rejected",
    }
}

/// The review state a decision leaves its report in.
pub open spec fn review_state_token(d: ApprovalDecision) -> Seq<char> {
    match d {
        ApprovalDecision::Approved => "reviewable"@,
        ApprovalDecision::Rejected => "owner_review_required"@,
    }
}

pub fn review_state(d: ApprovalDecision) -> (r: &'static str)
    ensures
        r@ == review_state_token(d),
{
    match d {
        ApprovalDecision::Approved => "reviewable",
        ApprovalDecision::Rejected => "owner_review_required",
    }
}

/// What the stored state decides for a decision: the requester must own the
/// account; the report must exist for it and its snapshot be current
/// authority; an identical live decision is reused, an identical superseded
/// one refused as stale, and otherwise a new decision is recorded (`None`).
pub fn approval_target(
    owner: Option<u128>,
    request: &TransitionApprovalRequest,
    report_snapshot: Option<u128>,
    snapshot_authoritative: bool,
    existing: Option<(u128, bool)>,
) -> (r: Result<Option<u128>, LegacyTransitionError>)
    ensures
        owner != Some(request.internal_owner_id) ==> r == Err::<Option<u128>, LegacyTransitionError>(LegacyTransitionError::InvalidOwnershipApproval),
        owner == Some(request.internal_owner_id) && report_snapshot is None ==> r == Err::<Option<u128>, LegacyTransitionError>(LegacyTransitionError::ShadowReportUnavailable),
        owner == Some(request.internal_owner_id) && report_snapshot is Some && !snapshot_authoritative ==> r == Err::<Option<u128>, LegacyTransitionError>(LegacyTransitionError::SnapshotNotAuthoritative),
        owner == Some(request.internal_owner_id) && report_snapshot is Some && snapshot_authoritative ==> r == match existing {
            Some((_, true)) => Err::<Option<u128>, LegacyTransitionError>(LegacyTransitionError::ChecklistDigestMismatch),
            Some((id, false)) => Ok::<Option<u128>, LegacyTransitionError>(Some(id)),
            None => Ok::<Option<u128>, LegacyTransitionError>(None),
        },
{
    if owner != Some(request.internal_owner_id) {
        return Err(LegacyTransitionError::InvalidOwnershipApproval);
    }
    if report_snapshot.is_none() {
        return Err(LegacyTransitionError::ShadowReportUnavailable);
    }
    if !snapshot_authoritative {
        return Err(LegacyTransitionError::SnapshotNotAuthoritative);
    }
    match existing {
        Some((_, true)) => Err(LegacyTransitionError::ChecklistDigestMismatch),
        Some((id, false)) => Ok(Some(id)),
        None => Ok(None),
    }
}

// ---------------------------------------------------------------------------
// The current provider identity and the locked account.
// ---------------------------------------------------------------------------

/// The largest identity response read, in bytes.
pub const IDENTITY_BODY_LIMIT: usize = 65536;

/// A credential can look up the current identity only with `users.read`.
pub fn identity_scope_granted(scopes: &Vec<String>) -> (r: bool)
    ensures
        r == exists|i: int| 0 <= i < scopes@.len() && (#[trigger] scopes@[i])@ == "users.read"@,
{
    let mut i: usize = 0;
    while i < scopes.len()
        invariant
            i <= scopes.len(),
            forall|k: int| 0 <= k < i ==> (#[trigger] scopes@[k])@ != "users.read"@,
        decreases scopes.len() - i,
    {
        if str_eq(scopes[i].as_str(), "users.read") {
            return true;
        }
        i += 1;
    }
    false
}

/// An identity response is read only when it succeeded and does not announce
/// more than the limit.
pub fn identity_response_acceptable(success: bool, content_length: Option<u64>) -> (r: bool)
    ensures
        r == (success && !(content_length matches Some(n) && n > IDENTITY_BODY_LIMIT)),
{
    success && match content_length {
        Some(n) => n <= 65536u64,
        None => true,
    }
}

/// Whether a further chunk keeps the body within the limit.
pub fn identity_chunk_fits(read_so_far: usize, chunk: usize) -> (r: bool)
    ensures
        r == (read_so_far + chunk <= IDENTITY_BODY_LIMIT),
{
    read_so_far <= 65536usize && chunk <= 65536usize - read_so_far
}

/// The provider user identity in an identity response: the non-empty string
/// at `data.id`.
pub open spec fn provider_user_id_in(body: Option<JsonValue>) -> Option<Seq<char>> {
    match body {
        Some(v) => match json_get(v, "data"@) {
            Some(data) => match json_get(data, "id"@) {
                Some(JsonValue::Str(id)) => if id@.len() > 0 { Some(id@) } else { None },
                _ => None,
            },
            None => None,
        },
        None => None,
    }
}

/// Reads the provider user identity from an identity response body, read as JSON.
pub fn provider_user_id_from(body: &[u8]) -> (r: Result<String, LegacyTransitionError>)
    ensures
        match provider_user_id_in(json_document(body@)) {
            Some(id) => r matches Ok(s) && s@ == id,
            None => r == Err::<String, LegacyTransitionError>(LegacyTransitionError::CurrentIdentityUnavailable),
        },
{
    let document = parse_json_document(body);
    let v = match &document {
        Some(v) => v,
        None => return Err(LegacyTransitionError::CurrentIdentityUnavailable),
    };
    let data = match json_get_exec(v, "data") {
        Some(d) => d,
        None => return Err(LegacyTransitionError::CurrentIdentityUnavailable),
    };
    match json_get_exec(data, "id") {
        Some(JsonValue::Str(id)) => if !id.as_str().is_empty() {
            Ok(id.clone())
        } else {
            Err(LegacyTransitionError::CurrentIdentityUnavailable)
        },
        _ => Err(LegacyTransitionError::CurrentIdentityUnavailable),
    }
}

/// The import's target account, locked for the import: it must exist, still
/// belong to the approved owner, be connected, and be the identity the
/// provider just confirmed. `locked` is the owner, provider identity and state.
pub open spec fn locked_account_check(locked: Option<(u128, Seq<char>, Seq<char>)>, owner: u128, verified: Seq<char>)
    -> Result<(), LegacyTransitionError>
{
    match locked {
        None => Err(LegacyTransitionError::TargetAccountNotFound),
        Some((internal_owner, provider_user_id, state)) => if internal_owner != owner {
            Err(LegacyTransitionError::InvalidOwnershipApproval)
        } else if state != "connected"@ {
            Err(LegacyTransitionError::TargetAccountNotConnected)
        } else if provider_user_id != verified {
            Err(LegacyTransitionError::CurrentIdentityMismatch)
        } else {
            Ok(())
        },
    }
}

pub fn check_locked_account(locked: Option<(u128, &str, &str)>, owner: u128, verified: &str) -> (r: Result<(), LegacyTransitionError>)
    ensures
        r == locked_account_check(match locked { Some((o, p, s)) => Some((o, p@, s@)), None => None }, owner, verified@),
{
    match locked {
        None => Err(LegacyTransitionError::TargetAccountNotFound),
        Some((internal_owner, provider_user_id, state)) => if internal_owner != owner {
            Err(LegacyTransitionError::InvalidOwnershipApproval)
        } else if !str_eq(state, "connected") {
            Err(LegacyTransitionError::TargetAccountNotConnected)
        } else if !str_eq(provider_user_id, verified) {
            Err(LegacyTransitionError::CurrentIdentityMismatch)
        } else {
            Ok(())
        },
    }
}

// ---------------------------------------------------------------------------
// Reading a source file.
// ---------------------------------------------------------------------------

/// A source must be a regular file no larger than the limit.
pub fn check_source_metadata(is_file: bool, len: u64, max_bytes: u64) -> (r: Result<(), LegacyTransitionError>)
    ensures
        r == if !is_file {
            Err(LegacyTransitionError::SourceUnavailable)
        } else if len > max_bytes {
            Err(LegacyTransitionError::SourceTooLarge)
        } else {
            Ok::<(), LegacyTransitionError>(())
        },
{
    if !is_file {
        Err(LegacyTransitionError::SourceUnavailable)
    } else if len > max_bytes {
        Err(LegacyTransitionError::SourceTooLarge)
    } else {
        Ok(())
    }
}

/// Each read of the source must stay within the limit.
pub fn check_source_read(read: &Vec<u8>, max_bytes: u64) -> (r: Result<(), LegacyTransitionError>)
    ensures
        r == if read@.len() > max_bytes { Err(LegacyTransitionError::SourceTooLarge) } else { Ok::<(), LegacyTransitionError>(()) },
{
    if read.len() as u64 > max_bytes {
        Err(LegacyTransitionError::SourceTooLarge)
    } else {
        Ok(())
    }
}

/// The source is read twice; the reads must agree, else it changed under the import.
pub fn check_source_stable(first: &Vec<u8>, second: &Vec<u8>) -> (r: Result<(), LegacyTransitionError>)
    ensures
        r == if first@ == second@ { Ok::<(), LegacyTransitionError>(()) } else { Err(LegacyTransitionError::SourceChanged) },
{
    if first.len() != second.len() {
        return Err(LegacyTransitionError::SourceChanged);
    }
    let mut i: usize = 0;
    while i < first.len()
        invariant
            i <= first.len(),
            first.len() == second.len(),
            forall|k: int| 0 <= k < i ==> first@[k] == second@[k],
        decreases first.len() - i,
    {
        if first[i] != second[i] {
            return Err(LegacyTransitionError::SourceChanged);
        }
        i += 1;
    }
    assert(first@ =~= second@);
    Ok(())
}

// ---------------------------------------------------------------------------
// Reusing a completed import.
// ---------------------------------------------------------------------------

/// A prior import run of the same account, source and parser: its status and
/// stored counts (inserted, matched, updated, conflicted, rejected, unmapped).
pub struct PriorImportRun {
    pub run_id: u128,
    pub status: String,
    pub counts: [i32; 6],
}

pub open spec fn stored_counts(c: [i32; 6]) -> Option<ImportCounts> {
    if c@[0] >= 0 && c@[1] >= 0 && c@[2] >= 0 && c@[3] >= 0 && c@[4] >= 0 && c@[5] >= 0 {
        Some(ImportCounts {
            inserted: c@[0] as u64,
            matched: c@[1] as u64,
            updated: c@[2] as u64,
            conflicted: c@[3] as u64,
            rejected: c@[4] as u64,
            unmapped: c@[5] as u64,
        })
    } else {
        None
    }
}

/// An identical import is reused without writes once it completed; a prior
/// run that did not complete, or whose counts are negative, is a database failure.
pub fn reuse_prior_import(prior: &PriorImportRun) -> (r: Result<ImportOutcome, LegacyTransitionError>)
    ensures
        prior.status@ != "completed"@ ==> r == Err::<ImportOutcome, LegacyTransitionError>(LegacyTransitionError::Database),
        prior.status@ == "completed"@ ==> match stored_counts(prior.counts) {
            Some(counts) => r == Ok::<ImportOutcome, LegacyTransitionError>(ImportOutcome { run_id: prior.run_id, counts, reused: true }),
            None => r == Err::<ImportOutcome, LegacyTransitionError>(LegacyTransitionError::Database),
        },
{
    if !str_eq(prior.status.as_str(), "completed") {
        return Err(LegacyTransitionError::Database);
    }
    let inserted = nonnegative_count(prior.counts[0])?;
    let matched = nonnegative_count(prior.counts[1])?;
    let updated = nonnegative_count(prior.counts[2])?;
    let conflicted = nonnegative_count(prior.counts[3])?;
    let rejected = nonnegative_count(prior.counts[4])?;
    let unmapped = nonnegative_count(prior.counts[5])?;
    Ok(ImportOutcome {
        run_id: prior.run_id,
        counts: ImportCounts { inserted, matched, updated, conflicted, rejected, unmapped },
        reused: true,
    })
}

} // verus!
