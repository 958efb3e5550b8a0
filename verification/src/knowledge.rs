//! Linking Knowledge analysis completions to retained social-source revisions.

use vstd::prelude::*;
use crate::time::{Timestamp, parse_utc_datetime, utc_datetime_from_str};
use crate::json::{JsonValue, json_same, json_equal, json_canonical, str_eq};
use crate::social_sources::tagged_uuid;
use crate::ids::uuid_string;
use crate::text::{chars_of, extend_chars, chars_eq_str};

verus! {

/// Replay admission for one Knowledge completion fact.
#[derive(Debug, Clone, Copy, PartialEq, Eq, Structural)]
pub enum KnowledgeAnalysisAdmission {
    /// The completion linked to the source's current digest.
    LinkedCurrent,
    /// The completion linked to a retained older digest.
    LinkedHistorical,
    /// The completion event or source digest was already linked.
    Duplicate,
}

/// Knowledge completion consumption failure.
#[derive(Debug, Clone, Copy, PartialEq, Eq, Structural)]
pub enum KnowledgeIntegrationError {
    /// The inbound fact is malformed, foreign, unknown, or no longer linkable.
    InvalidCompletion,
    /// The owned inbox or linkage state could not be persisted.
    Query,
}

/// The only producer whose completions are consumed.
pub open spec fn knowledge_producer() -> Seq<char> {
    "ratatoskr-knowledge"@
}

/// Whether an envelope comes from Knowledge and is scoped to the completion's owner.
pub open spec fn completion_origin_ok(producer: Seq<char>, tenant_id: Option<Seq<char>>, owner: Seq<char>) -> bool {
    producer == knowledge_producer() && tenant_id == Some(owner)
}

/// Checks the envelope's producer and tenant against the completion's owner.
pub fn check_completion_origin(producer: &str, tenant_id: Option<&str>, owner: &str) -> (r: Result<(), KnowledgeIntegrationError>)
    ensures
        r is Ok <==> completion_origin_ok(producer@, match tenant_id { Some(t) => Some(t@), None => None }, owner@),
        r is Err ==> r == Err::<(), KnowledgeIntegrationError>(KnowledgeIntegrationError::InvalidCompletion),
{
    if !str_eq(producer, "ratatoskr-knowledge") {
        return Err(KnowledgeIntegrationError::InvalidCompletion);
    }
    match tenant_id {
        Some(tenant) => if str_eq(tenant, owner) {
            Ok(())
        } else {
            Err(KnowledgeIntegrationError::InvalidCompletion)
        },
        None => Err(KnowledgeIntegrationError::InvalidCompletion),
    }
}

/// The completion instant: its text read as a UTC instant
/// (`str::parse::<DateTime<Utc>>`); a text that does not read is an invalid
/// completion.
pub fn completion_instant(completed_at: &str) -> (r: Result<Timestamp, KnowledgeIntegrationError>)
    ensures
        r == match utc_datetime_from_str(completed_at@) {
            Some(t) => Ok::<Timestamp, KnowledgeIntegrationError>(t),
            None => Err(KnowledgeIntegrationError::InvalidCompletion),
        },
{
    match parse_utc_datetime(completed_at) {
        Some(t) => Ok(t),
        None => Err(KnowledgeIntegrationError::InvalidCompletion),
    }
}

/// Whether the revision named by a completion is linkable: it exists, it
/// belongs to the completion's owner (`user:` and the internal identity), and
/// its source was not removed.
pub open spec fn completion_source_ok(owner: Seq<char>, source: Option<(u128, bool)>) -> bool {
    match source {
        Some((owner_id, removed)) => owner == tagged_uuid("user:"@, owner_id) && !removed,
        None => false,
    }
}

/// Checks the revision a completion names: `source` is the owner's internal
/// identity and whether the source was removed, when the revision exists.
pub fn check_completion_source(owner: &str, source: Option<(u128, bool)>) -> (r: Result<(), KnowledgeIntegrationError>)
    ensures
        r is Ok <==> completion_source_ok(owner@, source),
        r is Err ==> r == Err::<(), KnowledgeIntegrationError>(KnowledgeIntegrationError::InvalidCompletion),
{
    match source {
        Some((owner_id, removed)) => {
            let mut expected = chars_of("user:");
            extend_chars(&mut expected, &uuid_string(owner_id));
            if chars_eq_str(&expected, owner) && !removed {
                Ok(())
            } else {
                Err(KnowledgeIntegrationError::InvalidCompletion)
            }
        },
        None => Err(KnowledgeIntegrationError::InvalidCompletion),
    }
}

/// The admission of a completion: a replayed event (not claimed) or an
/// already-linked revision is a duplicate; a new link is current when the
/// linked digest is the source's current digest, historical otherwise. The
/// digests are canonical documents, on which `json_same` is document equality.
pub open spec fn admission_of(claimed: bool, linked: bool, current_digest: JsonValue, digest: JsonValue) -> KnowledgeAnalysisAdmission {
    if !claimed || !linked {
        KnowledgeAnalysisAdmission::Duplicate
    } else if json_same(current_digest, digest) {
        KnowledgeAnalysisAdmission::LinkedCurrent
    } else {
        KnowledgeAnalysisAdmission::LinkedHistorical
    }
}

/// Decides the admission once the inbox claim and the link insert are known;
/// `linked` is not read when the event was not claimed.
pub fn completion_admission(claimed: bool, linked: bool, current_digest: &JsonValue, digest: &JsonValue) -> (r: KnowledgeAnalysisAdmission)
    requires
        json_canonical(*current_digest),
        json_canonical(*digest),
    ensures
        r == admission_of(claimed, linked, *current_digest, *digest),
{
    if !claimed || !linked {
        KnowledgeAnalysisAdmission::Duplicate
    } else if json_equal(current_digest, digest) {
        KnowledgeAnalysisAdmission::LinkedCurrent
    } else {
        KnowledgeAnalysisAdmission::LinkedHistorical
    }
}

impl KnowledgeIntegrationError {
    /// The error's display text.
    pub fn message(&self) -> (r: &'static str)
        ensures
            r@ == match *self {
                KnowledgeIntegrationError::InvalidCompletion => "the Knowledge completion is invalid for this X source revision"@,
                KnowledgeIntegrationError::Query => "the Knowledge completion could not be persisted"@,
            },
    {
        match self {
            KnowledgeIntegrationError::InvalidCompletion => "the Knowledge completion is invalid for this X source revision",
            KnowledgeIntegrationError::Query => "the Knowledge completion could not be persisted",
        }
    }
}

} // verus!
