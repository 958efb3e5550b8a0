//! Legacy bookmark archives: their closed source vocabulary, validated records,
//! and the identity rules that map a legacy row onto a provider post.

use vstd::prelude::*;
use vstd::utf8::encode_utf8;
use std::path::PathBuf;
use crate::text::{is_digit, is_hex_digit, is_upper, chars_of, chars_eq, digit, string_of};
use crate::time::{Timestamp, rfc3339_text, render_rfc3339};
use crate::json::{string_views, string_literal, opt_string_text, strings_text, member_text,
    object_text, string_literal_exec, opt_string_text_exec, strings_text_exec, member_text_exec,
    object_text_exec};
use crate::order::{sort_unique, lemma_sort_unique_ascending, sort_unique_strings, views, lex_le, lex_lt, lex_le_exec,
    lemma_lex_total, lemma_lex_transitive, lemma_lex_antisymmetric};
use crate::digest::{sha256_hex_of, sha256_hex, sha256_text};

verus! {

#[verifier::external_type_specification]
#[verifier::external_body]
pub struct ExPathBuf(PathBuf);

/// Parser stamp owned by the legacy importer.
pub const IMPORTER_PARSER_VERSION: i32 = 1;

/// The closed legacy source family accepted by the transition workflow.
#[derive(Debug, Clone, Copy, PartialEq, Eq, Structural)]
pub enum LegacySourceKind {
    /// Retired-monolith `x_bookmark_metadata` CSV.
    MonolithBookmarkMetadataCsv,
    /// Field Theory raw bookmark cache.
    FieldTheoryJsonl,
    /// Field Theory derived search index.
    FieldTheorySqlite,
}

/// The exact supported source schema version.
#[derive(Debug, Clone, Copy, PartialEq, Eq, Structural)]
pub enum LegacySourceVersion {
    /// The retired-monolith nine-column export.
    MonolithBookmarkMetadata,
    /// Field Theory JSONL schema version 1.
    FieldTheoryJsonl1,
    /// Field Theory `SQLite` schema version 6.
    FieldTheorySqlite6,
}

/// One legacy row's normalized identity outcome.
#[derive(Debug, Clone, Copy, PartialEq, Eq, Structural)]
pub enum LegacyResolution {
    /// Stable provider post identity was mapped.
    ProviderPost,
    /// A canonical URL supplied the only unambiguous secondary match.
    UrlDerivedPost,
    /// Explicit and URL-derived provider identities disagree.
    IdentityConflict,
    /// No stable post identity could be resolved.
    Unmapped,
}

/// Deterministic terminal counts for one import attempt.
#[derive(Debug, Clone, Copy, PartialEq, Eq, Structural)]
pub struct ImportCounts {
    /// Newly inserted normalized records.
    pub inserted: u64,
    /// Rows matched to existing records without updating them.
    pub matched: u64,
    /// Existing normalized records updated by accepted legacy evidence.
    pub updated: u64,
    /// Rows retained as identity conflicts.
    pub conflicted: u64,
    /// Rows rejected by the selected source contract.
    pub rejected: u64,
    /// Rows retained without stable post identity.
    pub unmapped: u64,
}

impl Default for ImportCounts {
    fn default() -> (r: Self)
        ensures
            r == (ImportCounts { inserted: 0, matched: 0, updated: 0, conflicted: 0, rejected: 0, unmapped: 0 }),
    {
        ImportCounts { inserted: 0, matched: 0, updated: 0, conflicted: 0, rejected: 0, unmapped: 0 }
    }
}

/// Closed owner decision vocabulary.
#[derive(Debug, Clone, Copy, PartialEq, Eq, Structural)]
pub enum ApprovalDecision {
    /// Owner approved cutover prerequisites for these exact evidence digests.
    Approved,
    /// Owner rejected cutover for these exact evidence digests.
    Rejected,
}

/// Bounded resource limits applied before a source can reach the archive.
#[derive(Debug, Clone, Copy, PartialEq, Eq, Structural)]
pub struct SourceLimits {
    /// Maximum bytes read from one selected artifact.
    pub max_bytes: u64,
    /// Maximum records materialized by one preflight.
    pub max_rows: usize,
    /// Maximum UTF-8 bytes accepted in any one text field.
    pub max_text_bytes: usize,
    /// Maximum nested JSON containers in an input value.
    pub max_json_depth: usize,
}

impl Default for SourceLimits {
    fn default() -> (r: Self)
        ensures
            r.max_bytes == 64 * 1024 * 1024,
            r.max_rows == 100_000,
            r.max_text_bytes == 1_000_000,
            r.max_json_depth == 32,
    {
        SourceLimits {
            max_bytes: 64 * 1024 * 1024,
            max_rows: 100_000,
            max_text_bytes: 1_000_000,
            max_json_depth: 32,
        }
    }
}

/// Explicit allow-listed source selection; no neighboring file is discovered implicitly.
#[derive(Debug, PartialEq, Eq)]
pub enum LegacySourceSelection {
    /// Retired-monolith bookmark metadata CSV.
    MonolithCsv(PathBuf),
    /// Field Theory raw cache, optionally paired with its derived index.
    FieldTheory {
        /// Explicit `bookmarks.jsonl` path; preferred when present.
        jsonl: Option<PathBuf>,
        /// Explicit `bookmarks.db` path; used only when JSONL is absent.
        sqlite: Option<PathBuf>,
    },
}

/// Which artifact a selection reads, after the precedence rules.
#[derive(Debug, PartialEq, Eq)]
pub enum SelectedArtifact {
    /// The monolith CSV at this path.
    MonolithCsv(PathBuf),
    /// The Field Theory JSONL cache at this path.
    FieldTheoryJsonl(PathBuf),
    /// The Field Theory `SQLite` index at this path.
    FieldTheorySqlite(PathBuf),
}

impl LegacySourceSelection {
    /// Selects one retired-monolith CSV artifact.
    pub fn monolith_csv(path: PathBuf) -> (r: Self)
        ensures
            r == LegacySourceSelection::MonolithCsv(path),
    {
        LegacySourceSelection::MonolithCsv(path)
    }

    /// Selects explicit Field Theory artifacts without scanning their directory.
    pub fn field_theory(jsonl: Option<PathBuf>, sqlite: Option<PathBuf>) -> (r: Self)
        ensures
            r == (LegacySourceSelection::FieldTheory { jsonl, sqlite }),
    {
        LegacySourceSelection::FieldTheory { jsonl, sqlite }
    }

    /// The one artifact a preflight reads: the CSV, else the JSONL cache when
    /// present, else the `SQLite` index; `MissingSource` when neither Field
    /// Theory artifact was named.
    pub fn artifact(self) -> (r: Result<SelectedArtifact, LegacyTransitionError>)
        ensures
            match self {
                LegacySourceSelection::MonolithCsv(p) => r == Ok::<SelectedArtifact, LegacyTransitionError>(SelectedArtifact::MonolithCsv(p)),
                LegacySourceSelection::FieldTheory { jsonl, sqlite } => match (jsonl, sqlite) {
                    (Some(p), _) => r == Ok::<SelectedArtifact, LegacyTransitionError>(SelectedArtifact::FieldTheoryJsonl(p)),
                    (None, Some(p)) => r == Ok::<SelectedArtifact, LegacyTransitionError>(SelectedArtifact::FieldTheorySqlite(p)),
                    (None, None) => r == Err::<SelectedArtifact, LegacyTransitionError>(LegacyTransitionError::MissingSource),
                },
            },
    {
        match self {
            LegacySourceSelection::MonolithCsv(p) => Ok(SelectedArtifact::MonolithCsv(p)),
            LegacySourceSelection::FieldTheory { jsonl, sqlite } => {
                if let Some(p) = jsonl {
                    Ok(SelectedArtifact::FieldTheoryJsonl(p))
                } else if let Some(p) = sqlite {
                    Ok(SelectedArtifact::FieldTheorySqlite(p))
                } else {
                    Err(LegacyTransitionError::MissingSource)
                }
            },
        }
    }
}

/// Failures exposed by the operator-only transition workflow.
#[derive(Debug, Clone, PartialEq, Eq)]
pub enum LegacyTransitionError {
    /// The behavior seam exists, but the operation is not implemented.
    NotImplemented,
    /// No allow-listed source artifact was selected.
    MissingSource,
    /// A selected artifact could not be read without exposing its local path.
    SourceUnavailable,
    /// The selected artifact exceeds the configured byte budget.
    SourceTooLarge,
    /// The selected source contains more records than the configured bound.
    RowLimitExceeded,
    /// A text field exceeds the configured UTF-8 byte limit.
    TextLimitExceeded { field: &'static str },
    /// A JSON value exceeds the configured nesting bound.
    JsonDepthExceeded,
    /// Input bytes are not valid UTF-8 or do not conform to their pinned encoding.
    InvalidEncoding,
    /// A timestamp does not satisfy the pinned RFC 3339 contract.
    InvalidTimestamp { field: &'static str },
    /// An input field is outside the pinned public source contract.
    UnsupportedField { field: String },
    /// A credential/session-shaped field is rejected before any target write.
    ForbiddenField { field: String },
    /// Source schema metadata does not identify the one supported version.
    UnsupportedSourceVersion,
    /// Exact `SQLite` table shape differs from the pinned Field Theory projection.
    UnsupportedSqliteSchema,
    /// A row is missing a required public-source field.
    InvalidField { field: &'static str },
    /// The same source record key carried different evidence.
    DuplicateSourceKey,
    /// The source changed during validation.
    SourceChanged,
    /// `SQLite` could not be opened or queried through the immutable connection.
    SourceDatabase,
    /// Import execution requires explicit owner mapping evidence.
    MissingOwnershipApproval,
    /// Owner mapping evidence is not bound to the selected source.
    InvalidOwnershipApproval,
    /// The explicitly selected target account does not exist.
    TargetAccountNotFound,
    /// The selected target account is not currently connected.
    TargetAccountNotConnected,
    /// Current official OAuth identity could not be resolved.
    CurrentIdentityUnavailable,
    /// The current official OAuth identity differs from the selected target account.
    CurrentIdentityMismatch,
    /// The database rejected or could not atomically complete the operation.
    Database,
    /// Completed import evidence is absent or belongs to another account.
    ImportRunUnavailable,
    /// Snapshot is incomplete, unsuccessful, non-full, stale, or not current authority.
    SnapshotNotAuthoritative,
    /// Shadow report is absent or belongs to another account.
    ShadowReportUnavailable,
    /// Approval is not bound to the current deterministic checklist.
    ChecklistDigestMismatch,
}

/// The operator-facing message of each failure.
pub open spec fn legacy_error_text(e: LegacyTransitionError) -> Seq<char> {
    match e {
        LegacyTransitionError::NotImplemented => "the legacy transition operation is not implemented"@,
        LegacyTransitionError::MissingSource => "no supported legacy source artifact was selected"@,
        LegacyTransitionError::SourceUnavailable => "the selected legacy source is unavailable"@,
        LegacyTransitionError::SourceTooLarge => "the selected legacy source exceeds the byte limit"@,
        LegacyTransitionError::RowLimitExceeded => "the selected legacy source exceeds the row limit"@,
        LegacyTransitionError::TextLimitExceeded { .. } => "legacy source field exceeds the text limit"@,
        LegacyTransitionError::JsonDepthExceeded => "legacy source JSON exceeds the nesting limit"@,
        LegacyTransitionError::InvalidEncoding => "the selected legacy source encoding is invalid"@,
        LegacyTransitionError::InvalidTimestamp { .. } => "legacy source field is not a valid RFC 3339 timestamp"@,
        LegacyTransitionError::UnsupportedField { .. } => "legacy source field is not supported"@,
        LegacyTransitionError::ForbiddenField { .. } => "legacy source credential/session field is forbidden"@,
        LegacyTransitionError::UnsupportedSourceVersion => "the selected legacy source schema version is unsupported"@,
        LegacyTransitionError::UnsupportedSqliteSchema => "the selected Field Theory SQLite schema is unsupported"@,
        LegacyTransitionError::InvalidField { .. } => "legacy source field is missing or invalid"@,
        LegacyTransitionError::DuplicateSourceKey => "legacy source record key is duplicated with conflicting evidence"@,
        LegacyTransitionError::SourceChanged => "the selected legacy source changed during preflight"@,
        LegacyTransitionError::SourceDatabase => "the selected Field Theory SQLite source could not be validated"@,
        LegacyTransitionError::MissingOwnershipApproval => "explicit owner mapping approval is required"@,
        LegacyTransitionError::InvalidOwnershipApproval => "owner mapping approval does not match the selected source"@,
        LegacyTransitionError::TargetAccountNotFound => "the selected target account does not exist"@,
        LegacyTransitionError::TargetAccountNotConnected => "the selected target account is not connected"@,
        LegacyTransitionError::CurrentIdentityUnavailable => "current official OAuth account identity is unavailable"@,
        LegacyTransitionError::CurrentIdentityMismatch => "current official OAuth identity does not match the selected target account"@,
        LegacyTransitionError::Database => "the legacy transition database operation failed"@,
        LegacyTransitionError::ImportRunUnavailable => "the selected completed legacy import is unavailable for this account"@,
        LegacyTransitionError::SnapshotNotAuthoritative => "the selected official snapshot has no complete absence authority"@,
        LegacyTransitionError::ShadowReportUnavailable => "the selected shadow report is unavailable for this account"@,
        LegacyTransitionError::ChecklistDigestMismatch => "the owner approval checklist digest is stale or invalid"@,
    }
}

impl LegacyTransitionError {
    /// The operator-facing message for this failure.
    pub fn message(&self) -> (r: String)
        ensures
            r@ == legacy_error_text(*self),
    {
        broadcast use vstd::string::group_string_axioms;
        match self {
            LegacyTransitionError::NotImplemented => "the legacy transition operation is not implemented".to_string(),
            LegacyTransitionError::MissingSource => "no supported legacy source artifact was selected".to_string(),
            LegacyTransitionError::SourceUnavailable => "the selected legacy source is unavailable".to_string(),
            LegacyTransitionError::SourceTooLarge => "the selected legacy source exceeds the byte limit".to_string(),
            LegacyTransitionError::RowLimitExceeded => "the selected legacy source exceeds the row limit".to_string(),
            LegacyTransitionError::TextLimitExceeded { .. } => "legacy source field exceeds the text limit".to_string(),
            LegacyTransitionError::JsonDepthExceeded => "legacy source JSON exceeds the nesting limit".to_string(),
            LegacyTransitionError::InvalidEncoding => "the selected legacy source encoding is invalid".to_string(),
            LegacyTransitionError::InvalidTimestamp { .. } => "legacy source field is not a valid RFC 3339 timestamp".to_string(),
            LegacyTransitionError::UnsupportedField { .. } => "legacy source field is not supported".to_string(),
            LegacyTransitionError::ForbiddenField { .. } => "legacy source credential/session field is forbidden".to_string(),
            LegacyTransitionError::UnsupportedSourceVersion => "the selected legacy source schema version is unsupported".to_string(),
            LegacyTransitionError::UnsupportedSqliteSchema => "the selected Field Theory SQLite schema is unsupported".to_string(),
            LegacyTransitionError::InvalidField { .. } => "legacy source field is missing or invalid".to_string(),
            LegacyTransitionError::DuplicateSourceKey => "legacy source record key is duplicated with conflicting evidence".to_string(),
            LegacyTransitionError::SourceChanged => "the selected legacy source changed during preflight".to_string(),
            LegacyTransitionError::SourceDatabase => "the selected Field Theory SQLite source could not be validated".to_string(),
            LegacyTransitionError::MissingOwnershipApproval => "explicit owner mapping approval is required".to_string(),
            LegacyTransitionError::InvalidOwnershipApproval => "owner mapping approval does not match the selected source".to_string(),
            LegacyTransitionError::TargetAccountNotFound => "the selected target account does not exist".to_string(),
            LegacyTransitionError::TargetAccountNotConnected => "the selected target account is not connected".to_string(),
            LegacyTransitionError::CurrentIdentityUnavailable => "current official OAuth account identity is unavailable".to_string(),
            LegacyTransitionError::CurrentIdentityMismatch => "current official OAuth identity does not match the selected target account".to_string(),
            LegacyTransitionError::Database => "the legacy transition database operation failed".to_string(),
            LegacyTransitionError::ImportRunUnavailable => "the selected completed legacy import is unavailable for this account".to_string(),
            LegacyTransitionError::SnapshotNotAuthoritative => "the selected official snapshot has no complete absence authority".to_string(),
            LegacyTransitionError::ShadowReportUnavailable => "the selected shadow report is unavailable for this account".to_string(),
            LegacyTransitionError::ChecklistDigestMismatch => "the owner approval checklist digest is stale or invalid".to_string(),
        }
    }
}

// ---------------------------------------------------------------------------
// Field-level validation.
// ---------------------------------------------------------------------------

/// A lowercase hexadecimal SHA-256 digest.
pub open spec fn is_sha256_text(s: Seq<char>) -> bool {
    s.len() == 64 && forall|i: int| 0 <= i < s.len() ==> is_hex_digit(#[trigger] s[i]) && !is_upper(s[i])
}

/// Whether a text is a lowercase hexadecimal SHA-256 digest.
pub fn valid_sha256(value: &str) -> (r: bool)
    ensures
        r == is_sha256_text(value@),
{
    let chars = chars_of(value);
    if chars.len() != 64 {
        return false;
    }
    let mut i: usize = 0;
    while i < chars.len()
        invariant
            i <= chars.len(),
            chars@ == value@,
            forall|j: int| 0 <= j < i ==> is_hex_digit(#[trigger] chars@[j]) && !is_upper(chars@[j]),
        decreases chars.len() - i,
    {
        let c = chars[i];
        if !(crate::text::hex_digit_char(c) && !('A' <= c && c <= 'Z')) {
            return false;
        }
        i += 1;
    }
    true
}

/// A provider post identity: one to nineteen decimal digits.
pub open spec fn is_provider_post_id(s: Seq<char>) -> bool {
    0 < s.len() <= 19 && forall|i: int| 0 <= i < s.len() ==> is_digit(#[trigger] s[i])
}

/// Whether a text is a provider post identity.
pub fn valid_provider_post_id(value: &str) -> (r: bool)
    ensures
        r == is_provider_post_id(value@),
{
    let chars = chars_of(value);
    if chars.len() == 0 || chars.len() > 19 {
        return false;
    }
    let mut i: usize = 0;
    while i < chars.len()
        invariant
            i <= chars.len(),
            chars@ == value@,
            forall|j: int| 0 <= j < i ==> is_digit(#[trigger] chars@[j]),
        decreases chars.len() - i,
    {
        if !digit(chars[i]) {
            return false;
        }
        i += 1;
    }
    true
}

/// The stored name of a resolution.
pub open spec fn resolution_token(resolution: LegacyResolution) -> Seq<char> {
    match resolution {
        LegacyResolution::ProviderPost => "provider_post"@,
        LegacyResolution::UrlDerivedPost => "canonical_url"@,
        LegacyResolution::IdentityConflict => "identity_conflict"@,
        LegacyResolution::Unmapped => "unmapped"@,
    }
}

/// The stored name of a resolution.
pub fn resolution_database_value(resolution: LegacyResolution) -> (r: &'static str)
    ensures
        r@ == resolution_token(resolution),
{
    match resolution {
        LegacyResolution::ProviderPost => "provider_post",
        LegacyResolution::UrlDerivedPost => "canonical_url",
        LegacyResolution::IdentityConflict => "identity_conflict",
        LegacyResolution::Unmapped => "unmapped",
    }
}

/// The stored source family name and schema version of a batch's source, when
/// its kind and version belong together.
pub fn source_database_identity(kind: LegacySourceKind, version: LegacySourceVersion) -> (r: Result<(&'static str, i32), LegacyTransitionError>)
    ensures
        match (kind, version) {
            (LegacySourceKind::MonolithBookmarkMetadataCsv, LegacySourceVersion::MonolithBookmarkMetadata) =>
                r matches Ok((name, v)) && name@ == "monolith_csv"@ && v == 1,
            (LegacySourceKind::FieldTheoryJsonl, LegacySourceVersion::FieldTheoryJsonl1) =>
                r matches Ok((name, v)) && name@ == "field_theory_jsonl"@ && v == 1,
            (LegacySourceKind::FieldTheorySqlite, LegacySourceVersion::FieldTheorySqlite6) =>
                r matches Ok((name, v)) && name@ == "field_theory_sqlite"@ && v == 6,
            _ => r == Err::<(&'static str, i32), LegacyTransitionError>(LegacyTransitionError::UnsupportedSourceVersion),
        },
{
    match (kind, version) {
        (LegacySourceKind::MonolithBookmarkMetadataCsv, LegacySourceVersion::MonolithBookmarkMetadata) => Ok(("monolith_csv", 1)),
        (LegacySourceKind::FieldTheoryJsonl, LegacySourceVersion::FieldTheoryJsonl1) => Ok(("field_theory_jsonl", 1)),
        (LegacySourceKind::FieldTheorySqlite, LegacySourceVersion::FieldTheorySqlite6) => Ok(("field_theory_sqlite", 6)),
        _ => Err(LegacyTransitionError::UnsupportedSourceVersion),
    }
}

/// A count as the archive's 32-bit column stores it.
pub fn bounded_count(value: u64) -> (r: Result<i32, LegacyTransitionError>)
    ensures
        value <= i32::MAX ==> r == Ok::<i32, LegacyTransitionError>(value as i32),
        value > i32::MAX ==> r == Err::<i32, LegacyTransitionError>(LegacyTransitionError::Database),
{
    if value <= 2147483647u64 {
        Ok(value as i32)
    } else {
        Err(LegacyTransitionError::Database)
    }
}

/// A stored 32-bit count read back as an unsigned count.
pub fn nonnegative_count(value: i32) -> (r: Result<u64, LegacyTransitionError>)
    ensures
        value >= 0 ==> r == Ok::<u64, LegacyTransitionError>(value as u64),
        value < 0 ==> r == Err::<u64, LegacyTransitionError>(LegacyTransitionError::Database),
{
    if value >= 0 {
        Ok(value as u64)
    } else {
        Err(LegacyTransitionError::Database)
    }
}

/// A text field no longer than the byte limit in UTF-8.
pub fn validate_text(field: &'static str, value: &str, max_bytes: usize) -> (r: Result<(), LegacyTransitionError>)
    ensures
        encode_utf8(value@).len() <= max_bytes ==> r == Ok::<(), LegacyTransitionError>(()),
        encode_utf8(value@).len() > max_bytes ==> r == Err::<(), LegacyTransitionError>(LegacyTransitionError::TextLimitExceeded { field }),
{
    if value.as_bytes().len() > max_bytes {
        Err(LegacyTransitionError::TextLimitExceeded { field })
    } else {
        Ok(())
    }
}

// ---------------------------------------------------------------------------
// Validated records.
// ---------------------------------------------------------------------------

/// The fields one source row supplies, before lists are normalized and the
/// row digest is computed.
pub struct RecordFields {
    pub source_record_key: String,
    pub provider_post_id: Option<String>,
    pub url_provider_post_id: Option<String>,
    pub canonical_url_digest: Option<String>,
    pub text: String,
    pub posted_at: Option<Timestamp>,
    pub bookmarked_at: Option<Timestamp>,
    pub synced_at: Timestamp,
    pub categories: Vec<String>,
    pub folder_ids: Vec<String>,
    pub folder_names: Vec<String>,
}

/// One validated legacy observation. Source text and mutable handles never become identity.
#[derive(Debug, Clone, PartialEq, Eq)]
pub struct LegacyRecord {
    source_record_key: String,
    provider_post_id: Option<String>,
    url_provider_post_id: Option<String>,
    canonical_url_digest: Option<String>,
    text: String,
    posted_at: Option<Timestamp>,
    bookmarked_at: Option<Timestamp>,
    synced_at: Timestamp,
    categories: Vec<String>,
    folder_ids: Vec<String>,
    folder_names: Vec<String>,
    record_digest: String,
}

/// The character view of an optional string.
pub open spec fn opt_str(o: Option<String>) -> Option<Seq<char>> {
    match o {
        Some(s) => Some(s@),
        None => None,
    }
}

/// The JSON text of an optional instant (`null` or its RFC 3339 string), if
/// the instant can be written.
pub open spec fn instant_json(t: Option<Timestamp>) -> Option<Seq<char>> {
    match t {
        None => Some(seq!['n', 'u', 'l', 'l']),
        Some(ts) => match rfc3339_text(ts.seconds, ts.nanos) {
            Some(x) => Some(string_literal(x)),
            None => None,
        },
    }
}

/// The canonical document whose SHA-256 is a row's digest: the row's
/// identity, content digest, instants and sorted lists, members sorted by name.
pub open spec fn record_document(
    key: Seq<char>,
    provider: Option<Seq<char>>,
    url_provider: Option<Seq<char>>,
    url_digest: Option<Seq<char>>,
    text: Seq<char>,
    posted: Option<Timestamp>,
    bookmarked: Option<Timestamp>,
    synced: Timestamp,
    categories: Seq<Seq<char>>,
    folder_ids: Seq<Seq<char>>,
    folder_names: Seq<Seq<char>>,
) -> Option<Seq<char>> {
    match (instant_json(bookmarked), instant_json(posted), instant_json(Some(synced))) {
        (Some(b), Some(p), Some(y)) => Some(object_text(seq![
            member_text("bookmarked_at"@, b),
            member_text("canonical_url_digest"@, opt_string_text(url_digest)),
            member_text("categories"@, strings_text(categories)),
            member_text("content_digest"@, string_literal(sha256_hex_of(encode_utf8(text)))),
            member_text("folder_ids"@, strings_text(folder_ids)),
            member_text("folder_names"@, strings_text(folder_names)),
            member_text("posted_at"@, p),
            member_text("provider_post_id"@, opt_string_text(provider)),
            member_text("source_record_key"@, string_literal(key)),
            member_text("synced_at"@, y),
            member_text("url_provider_post_id"@, opt_string_text(url_provider)),
        ])),
        _ => None,
    }
}

/// The values a row supplies, as the record contracts read them.
pub struct RecordView {
    pub key: Seq<char>,
    pub provider: Option<Seq<char>>,
    pub url_provider: Option<Seq<char>>,
    pub url_digest: Option<Seq<char>>,
    pub text: Seq<char>,
    pub posted: Option<Timestamp>,
    pub bookmarked: Option<Timestamp>,
    pub synced: Timestamp,
    pub categories: Seq<Seq<char>>,
    pub folder_ids: Seq<Seq<char>>,
    pub folder_names: Seq<Seq<char>>,
}

/// The view of a row's fields.
pub open spec fn fields_view(f: RecordFields) -> RecordView {
    RecordView {
        key: f.source_record_key@,
        provider: opt_str(f.provider_post_id),
        url_provider: opt_str(f.url_provider_post_id),
        url_digest: opt_str(f.canonical_url_digest),
        text: f.text@,
        posted: f.posted_at,
        bookmarked: f.bookmarked_at,
        synced: f.synced_at,
        categories: string_views(f.categories@),
        folder_ids: string_views(f.folder_ids@),
        folder_names: string_views(f.folder_names@),
    }
}

/// The digest document of a row, its lists sorted and deduplicated.
pub open spec fn view_document(v: RecordView) -> Option<Seq<char>> {
    record_document(
        v.key,
        v.provider,
        v.url_provider,
        v.url_digest,
        v.text,
        v.posted,
        v.bookmarked,
        v.synced,
        sort_unique(v.categories),
        sort_unique(v.folder_ids),
        sort_unique(v.folder_names),
    )
}

/// What normalizing a row gives: `InvalidField` for an empty key,
/// `InvalidEncoding` when its digest document cannot be written, else the
/// record holding the row's values, sorted unique lists and document digest.
pub open spec fn record_outcome(r: Result<LegacyRecord, LegacyTransitionError>, v: RecordView) -> bool {
    if v.key.len() == 0 {
        r == Err::<LegacyRecord, LegacyTransitionError>(LegacyTransitionError::InvalidField { field: "id" })
    } else {
        match view_document(v) {
            None => r == Err::<LegacyRecord, LegacyTransitionError>(LegacyTransitionError::InvalidEncoding),
            Some(doc) => r matches Ok(rec) && {
                &&& rec.key_v() == v.key
                &&& rec.provider_v() == v.provider
                &&& rec.url_provider_v() == v.url_provider
                &&& rec.url_digest_v() == v.url_digest
                &&& rec.text_v() == v.text
                &&& rec.posted_v() == v.posted
                &&& rec.bookmarked_v() == v.bookmarked
                &&& rec.synced_v() == v.synced
                &&& rec.categories_v() == sort_unique(v.categories)
                &&& rec.folder_ids_v() == sort_unique(v.folder_ids)
                &&& rec.folder_names_v() == sort_unique(v.folder_names)
                &&& rec.digest_v() == sha256_hex_of(encode_utf8(doc))
            },
        }
    }
}

impl LegacyRecord {
    pub closed spec fn key_v(self) -> Seq<char> { self.source_record_key@ }
    pub closed spec fn provider_v(self) -> Option<Seq<char>> { opt_str(self.provider_post_id) }
    pub closed spec fn url_provider_v(self) -> Option<Seq<char>> { opt_str(self.url_provider_post_id) }
    pub closed spec fn url_digest_v(self) -> Option<Seq<char>> { opt_str(self.canonical_url_digest) }
    pub closed spec fn text_v(self) -> Seq<char> { self.text@ }
    pub closed spec fn posted_v(self) -> Option<Timestamp> { self.posted_at }
    pub closed spec fn bookmarked_v(self) -> Option<Timestamp> { self.bookmarked_at }
    pub closed spec fn synced_v(self) -> Timestamp { self.synced_at }
    pub closed spec fn categories_v(self) -> Seq<Seq<char>> { string_views(self.categories@) }
    pub closed spec fn folder_ids_v(self) -> Seq<Seq<char>> { string_views(self.folder_ids@) }
    pub closed spec fn folder_names_v(self) -> Seq<Seq<char>> { string_views(self.folder_names@) }
    pub closed spec fn digest_v(self) -> Seq<char> { self.record_digest@ }

    /// Stable key from the selected source row.
    pub fn source_record_key(&self) -> (r: &str)
        ensures
            r@ == self.key_v(),
    {
        self.source_record_key.as_str()
    }

    /// Explicit provider post ID supplied by the legacy source.
    pub fn provider_post_id(&self) -> (r: Option<&str>)
        ensures
            match r {
                Some(s) => self.provider_v() == Some(s@),
                None => self.provider_v() is None,
            },
    {
        match &self.provider_post_id {
            Some(s) => Some(s.as_str()),
            None => None,
        }
    }

    /// Provider post ID parsed only from an allow-listed X status URL.
    pub fn url_provider_post_id(&self) -> (r: Option<&str>)
        ensures
            match r {
                Some(s) => self.url_provider_v() == Some(s@),
                None => self.url_provider_v() is None,
            },
    {
        match &self.url_provider_post_id {
            Some(s) => Some(s.as_str()),
            None => None,
        }
    }

    /// SHA-256 of the canonical status URL the provider identity was read from.
    pub fn canonical_url_digest(&self) -> (r: Option<&str>)
        ensures
            match r {
                Some(s) => self.url_digest_v() == Some(s@),
                None => self.url_digest_v() is None,
            },
    {
        match &self.canonical_url_digest {
            Some(s) => Some(s.as_str()),
            None => None,
        }
    }

    /// The normalized legacy post text.
    pub fn text(&self) -> (r: &str)
        ensures
            r@ == self.text_v(),
    {
        self.text.as_str()
    }

    /// SHA-256 of the normalized legacy post text.
    pub fn content_digest(&self) -> (r: String)
        ensures
            r@ == sha256_hex_of(encode_utf8(self.text_v())),
    {
        sha256_text(self.text.as_str())
    }

    /// Legacy publication observation, when syntactically valid and present.
    pub fn posted_at(&self) -> (r: Option<Timestamp>)
        ensures
            r == self.posted_v(),
    {
        self.posted_at
    }

    /// Legacy bookmark observation; never an authoritative native save timestamp.
    pub fn bookmarked_at(&self) -> (r: Option<Timestamp>)
        ensures
            r == self.bookmarked_v(),
    {
        self.bookmarked_at
    }

    /// Time at which the legacy cache reported synchronizing the row.
    pub fn synced_at(&self) -> (r: Timestamp)
        ensures
            r == self.synced_v(),
    {
        self.synced_at
    }

    /// Legacy categories retained as metadata, not native X folders.
    pub fn categories(&self) -> (r: &[String])
        ensures
            string_views(r@) == self.categories_v(),
    {
        self.categories.as_slice()
    }

    /// Legacy Field Theory folder IDs retained as source metadata only.
    pub fn folder_ids(&self) -> (r: &[String])
        ensures
            string_views(r@) == self.folder_ids_v(),
    {
        self.folder_ids.as_slice()
    }

    /// Legacy Field Theory folder names retained as source metadata only.
    pub fn folder_names(&self) -> (r: &[String])
        ensures
            string_views(r@) == self.folder_names_v(),
    {
        self.folder_names.as_slice()
    }

    /// Digest of the validated row projection used for restart safety.
    pub fn record_digest(&self) -> (r: &str)
        ensures
            r@ == self.digest_v(),
    {
        self.record_digest.as_str()
    }
}

fn instant_json_exec(t: &Option<Timestamp>) -> (r: Option<Vec<char>>)
    ensures
        match r {
            Some(v) => instant_json(*t) == Some(v@),
            None => instant_json(*t) is None,
        },
{
    match t {
        None => {
            let mut out: Vec<char> = Vec::new();
            out.push('n');
            out.push('u');
            out.push('l');
            out.push('l');
            assert(out@ =~= seq!['n', 'u', 'l', 'l']);
            Some(out)
        },
        Some(ts) => match render_rfc3339(*ts) {
            Some(text) => Some(string_literal_exec(text.as_str())),
            None => None,
        },
    }
}

/// Normalizes one row: a nonempty key is required, the category and folder
/// lists are sorted and deduplicated, and the row digest is the SHA-256 of
/// the row's canonical document. A row whose instants cannot be written back
/// as RFC 3339 cannot be digested and is refused as an encoding failure.
pub fn build_record(input: RecordFields) -> (r: Result<LegacyRecord, LegacyTransitionError>)
    ensures
        record_outcome(r, fields_view(input)),
{
    let ghost original = input;
    let RecordFields {
        source_record_key,
        provider_post_id,
        url_provider_post_id,
        canonical_url_digest,
        text,
        posted_at,
        bookmarked_at,
        synced_at,
        categories,
        folder_ids,
        folder_names,
    } = input;
    if source_record_key.as_str().is_empty() {
        return Err(LegacyTransitionError::InvalidField { field: "id" });
    }
    let categories = sort_unique_strings(categories);
    let folder_ids = sort_unique_strings(folder_ids);
    let folder_names = sort_unique_strings(folder_names);
    let bookmarked_json = match instant_json_exec(&bookmarked_at) {
        Some(v) => v,
        None => return Err(LegacyTransitionError::InvalidEncoding),
    };
    let posted_json = match instant_json_exec(&posted_at) {
        Some(v) => v,
        None => return Err(LegacyTransitionError::InvalidEncoding),
    };
    let synced_json = match instant_json_exec(&Some(synced_at)) {
        Some(v) => v,
        None => return Err(LegacyTransitionError::InvalidEncoding),
    };
    let content = sha256_text(text.as_str());
    let mut members: Vec<Vec<char>> = Vec::new();
    members.push(member_text_exec("bookmarked_at", &bookmarked_json));
    members.push(member_text_exec("canonical_url_digest", &opt_string_text_exec(&canonical_url_digest)));
    members.push(member_text_exec("categories", &strings_text_exec(&categories)));
    members.push(member_text_exec("content_digest", &string_literal_exec(content.as_str())));
    members.push(member_text_exec("folder_ids", &strings_text_exec(&folder_ids)));
    members.push(member_text_exec("folder_names", &strings_text_exec(&folder_names)));
    members.push(member_text_exec("posted_at", &posted_json));
    members.push(member_text_exec("provider_post_id", &opt_string_text_exec(&provider_post_id)));
    members.push(member_text_exec("source_record_key", &string_literal_exec(source_record_key.as_str())));
    members.push(member_text_exec("synced_at", &synced_json));
    members.push(member_text_exec("url_provider_post_id", &opt_string_text_exec(&url_provider_post_id)));
    let document = object_text_exec(&members);
    proof {
        let d = view_document(fields_view(original)).unwrap();
        assert(views(members@) =~= seq![
            member_text("bookmarked_at"@, bookmarked_json@),
            member_text("canonical_url_digest"@, opt_string_text(opt_str(canonical_url_digest))),
            member_text("categories"@, strings_text(string_views(categories@))),
            member_text("content_digest"@, string_literal(sha256_hex_of(encode_utf8(text@)))),
            member_text("folder_ids"@, strings_text(string_views(folder_ids@))),
            member_text("folder_names"@, strings_text(string_views(folder_names@))),
            member_text("posted_at"@, posted_json@),
            member_text("provider_post_id"@, opt_string_text(opt_str(provider_post_id))),
            member_text("source_record_key"@, string_literal(source_record_key@)),
            member_text("synced_at"@, synced_json@),
            member_text("url_provider_post_id"@, opt_string_text(opt_str(url_provider_post_id))),
        ]);
        assert(document@ == d);
    }
    let document_text = string_of(&document);
    let record_digest = sha256_hex(document_text.as_str().as_bytes());
    Ok(LegacyRecord {
        source_record_key,
        provider_post_id,
        url_provider_post_id,
        canonical_url_digest,
        text,
        posted_at,
        bookmarked_at,
        synced_at,
        categories,
        folder_ids,
        folder_names,
        record_digest,
    })
}

// ---------------------------------------------------------------------------
// Batches.
// ---------------------------------------------------------------------------

/// A validated, bounded source batch safe to hand to the import transaction.
#[derive(Clone)]
pub struct PreflightBatch {
    source_kind: LegacySourceKind,
    source_version: LegacySourceVersion,
    source_digest: String,
    row_count: usize,
    records: Vec<LegacyRecord>,
}

impl PreflightBatch {
    pub closed spec fn kind_v(self) -> LegacySourceKind { self.source_kind }
    pub closed spec fn version_v(self) -> LegacySourceVersion { self.source_version }
    pub closed spec fn source_digest_v(self) -> Seq<char> { self.source_digest@ }
    pub closed spec fn row_count_v(self) -> usize { self.row_count }
    pub closed spec fn records_v(self) -> Seq<LegacyRecord> { self.records@ }

    /// The allow-listed source family selected after precedence rules.
    pub fn source_kind(&self) -> (r: LegacySourceKind)
        ensures
            r == self.kind_v(),
    {
        self.source_kind
    }

    /// The exact validated source schema version.
    pub fn source_version(&self) -> (r: LegacySourceVersion)
        ensures
            r == self.version_v(),
    {
        self.source_version
    }

    /// Lowercase SHA-256 digest of the selected artifact bytes.
    pub fn source_digest(&self) -> (r: &str)
        ensures
            r@ == self.source_digest_v(),
    {
        self.source_digest.as_str()
    }

    /// Number of fully validated source records.
    pub fn row_count(&self) -> (r: usize)
        ensures
            r == self.row_count_v(),
    {
        self.row_count
    }

    /// Fully validated records supplied to the account-bound import transaction.
    pub fn records(&self) -> (r: &[LegacyRecord])
        ensures
            r@ == self.records_v(),
    {
        self.records.as_slice()
    }
}

/// Whether position `i` holds the first record carrying its key.
pub open spec fn is_first_of_key(recs: Seq<LegacyRecord>, i: int) -> bool {
    &&& 0 <= i < recs.len()
    &&& forall|j: int| 0 <= j < i ==> #[trigger] recs[j].key_v() != recs[i].key_v()
}

/// Whether two records share a key but not a digest.
pub open spec fn has_key_conflict(recs: Seq<LegacyRecord>) -> bool {
    exists|i: int, j: int|
        0 <= i < j < recs.len() && #[trigger] recs[i].key_v() == #[trigger] recs[j].key_v()
            && recs[i].digest_v() != recs[j].digest_v()
}

/// `src[o]` is the position in `recs` that `out[o]` was taken from, the first
/// record of its key, and `pos[i]` is the position in `out` of the key of `recs[i]`.
pub open spec fn occurrence_witness(recs: Seq<LegacyRecord>, out: Seq<LegacyRecord>, src: Seq<int>, pos: Seq<int>) -> bool {
    &&& src.len() == out.len()
    &&& pos.len() == recs.len()
    &&& forall|o: int| 0 <= o < out.len() ==> is_first_of_key(recs, #[trigger] src[o]) && out[o] == recs[src[o]]
    &&& forall|i: int| 0 <= i < recs.len() ==> 0 <= #[trigger] pos[i] < out.len() && out[pos[i]].key_v() == recs[i].key_v()
}

/// `out` holds, in strictly ascending key order, the first record of each key of `recs`.
pub open spec fn keyed_first_occurrences(recs: Seq<LegacyRecord>, out: Seq<LegacyRecord>) -> bool {
    &&& forall|a: int, b: int| 0 <= a < b < out.len() ==> lex_lt(#[trigger] out[a].key_v(), #[trigger] out[b].key_v())
    &&& exists|src: Seq<int>, pos: Seq<int>| occurrence_witness(recs, out, src, pos)
}

/// The loop state of `finish_batch` after reading `prefix`: `src[o]` is where
/// `out[o]` came from and `pos[i]` is where the key of `prefix[i]` sits in `out`.
pub open spec fn batch_state(
    prefix: Seq<LegacyRecord>,
    out: Seq<LegacyRecord>,
    keys: Seq<Vec<char>>,
    src: Seq<int>,
    pos: Seq<int>,
) -> bool {
    &&& keys.len() == out.len()
    &&& src.len() == out.len()
    &&& pos.len() == prefix.len()
    &&& forall|o: int| 0 <= o < out.len() ==> #[trigger] keys[o]@ == out[o].key_v()
    &&& !has_key_conflict(prefix)
    &&& forall|a: int, b: int| 0 <= a < b < out.len() ==> lex_lt(#[trigger] out[a].key_v(), #[trigger] out[b].key_v())
    &&& forall|o: int| 0 <= o < out.len() ==> is_first_of_key(prefix, #[trigger] src[o]) && out[o] == prefix[src[o]]
    &&& forall|i: int| 0 <= i < prefix.len() ==> 0 <= #[trigger] pos[i] < out.len() && out[pos[i]].key_v() == prefix[i].key_v()
}

proof fn lemma_state_gives_occurrences(prefix: Seq<LegacyRecord>, out: Seq<LegacyRecord>, keys: Seq<Vec<char>>, src: Seq<int>, pos: Seq<int>)
    requires
        batch_state(prefix, out, keys, src, pos),
    ensures
        keyed_first_occurrences(prefix, out),
{
    assert(occurrence_witness(prefix, out, src, pos));
}

proof fn lemma_same_key_same_digest(prefix: Seq<LegacyRecord>, a: int, i: int)
    requires
        !has_key_conflict(prefix),
        0 <= a < prefix.len(),
        0 <= i < prefix.len(),
        prefix[a].key_v() == prefix[i].key_v(),
    ensures
        prefix[a].digest_v() == prefix[i].digest_v(),
{
    if a < i {
        assert(!(prefix[a].key_v() == prefix[i].key_v() && prefix[a].digest_v() != prefix[i].digest_v()));
    } else if i < a {
        assert(!(prefix[i].key_v() == prefix[a].key_v() && prefix[i].digest_v() != prefix[a].digest_v()));
    }
}

proof fn lemma_no_conflict_push(prefix: Seq<LegacyRecord>, record: LegacyRecord)
    requires
        !has_key_conflict(prefix),
        forall|k: int| 0 <= k < prefix.len() && #[trigger] prefix[k].key_v() == record.key_v() ==> prefix[k].digest_v() == record.digest_v(),
    ensures
        !has_key_conflict(prefix.push(record)),
{
    let next = prefix.push(record);
    let n = prefix.len() as int;
    assert forall|a: int, b: int| 0 <= a < b < next.len() && #[trigger] next[a].key_v() == #[trigger] next[b].key_v()
        implies next[a].digest_v() == next[b].digest_v() by {
        assert(next[a] == prefix[a]);
        if b < n {
            assert(next[b] == prefix[b]);
            lemma_same_key_same_digest(prefix, a, b);
        }
    }
}

proof fn lemma_first_stays_first(prefix: Seq<LegacyRecord>, record: LegacyRecord, j: int)
    requires
        is_first_of_key(prefix, j),
    ensures
        is_first_of_key(prefix.push(record), j),
        prefix.push(record)[j] == prefix[j],
{
    let next = prefix.push(record);
    assert forall|k: int| 0 <= k < j implies #[trigger] next[k].key_v() != next[j].key_v() by {
        assert(next[k] == prefix[k]);
    }
}

proof fn lemma_absorb_duplicate(prefix: Seq<LegacyRecord>, out: Seq<LegacyRecord>, keys: Seq<Vec<char>>, src: Seq<int>, pos: Seq<int>, p: int, record: LegacyRecord)
    requires
        batch_state(prefix, out, keys, src, pos),
        0 <= p < out.len(),
        out[p].key_v() == record.key_v(),
        out[p].digest_v() == record.digest_v(),
    ensures
        batch_state(prefix.push(record), out, keys, src, pos.push(p)),
{
    let next = prefix.push(record);
    let n = prefix.len() as int;
    let i = src[p];
    assert(is_first_of_key(prefix, i) && out[p] == prefix[i]);
    assert forall|k: int| 0 <= k < prefix.len() && #[trigger] prefix[k].key_v() == record.key_v()
        implies prefix[k].digest_v() == record.digest_v() by {
        lemma_same_key_same_digest(prefix, k, i);
    }
    lemma_no_conflict_push(prefix, record);
    assert forall|o: int| 0 <= o < out.len() implies is_first_of_key(next, #[trigger] src[o]) && out[o] == next[src[o]] by {
        lemma_first_stays_first(prefix, record, src[o]);
    }
    let new_pos = pos.push(p);
    assert forall|k: int| 0 <= k < next.len() implies 0 <= #[trigger] new_pos[k] < out.len() && out[new_pos[k]].key_v() == next[k].key_v() by {
        if k < n {
            assert(next[k] == prefix[k]);
            assert(new_pos[k] == pos[k]);
        }
    }
}

proof fn lemma_duplicate_conflict(prefix: Seq<LegacyRecord>, out: Seq<LegacyRecord>, keys: Seq<Vec<char>>, src: Seq<int>, pos: Seq<int>, p: int, record: LegacyRecord)
    requires
        batch_state(prefix, out, keys, src, pos),
        0 <= p < out.len(),
        out[p].key_v() == record.key_v(),
        out[p].digest_v() != record.digest_v(),
    ensures
        has_key_conflict(prefix.push(record)),
{
    let next = prefix.push(record);
    let i = src[p];
    assert(is_first_of_key(prefix, i) && out[p] == prefix[i]);
    assert(next[i] == prefix[i]);
    assert(next[prefix.len() as int] == record);
    assert(next[i].key_v() == next[prefix.len() as int].key_v());
}

proof fn lemma_new_key(prefix: Seq<LegacyRecord>, out: Seq<LegacyRecord>, keys: Seq<Vec<char>>, src: Seq<int>, pos: Seq<int>, p: int, key: Seq<char>)
    requires
        batch_state(prefix, out, keys, src, pos),
        0 <= p <= out.len(),
        forall|a: int| 0 <= a < p ==> !lex_le(key, #[trigger] out[a].key_v()),
        p < out.len() ==> lex_le(key, out[p].key_v()) && key != out[p].key_v(),
    ensures
        forall|a: int| 0 <= a < p ==> lex_lt(#[trigger] out[a].key_v(), key),
        forall|b: int| p <= b < out.len() ==> lex_lt(key, #[trigger] out[b].key_v()),
        forall|k: int| 0 <= k < prefix.len() ==> #[trigger] prefix[k].key_v() != key,
{
    assert forall|a: int| 0 <= a < p implies lex_lt(#[trigger] out[a].key_v(), key) by {
        lemma_lex_total(key, out[a].key_v());
    }
    assert forall|b: int| p <= b < out.len() implies lex_lt(key, #[trigger] out[b].key_v()) by {
        if b > p {
            assert(lex_lt(out[p].key_v(), out[b].key_v()));
            lemma_lex_transitive(key, out[p].key_v(), out[b].key_v());
            if key == out[b].key_v() {
                lemma_lex_antisymmetric(key, out[p].key_v());
            }
        }
    }
    assert forall|k: int| 0 <= k < prefix.len() implies #[trigger] prefix[k].key_v() != key by {
        let o = pos[k];
        assert(0 <= o < out.len() && out[o].key_v() == prefix[k].key_v());
        if o < p {
            assert(lex_lt(out[o].key_v(), key));
        } else {
            assert(lex_lt(key, out[o].key_v()));
        }
    }
}

proof fn lemma_insert_sorted(out: Seq<LegacyRecord>, p: int, record: LegacyRecord)
    requires
        forall|a: int, b: int| 0 <= a < b < out.len() ==> lex_lt(#[trigger] out[a].key_v(), #[trigger] out[b].key_v()),
        0 <= p <= out.len(),
        forall|a: int| 0 <= a < p ==> lex_lt(#[trigger] out[a].key_v(), record.key_v()),
        forall|b: int| p <= b < out.len() ==> lex_lt(record.key_v(), #[trigger] out[b].key_v()),
    ensures
        forall|a: int, b: int| 0 <= a < b < out.insert(p, record).len() ==> lex_lt(#[trigger] out.insert(p, record)[a].key_v(), #[trigger] out.insert(p, record)[b].key_v()),
{
    let new_out = out.insert(p, record);
    let key = record.key_v();
    assert forall|a: int, b: int| 0 <= a < b < new_out.len() implies lex_lt(#[trigger] new_out[a].key_v(), #[trigger] new_out[b].key_v()) by {
        if b < p {
            assert(new_out[a] == out[a] && new_out[b] == out[b]);
        } else if b == p {
            assert(new_out[a] == out[a]);
        } else if a == p {
            assert(new_out[b] == out[b - 1]);
        } else if a < p {
            assert(new_out[a] == out[a] && new_out[b] == out[b - 1]);
            lemma_lex_transitive(out[a].key_v(), key, out[b - 1].key_v());
            if out[a].key_v() == out[b - 1].key_v() {
                lemma_lex_antisymmetric(out[a].key_v(), key);
            }
        } else {
            assert(new_out[a] == out[a - 1] && new_out[b] == out[b - 1]);
        }
    }
}

/// Where each earlier key sits after an insertion at `p`.
pub open spec fn shifted_positions(pos: Seq<int>, p: int) -> Seq<int> {
    Seq::new(pos.len(), |i: int| if pos[i] >= p { pos[i] + 1 } else { pos[i] })
}

proof fn lemma_absorb_insert(prefix: Seq<LegacyRecord>, out: Seq<LegacyRecord>, keys: Seq<Vec<char>>, src: Seq<int>, pos: Seq<int>, p: int, record: LegacyRecord, key: Vec<char>)
    requires
        batch_state(prefix, out, keys, src, pos),
        0 <= p <= out.len(),
        key@ == record.key_v(),
        forall|a: int| 0 <= a < p ==> lex_lt(#[trigger] out[a].key_v(), record.key_v()),
        forall|b: int| p <= b < out.len() ==> lex_lt(record.key_v(), #[trigger] out[b].key_v()),
        forall|k: int| 0 <= k < prefix.len() ==> #[trigger] prefix[k].key_v() != record.key_v(),
    ensures
        batch_state(prefix.push(record), out.insert(p, record), keys.insert(p, key),
            src.insert(p, prefix.len() as int), shifted_positions(pos, p).push(p)),
{
    let next = prefix.push(record);
    let n = prefix.len() as int;
    let new_out = out.insert(p, record);
    let new_keys = keys.insert(p, key);
    let new_src = src.insert(p, n);
    let new_pos = shifted_positions(pos, p).push(p);
    lemma_no_conflict_push(prefix, record);
    lemma_insert_sorted(out, p, record);
    assert forall|o: int| 0 <= o < new_out.len() implies #[trigger] new_keys[o]@ == new_out[o].key_v() by {
        if o < p {
            assert(new_keys[o] == keys[o] && new_out[o] == out[o]);
        } else if o > p {
            assert(new_keys[o] == keys[o - 1] && new_out[o] == out[o - 1]);
        }
    }
    assert forall|o: int| 0 <= o < new_out.len() implies is_first_of_key(next, #[trigger] new_src[o]) && new_out[o] == next[new_src[o]] by {
        if o == p {
            assert forall|k: int| 0 <= k < n implies #[trigger] next[k].key_v() != next[n].key_v() by {
                assert(next[k] == prefix[k]);
            }
        } else {
            let s = if o < p { o } else { o - 1 };
            assert(new_src[o] == src[s] && new_out[o] == out[s]);
            lemma_first_stays_first(prefix, record, src[s]);
        }
    }
    assert forall|k: int| 0 <= k < next.len() implies 0 <= #[trigger] new_pos[k] < new_out.len() && new_out[new_pos[k]].key_v() == next[k].key_v() by {
        if k < n {
            assert(next[k] == prefix[k]);
            let q = pos[k];
            if q >= p {
                assert(new_pos[k] == q + 1);
                assert(new_out[q + 1] == out[q]);
            } else {
                assert(new_pos[k] == q);
                assert(new_out[q] == out[q]);
            }
        }
    }
}

/// Adds one record to the sorted first-occurrence list; `false` on a conflicting duplicate.
fn absorb_record(
    out: &mut Vec<LegacyRecord>,
    out_keys: &mut Vec<Vec<char>>,
    record: LegacyRecord,
    Ghost(prefix): Ghost<Seq<LegacyRecord>>,
    Ghost(src): Ghost<Seq<int>>,
    Ghost(pos): Ghost<Seq<int>>,
) -> (r: (bool, Ghost<Seq<int>>, Ghost<Seq<int>>))
    requires
        batch_state(prefix, old(out)@, old(out_keys)@, src, pos),
    ensures
        r.0 ==> batch_state(prefix.push(record), final(out)@, final(out_keys)@, r.1@, r.2@),
        !r.0 ==> has_key_conflict(prefix.push(record)),
{
    let key = chars_of(record.source_record_key.as_str());
    let mut p: usize = 0;
    while p < out_keys.len() && !lex_le_exec(&key, &out_keys[p])
        invariant
            p <= out_keys.len(),
            out_keys@.len() == out@.len(),
            key@ == record.key_v(),
            forall|o: int| 0 <= o < out@.len() ==> #[trigger] out_keys@[o]@ == out@[o].key_v(),
            forall|a: int| 0 <= a < p ==> !lex_le(key@, #[trigger] out@[a].key_v()),
        decreases out_keys.len() - p,
    {
        p += 1;
    }
    if p < out_keys.len() && chars_eq(&out_keys[p], &key) {
        if out[p].record_digest != record.record_digest {
            proof {
                lemma_duplicate_conflict(prefix, out@, out_keys@, src, pos, p as int, record);
            }
            return (false, Ghost(src), Ghost(pos));
        }
        proof {
            lemma_absorb_duplicate(prefix, out@, out_keys@, src, pos, p as int, record);
        }
        (true, Ghost(src), Ghost(pos.push(p as int)))
    } else {
        proof {
            lemma_new_key(prefix, out@, out_keys@, src, pos, p as int, key@);
            lemma_absorb_insert(prefix, out@, out_keys@, src, pos, p as int, record, key);
        }
        let ghost new_src = src.insert(p as int, prefix.len() as int);
        let ghost new_pos = shifted_positions(pos, p as int).push(p as int);
        out_keys.insert(p, key);
        out.insert(p, record);
        (true, Ghost(new_src), Ghost(new_pos))
    }
}

/// What collapsing validated records into a batch gives: `DuplicateSourceKey`
/// when a key repeats with another digest, else one record per key in
/// ascending key order, each the first record read with its key.
pub open spec fn batch_outcome(
    r: Result<PreflightBatch, LegacyTransitionError>,
    source_kind: LegacySourceKind,
    source_version: LegacySourceVersion,
    source_digest: Seq<char>,
    records: Seq<LegacyRecord>,
) -> bool {
    if has_key_conflict(records) {
        r == Err::<PreflightBatch, LegacyTransitionError>(LegacyTransitionError::DuplicateSourceKey)
    } else {
        r matches Ok(batch) && {
            &&& batch.kind_v() == source_kind
            &&& batch.version_v() == source_version
            &&& batch.source_digest_v() == source_digest
            &&& batch.row_count_v() == batch.records_v().len()
            &&& keyed_first_occurrences(records, batch.records_v())
        }
    }
}

/// Keys strictly ascending.
pub open spec fn strictly_ascending(keys: Seq<Seq<char>>) -> bool {
    forall|a: int, b: int| 0 <= a < b < keys.len() ==> lex_lt(#[trigger] keys[a], #[trigger] keys[b])
}

pub open spec fn keys_of(recs: Seq<LegacyRecord>) -> Seq<Seq<char>> {
    Seq::new(recs.len(), |i: int| recs[i].key_v())
}

proof fn lemma_lex_lt_asymmetric(a: Seq<char>, b: Seq<char>)
    requires
        lex_lt(a, b),
    ensures
        !lex_lt(b, a),
{
    if lex_lt(b, a) {
        lemma_lex_antisymmetric(a, b);
    }
}

/// Two strictly ascending key lists with the same members are the same list.
proof fn lemma_ascending_same_members(ka: Seq<Seq<char>>, kb: Seq<Seq<char>>)
    requires
        strictly_ascending(ka),
        strictly_ascending(kb),
        forall|x: Seq<char>| ka.contains(x) <==> kb.contains(x),
    ensures
        ka == kb,
    decreases ka.len(),
{
    if ka.len() == 0 {
        if kb.len() > 0 {
            assert(kb.contains(kb[0]));
        }
        assert(ka =~= kb);
    } else {
        assert(ka.contains(ka[0]));
        let j = choose|j: int| 0 <= j < kb.len() && kb[j] == ka[0];
        assert(kb.contains(kb[0]));
        let i = choose|i: int| 0 <= i < ka.len() && ka[i] == kb[0];
        if j > 0 {
            assert(lex_lt(kb[0], kb[j]));
            if i > 0 {
                assert(lex_lt(ka[0], ka[i]));
                lemma_lex_lt_asymmetric(ka[0], ka[i]);
            }
            assert(false);
        }
        let ta = ka.drop_first();
        let tb = kb.drop_first();
        assert forall|x: Seq<char>| ta.contains(x) <==> tb.contains(x) by {
            if ta.contains(x) {
                let p = choose|p: int| 0 <= p < ta.len() && ta[p] == x;
                assert(ka[p + 1] == x);
                assert(lex_lt(ka[0], ka[p + 1]));
                assert(ka.contains(x));
                let q = choose|q: int| 0 <= q < kb.len() && kb[q] == x;
                assert(q != 0);
                assert(tb[q - 1] == x);
            }
            if tb.contains(x) {
                let p = choose|p: int| 0 <= p < tb.len() && tb[p] == x;
                assert(kb[p + 1] == x);
                assert(lex_lt(kb[0], kb[p + 1]));
                assert(kb.contains(x));
                let q = choose|q: int| 0 <= q < ka.len() && ka[q] == x;
                assert(q != 0);
                assert(ta[q - 1] == x);
            }
        }
        lemma_ascending_same_members(ta, tb);
        assert(ka =~= seq![ka[0]] + ta);
        assert(kb =~= seq![kb[0]] + tb);
    }
}

proof fn lemma_occurrence_keys(recs: Seq<LegacyRecord>, out: Seq<LegacyRecord>)
    requires
        keyed_first_occurrences(recs, out),
    ensures
        strictly_ascending(keys_of(out)),
        forall|x: Seq<char>| keys_of(out).contains(x) <==> keys_of(recs).contains(x),
{
    let (src, pos) = choose|src: Seq<int>, pos: Seq<int>| occurrence_witness(recs, out, src, pos);
    let ko = keys_of(out);
    let kr = keys_of(recs);
    assert forall|a: int, b: int| 0 <= a < b < ko.len() implies lex_lt(#[trigger] ko[a], #[trigger] ko[b]) by {
        assert(lex_lt(out[a].key_v(), out[b].key_v()));
    }
    assert forall|x: Seq<char>| ko.contains(x) <==> kr.contains(x) by {
        if ko.contains(x) {
            let o = choose|o: int| 0 <= o < ko.len() && ko[o] == x;
            assert(is_first_of_key(recs, src[o]) && out[o] == recs[src[o]]);
            assert(kr[src[o]] == x);
        }
        if kr.contains(x) {
            let i = choose|i: int| 0 <= i < kr.len() && kr[i] == x;
            assert(0 <= pos[i] < out.len() && out[pos[i]].key_v() == recs[i].key_v());
            assert(ko[pos[i]] == x);
        }
    }
}

/// Preflight outcomes are unique: one input has one collapsed record list.
pub proof fn lemma_batch_records_unique(recs: Seq<LegacyRecord>, out1: Seq<LegacyRecord>, out2: Seq<LegacyRecord>)
    requires
        keyed_first_occurrences(recs, out1),
        keyed_first_occurrences(recs, out2),
    ensures
        out1 == out2,
{
    lemma_occurrence_keys(recs, out1);
    lemma_occurrence_keys(recs, out2);
    assert forall|x: Seq<char>| keys_of(out1).contains(x) <==> keys_of(out2).contains(x) by {}
    lemma_ascending_same_members(keys_of(out1), keys_of(out2));
    let (src1, pos1) = choose|src: Seq<int>, pos: Seq<int>| occurrence_witness(recs, out1, src, pos);
    let (src2, pos2) = choose|src: Seq<int>, pos: Seq<int>| occurrence_witness(recs, out2, src, pos);
    assert(out1.len() == keys_of(out1).len());
    assert forall|i: int| 0 <= i < out1.len() implies out1[i] == out2[i] by {
        assert(keys_of(out1)[i] == keys_of(out2)[i]);
        let a = src1[i];
        let b = src2[i];
        assert(is_first_of_key(recs, a) && out1[i] == recs[a]);
        assert(is_first_of_key(recs, b) && out2[i] == recs[b]);
        if a < b {
            assert(recs[a].key_v() != recs[b].key_v());
        } else if b < a {
            assert(recs[b].key_v() != recs[a].key_v());
        }
    }
    assert(out1 =~= out2);
}

/// A list of records with strictly ascending keys is its own collapsed form,
/// and it has no key conflict: preflighting a preflighted batch settles.
pub proof fn lemma_batch_records_settle(out: Seq<LegacyRecord>)
    requires
        strictly_ascending(keys_of(out)),
    ensures
        keyed_first_occurrences(out, out),
        !has_key_conflict(out),
{
    let ids = Seq::new(out.len(), |i: int| i);
    assert forall|o: int| 0 <= o < out.len() implies is_first_of_key(out, #[trigger] ids[o]) && out[o] == out[ids[o]] by {
        assert forall|j: int| 0 <= j < o implies #[trigger] out[j].key_v() != out[o].key_v() by {
            assert(lex_lt(keys_of(out)[j], keys_of(out)[o]));
        }
    }
    assert(occurrence_witness(out, out, ids, ids));
    assert forall|a: int, b: int| 0 <= a < b < out.len() implies lex_lt(#[trigger] out[a].key_v(), #[trigger] out[b].key_v()) by {
        assert(lex_lt(keys_of(out)[a], keys_of(out)[b]));
    }
    if has_key_conflict(out) {
        let (i, j) = choose|i: int, j: int| 0 <= i < j < out.len() && #[trigger] out[i].key_v() == #[trigger] out[j].key_v()
            && out[i].digest_v() != out[j].digest_v();
        assert(lex_lt(keys_of(out)[i], keys_of(out)[j]));
    }
}

/// Collapsing a batch's own records again gives the same records: a
/// preflighted batch has no key conflict and is already in its final form.
pub proof fn lemma_batch_refinish(recs: Seq<LegacyRecord>, out: Seq<LegacyRecord>, again: Seq<LegacyRecord>)
    requires
        keyed_first_occurrences(recs, out),
        keyed_first_occurrences(out, again),
    ensures
        again == out,
        !has_key_conflict(out),
{
    lemma_occurrence_keys(recs, out);
    lemma_batch_records_settle(out);
    lemma_batch_records_unique(out, out, again);
}

/// Collapses a batch to one record per key, ascending by key. A repeated key
/// whose digest differs from the first record with that key refuses the
/// whole batch with `DuplicateSourceKey`.
pub fn finish_batch(
    source_kind: LegacySourceKind,
    source_version: LegacySourceVersion,
    source_digest: String,
    records: Vec<LegacyRecord>,
) -> (r: Result<PreflightBatch, LegacyTransitionError>)
    ensures
        batch_outcome(r, source_kind, source_version, source_digest@, records@),
{
    let ghost recs = records@;
    let mut out: Vec<LegacyRecord> = Vec::new();
    let mut out_keys: Vec<Vec<char>> = Vec::new();
    let ghost mut src: Seq<int> = Seq::empty();
    let ghost mut pos: Seq<int> = Seq::empty();
    proof {
        assert(recs.take(0) =~= Seq::<LegacyRecord>::empty());
    }
    for record in it: records.into_iter()
        invariant
            it.seq() == recs,
            it.index() <= recs.len(),
            batch_state(recs.take(it.index() as int), out@, out_keys@, src, pos),
    {
        let ghost n = it.index() as int;
        proof {
            assert(record == recs[n]);
            assert(recs.take(n + 1) =~= recs.take(n).push(record));
        }
        let (ok, Ghost(s2), Ghost(p2)) = absorb_record(&mut out, &mut out_keys, record, Ghost(recs.take(n)), Ghost(src), Ghost(pos));
        if !ok {
            proof {
                lemma_conflict_prefix(recs, n + 1);
            }
            return Err(LegacyTransitionError::DuplicateSourceKey);
        }
        proof {
            src = s2;
            pos = p2;
        }
    }
    proof {
        assert(recs.take(recs.len() as int) =~= recs);
        lemma_state_gives_occurrences(recs, out@, out_keys@, src, pos);
    }
    let row_count = out.len();
    Ok(PreflightBatch { source_kind, source_version, source_digest, row_count, records: out })
}

proof fn lemma_conflict_prefix(recs: Seq<LegacyRecord>, n: int)
    requires
        0 <= n <= recs.len(),
        has_key_conflict(recs.take(n)),
    ensures
        has_key_conflict(recs),
{
    let t = recs.take(n);
    let (i, j) = choose|i: int, j: int|
        0 <= i < j < t.len() && #[trigger] t[i].key_v() == #[trigger] t[j].key_v() && t[i].digest_v() != t[j].digest_v();
    assert(t[i] == recs[i] && t[j] == recs[j]);
}

// ---------------------------------------------------------------------------
// Identity resolution and import tallies.
// ---------------------------------------------------------------------------

/// An optional identity kept only when it is a provider post identity.
pub open spec fn valid_id(o: Option<Seq<char>>) -> Option<Seq<char>> {
    match o {
        Some(s) => if is_provider_post_id(s) { Some(s) } else { None },
        None => None,
    }
}

/// The resolution of a row's explicit and URL-derived provider identities,
/// the identity it maps to, and the URL identity that conflicts with it.
pub open spec fn identity_resolution(provider: Option<Seq<char>>, from_url: Option<Seq<char>>) -> (
    LegacyResolution,
    Option<Seq<char>>,
    Option<Seq<char>>,
) {
    match (valid_id(provider), valid_id(from_url)) {
        (Some(e), Some(u)) => if e != u {
            (LegacyResolution::IdentityConflict, None, Some(u))
        } else {
            (LegacyResolution::ProviderPost, Some(e), None)
        },
        (Some(e), None) => (LegacyResolution::ProviderPost, Some(e), None),
        (None, Some(u)) => (LegacyResolution::UrlDerivedPost, Some(u), None),
        (None, None) => (LegacyResolution::Unmapped, None, None),
    }
}

fn valid_id_exec(o: Option<&str>) -> (r: Option<String>)
    ensures
        opt_str(r) == valid_id(match o { Some(s) => Some(s@), None => None }),
{
    match o {
        Some(s) => if valid_provider_post_id(s) { Some(s.to_string()) } else { None },
        None => None,
    }
}

/// An explicit provider identity wins: a valid explicit identity that no valid
/// URL identity contradicts resolves as the provider post with that identity;
/// the URL's identity is used only when there is no valid explicit one; two
/// different valid identities conflict, and a row with neither is unmapped.
pub proof fn lemma_identity_precedence(provider: Option<Seq<char>>, from_url: Option<Seq<char>>)
    ensures
        valid_id(provider) is Some && (valid_id(from_url) is None || valid_id(from_url) == valid_id(provider))
            ==> identity_resolution(provider, from_url) == (LegacyResolution::ProviderPost, valid_id(provider), None::<Seq<char>>),
        identity_resolution(provider, from_url).0 == LegacyResolution::UrlDerivedPost
            ==> valid_id(provider) is None && identity_resolution(provider, from_url).1 == valid_id(from_url)
                && valid_id(from_url) is Some,
        identity_resolution(provider, from_url).0 == LegacyResolution::IdentityConflict
            ==> valid_id(provider) is Some && valid_id(from_url) is Some && valid_id(provider) != valid_id(from_url)
                && identity_resolution(provider, from_url).1 is None
                && identity_resolution(provider, from_url).2 == valid_id(from_url),
        identity_resolution(provider, from_url).0 == LegacyResolution::Unmapped
            <==> valid_id(provider) is None && valid_id(from_url) is None,
{
}

/// Resolves one row's provider identity: an explicit identity wins unless the
/// URL names a different one, which is a conflict; otherwise the URL's.
pub fn resolve_record_identity(record: &LegacyRecord) -> (r: (LegacyResolution, Option<String>, Option<String>))
    ensures
        (r.0, opt_str(r.1), opt_str(r.2)) == identity_resolution(record.provider_v(), record.url_provider_v()),
        valid_id(record.provider_v()) is Some
            && (valid_id(record.url_provider_v()) is None || valid_id(record.url_provider_v()) == valid_id(record.provider_v()))
            ==> r.0 == LegacyResolution::ProviderPost && opt_str(r.1) == valid_id(record.provider_v()) && r.2 is None,
        r.0 == LegacyResolution::UrlDerivedPost ==> valid_id(record.provider_v()) is None
            && opt_str(r.1) == valid_id(record.url_provider_v()) && r.1 is Some,
        r.0 == LegacyResolution::IdentityConflict ==> valid_id(record.provider_v()) is Some
            && valid_id(record.url_provider_v()) is Some && valid_id(record.provider_v()) != valid_id(record.url_provider_v())
            && r.1 is None && opt_str(r.2) == valid_id(record.url_provider_v()),
        r.0 == LegacyResolution::Unmapped <==> valid_id(record.provider_v()) is None && valid_id(record.url_provider_v()) is None,
{
    proof {
        lemma_identity_precedence(record.provider_v(), record.url_provider_v());
    }
    let explicit = valid_id_exec(record.provider_post_id());
    let from_url = valid_id_exec(record.url_provider_post_id());
    match (explicit, from_url) {
        (Some(e), Some(u)) => {
            if e != u {
                (LegacyResolution::IdentityConflict, None, Some(u))
            } else {
                (LegacyResolution::ProviderPost, Some(e), None)
            }
        },
        (Some(e), None) => (LegacyResolution::ProviderPost, Some(e), None),
        (None, Some(u)) => (LegacyResolution::UrlDerivedPost, Some(u), None),
        (None, None) => (LegacyResolution::Unmapped, None, None),
    }
}

/// The provider identity an import item records: the resolved identity, else
/// a valid explicit identity (kept on conflicts for review).
pub fn stored_provider_post_id(record: &LegacyRecord) -> (r: Option<String>)
    ensures
        opt_str(r) == match identity_resolution(record.provider_v(), record.url_provider_v()).1 {
            Some(id) => Some(id),
            None => valid_id(record.provider_v()),
        },
{
    let (_, resolved, _) = resolve_record_identity(record);
    match resolved {
        Some(id) => Some(id),
        None => valid_id_exec(record.provider_post_id()),
    }
}

/// What the archive already holds for a resolved provider post.
pub struct ExistingPost {
    /// Whether the post was normalized by an earlier legacy import.
    pub legacy_provenance: bool,
    /// The stored post text.
    pub text: String,
    /// The stored publication instant.
    pub published_at: Option<Timestamp>,
}

/// The write an import makes for a resolved provider post.
#[derive(Debug, Clone, Copy, PartialEq, Eq, Structural)]
pub enum PostUpsert {
    /// No post exists: insert it.
    Insert,
    /// A legacy-imported post differs from the row: update it.
    Update,
    /// The post exists and is kept as is.
    Match,
}

/// Decides the write for one resolved row: insert when absent; update only a
/// post an earlier legacy import wrote whose text or publication differs;
/// otherwise keep it.
pub fn post_upsert(existing: &Option<ExistingPost>, record: &LegacyRecord) -> (r: PostUpsert)
    ensures
        r == match existing {
            None => PostUpsert::Insert,
            Some(e) => if e.legacy_provenance && (e.text@ != record.text_v() || e.published_at != record.posted_v()) {
                PostUpsert::Update
            } else {
                PostUpsert::Match
            },
        },
{
    match existing {
        None => PostUpsert::Insert,
        Some(e) => {
            let same_text = crate::json::str_eq(e.text.as_str(), record.text());
            let same_published = match (e.published_at, record.posted_at()) {
                (None, None) => true,
                (Some(a), Some(b)) => a.seconds == b.seconds && a.nanos == b.nanos,
                _ => false,
            };
            if e.legacy_provenance && (!same_text || !same_published) {
                PostUpsert::Update
            } else {
                PostUpsert::Match
            }
        },
    }
}

/// Counts one imported row: its post write when it resolved to a provider
/// post, else its conflict or unmapped outcome.
pub fn tally_import(counts: ImportCounts, resolution: LegacyResolution, upsert: Option<PostUpsert>) -> (r: ImportCounts)
    requires
        counts.inserted < u64::MAX,
        counts.matched < u64::MAX,
        counts.updated < u64::MAX,
        counts.conflicted < u64::MAX,
        counts.unmapped < u64::MAX,
    ensures
        r == match upsert {
            Some(PostUpsert::Insert) => ImportCounts { inserted: (counts.inserted + 1) as u64, ..counts },
            Some(PostUpsert::Update) => ImportCounts { updated: (counts.updated + 1) as u64, ..counts },
            Some(PostUpsert::Match) => ImportCounts { matched: (counts.matched + 1) as u64, ..counts },
            None => match resolution {
                LegacyResolution::IdentityConflict => ImportCounts { conflicted: (counts.conflicted + 1) as u64, ..counts },
                LegacyResolution::Unmapped => ImportCounts { unmapped: (counts.unmapped + 1) as u64, ..counts },
                _ => counts,
            },
        },
{
    match upsert {
        Some(PostUpsert::Insert) => ImportCounts { inserted: counts.inserted + 1, ..counts },
        Some(PostUpsert::Update) => ImportCounts { updated: counts.updated + 1, ..counts },
        Some(PostUpsert::Match) => ImportCounts { matched: counts.matched + 1, ..counts },
        None => match resolution {
            LegacyResolution::IdentityConflict => ImportCounts { conflicted: counts.conflicted + 1, ..counts },
            LegacyResolution::Unmapped => ImportCounts { unmapped: counts.unmapped + 1, ..counts },
            _ => counts,
        },
    }
}


/// The counts after one imported row, as `tally_import` gives them.
pub open spec fn tally_step(counts: ImportCounts, resolution: LegacyResolution, upsert: Option<PostUpsert>) -> ImportCounts {
    match upsert {
        Some(PostUpsert::Insert) => ImportCounts { inserted: (counts.inserted + 1) as u64, ..counts },
        Some(PostUpsert::Update) => ImportCounts { updated: (counts.updated + 1) as u64, ..counts },
        Some(PostUpsert::Match) => ImportCounts { matched: (counts.matched + 1) as u64, ..counts },
        None => match resolution {
            LegacyResolution::IdentityConflict => ImportCounts { conflicted: (counts.conflicted + 1) as u64, ..counts },
            LegacyResolution::Unmapped => ImportCounts { unmapped: (counts.unmapped + 1) as u64, ..counts },
            _ => counts,
        },
    }
}

pub open spec fn zero_counts() -> ImportCounts {
    ImportCounts { inserted: 0, matched: 0, updated: 0, conflicted: 0, rejected: 0, unmapped: 0 }
}

/// The counts of a whole import: each row's resolution and post write, in order,
/// counted from zero.
pub open spec fn import_tally(steps: Seq<(LegacyResolution, Option<PostUpsert>)>) -> ImportCounts
    decreases steps.len(),
{
    if steps.len() == 0 {
        zero_counts()
    } else {
        tally_step(import_tally(steps.drop_last()), steps.last().0, steps.last().1)
    }
}

/// A row's step as the import makes it: a row that resolved to a provider
/// post has a post write, any other row has none.
pub open spec fn step_consistent(step: (LegacyResolution, Option<PostUpsert>)) -> bool {
    match step.0 {
        LegacyResolution::ProviderPost | LegacyResolution::UrlDerivedPost => step.1 is Some,
        _ => step.1 is None,
    }
}

/// The number of rows with the given resolution.
pub open spec fn resolution_count(steps: Seq<(LegacyResolution, Option<PostUpsert>)>, resolution: LegacyResolution) -> nat
    decreases steps.len(),
{
    if steps.len() == 0 {
        0
    } else {
        resolution_count(steps.drop_last(), resolution) + if steps.last().0 == resolution { 1nat } else { 0nat }
    }
}

/// The total of the counters an import moves.
pub open spec fn counted(c: ImportCounts) -> int {
    c.inserted + c.matched + c.updated + c.conflicted + c.unmapped
}

proof fn lemma_import_tally_bounded(steps: Seq<(LegacyResolution, Option<PostUpsert>)>)
    requires
        steps.len() < u64::MAX,
    ensures
        counted(import_tally(steps)) <= steps.len(),
        import_tally(steps).rejected == 0,
    decreases steps.len(),
{
    if steps.len() > 0 {
        lemma_import_tally_bounded(steps.drop_last());
    }
}

/// Counts a whole import: each row's resolution and post write, in order.
pub fn import_counts(steps: &Vec<(LegacyResolution, Option<PostUpsert>)>) -> (r: ImportCounts)
    requires
        steps.len() < u64::MAX,
    ensures
        r == import_tally(steps@),
{
    let mut counts = ImportCounts::default();
    let mut i: usize = 0;
    while i < steps.len()
        invariant
            i <= steps.len(),
            steps.len() < u64::MAX,
            counts == import_tally(steps@.take(i as int)),
        decreases steps.len() - i,
    {
        proof {
            assert(steps@.take(i as int + 1).drop_last() =~= steps@.take(i as int));
            lemma_import_tally_bounded(steps@.take(i as int));
        }
        let (resolution, upsert) = steps[i];
        counts = tally_import(counts, resolution, upsert);
        i += 1;
    }
    assert(steps@.take(steps.len() as int) =~= steps@);
    counts
}

/// Every row of an import is counted exactly once: when each row that resolved
/// to a provider post had a post write and no other row had one, the moved
/// counters add up to the number of rows, nothing is counted as rejected, and
/// the conflicted and unmapped counts are the numbers of rows so resolved.
pub proof fn lemma_import_counts_total(steps: Seq<(LegacyResolution, Option<PostUpsert>)>)
    requires
        steps.len() < u64::MAX,
        forall|i: int| 0 <= i < steps.len() ==> step_consistent(#[trigger] steps[i]),
    ensures
        counted(import_tally(steps)) == steps.len(),
        import_tally(steps).rejected == 0,
        import_tally(steps).conflicted == resolution_count(steps, LegacyResolution::IdentityConflict),
        import_tally(steps).unmapped == resolution_count(steps, LegacyResolution::Unmapped),
    decreases steps.len(),
{
    if steps.len() > 0 {
        let init = steps.drop_last();
        assert forall|i: int| 0 <= i < init.len() implies step_consistent(#[trigger] init[i]) by {
            assert(init[i] == steps[i]);
        }
        lemma_import_counts_total(init);
        assert(step_consistent(steps[steps.len() - 1]));
    }
}


/// A row has a resolved provider post exactly when it resolved to one: by its
/// explicit identity or by its status URL.
pub proof fn lemma_resolved_exactly_when_mapped(provider: Option<Seq<char>>, from_url: Option<Seq<char>>)
    ensures
        identity_resolution(provider, from_url).1 is Some <==> (identity_resolution(provider, from_url).0 is ProviderPost
            || identity_resolution(provider, from_url).0 is UrlDerivedPost),
{
}


/// The sorted-and-unique form of a list depends only on its members.
proof fn lemma_sort_unique_members(a: Seq<Seq<char>>, b: Seq<Seq<char>>)
    requires
        forall|x: Seq<char>| a.contains(x) <==> b.contains(x),
    ensures
        sort_unique(a) == sort_unique(b),
        strictly_ascending(sort_unique(a)),
{
    lemma_sort_unique_ascending(a);
    lemma_sort_unique_ascending(b);
    assert forall|x: Seq<char>| sort_unique(a).contains(x) <==> sort_unique(b).contains(x) by {
        assert(sort_unique(a).contains(x) <==> a.contains(x));
        assert(sort_unique(b).contains(x) <==> b.contains(x));
    }
    lemma_ascending_same_members(sort_unique(a), sort_unique(b));
}

/// A row's category and folder lists are sets: rows that differ only in the
/// order or repetition of those entries normalize to the same lists and the
/// same digest document, and each normalized list is strictly ascending.
pub proof fn lemma_record_lists_are_sets(v: RecordView, w: RecordView)
    requires
        w == (RecordView { categories: w.categories, folder_ids: w.folder_ids, folder_names: w.folder_names, ..v }),
        forall|x: Seq<char>| v.categories.contains(x) <==> w.categories.contains(x),
        forall|x: Seq<char>| v.folder_ids.contains(x) <==> w.folder_ids.contains(x),
        forall|x: Seq<char>| v.folder_names.contains(x) <==> w.folder_names.contains(x),
    ensures
        sort_unique(v.categories) == sort_unique(w.categories),
        sort_unique(v.folder_ids) == sort_unique(w.folder_ids),
        sort_unique(v.folder_names) == sort_unique(w.folder_names),
        view_document(v) == view_document(w),
        strictly_ascending(sort_unique(v.categories)),
        strictly_ascending(sort_unique(v.folder_ids)),
        strictly_ascending(sort_unique(v.folder_names)),
{
    lemma_sort_unique_members(v.categories, w.categories);
    lemma_sort_unique_members(v.folder_ids, w.folder_ids);
    lemma_sort_unique_members(v.folder_names, w.folder_names);
}

} // verus!
