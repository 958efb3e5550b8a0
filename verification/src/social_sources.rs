//! Account-scoped `SocialSource` revisions of normalized X posts: the semantic
//! document whose SHA-256 decides whether a post materially changed, and the
//! revision, event and snapshot written when it did.

use vstd::prelude::*;
use vstd::utf8::encode_utf8;
use crate::json::{JsonValue, json_canonical, json_document, parse_json_document, string_literal, strings_text, opt_string_text, member_text, object_text,
    string_views, string_literal_exec, strings_text_exec, opt_string_text_exec, member_text_exec,
    object_text_exec, str_eq};
use crate::digest::{sha256_hex_of, sha256_text};
use crate::time::{Timestamp, rfc3339_text, render_rfc3339};
use crate::ids::{uuid_text, uuid_string};
use crate::order::views;
use crate::text::{chars_of, string_of, extend_chars};
use crate::snapshot::SnapshotError;

verus! {

/// How a source was acquired and what authority its saved state carries.
#[derive(Debug, Clone, Copy, PartialEq, Eq, Structural)]
pub enum SourceProvenance {
    /// A bookmark observed through the official API.
    Bookmark,
    /// A post the user captured explicitly in the browser extension.
    Explicit,
}

pub open spec fn acquisition_of(p: SourceProvenance) -> Seq<char> {
    match p {
        SourceProvenance::Bookmark => "official_api"@,
        SourceProvenance::Explicit => "browser_extension"@,
    }
}

pub open spec fn saved_authority_of(p: SourceProvenance) -> Seq<char> {
    match p {
        SourceProvenance::Bookmark => "authoritative_platform_state"@,
        SourceProvenance::Explicit => "explicit_user_capture"@,
    }
}

impl SourceProvenance {
    /// The acquisition token.
    pub fn acquisition(self) -> (r: &'static str)
        ensures
            r@ == acquisition_of(self),
    {
        match self {
            SourceProvenance::Bookmark => "official_api",
            SourceProvenance::Explicit => "browser_extension",
        }
    }

    /// The saved-authority token.
    pub fn saved_authority(self) -> (r: &'static str)
        ensures
            r@ == saved_authority_of(self),
    {
        match self {
            SourceProvenance::Bookmark => "authoritative_platform_state",
            SourceProvenance::Explicit => "explicit_user_capture",
        }
    }
}

/// The shared vocabulary for a stored post availability.
pub open spec fn upstream_availability_of(availability: Seq<char>) -> Seq<char> {
    if availability == "active"@ {
        "available"@
    } else if availability == "deleted"@ {
        "deleted_upstream"@
    } else {
        "unavailable"@
    }
}

/// Maps a stored post availability onto the shared vocabulary.
pub fn upstream_availability(availability: &str) -> (r: &'static str)
    ensures
        r@ == upstream_availability_of(availability@),
{
    if str_eq(availability, "active") {
        "available"
    } else if str_eq(availability, "deleted") {
        "deleted_upstream"
    } else {
        "unavailable"
    }
}

/// What the archive holds for one account's post and its source.
pub struct SourceRow {
    /// The owner's internal user identity.
    pub internal_user_id: u128,
    /// The existing source, when the post was published before.
    pub existing_source_id: Option<u128>,
    /// The stored content digest document as text, when a digest is stored.
    pub existing_digest: Option<String>,
    /// Whether the source was removed.
    pub removed: bool,
    pub provider_id: String,
    pub text: String,
    pub long_text: Option<String>,
    pub published_at: Option<Timestamp>,
    pub availability: String,
    pub author_provider_id: String,
    pub author_username: Option<String>,
    pub author_display_name: Option<String>,
    pub expanded_urls: Vec<String>,
}

pub open spec fn opt_chars(o: Option<String>) -> Option<Seq<char>> {
    match o {
        Some(s) => Some(s@),
        None => None,
    }
}

/// The post text a source shows: the long text when there is one.
pub open spec fn shown_text(row: SourceRow) -> Seq<char> {
    match row.long_text {
        Some(long) => long@,
        None => row.text@,
    }
}

/// The wire text of an optional instant; `None` when an instant cannot be written.
pub open spec fn wire_time(t: Option<Timestamp>) -> Option<Option<Seq<char>>> {
    match t {
        None => Some(None),
        Some(ts) => match rfc3339_text(ts.seconds, ts.nanos) {
            Some(s) => Some(Some(s)),
            None => None,
        },
    }
}

/// The semantic document of a post, members by key, as compact JSON.
pub open spec fn semantic_text(row: SourceRow, p: SourceProvenance, published: Option<Seq<char>>) -> Seq<char> {
    object_text(seq![
        member_text("acquisition"@, string_literal(acquisition_of(p))),
        member_text("author_display_name"@, opt_string_text(opt_chars(row.author_display_name))),
        member_text("author_provider_id"@, string_literal(row.author_provider_id@)),
        member_text("author_username"@, opt_string_text(opt_chars(row.author_username))),
        member_text("availability"@, string_literal(row.availability@)),
        member_text("expanded_urls"@, strings_text(string_views(row.expanded_urls@))),
        member_text("provider_id"@, string_literal(row.provider_id@)),
        member_text("published_at"@, opt_string_text(published)),
        member_text("saved_authority"@, string_literal(saved_authority_of(p))),
        member_text("text"@, string_literal(shown_text(row))),
    ])
}

/// The lowercase hexadecimal SHA-256 of the semantic document.
pub open spec fn content_hex(row: SourceRow, p: SourceProvenance, published: Option<Seq<char>>) -> Seq<char> {
    sha256_hex_of(encode_utf8(semantic_text(row, p, published)))
}

/// The stored content digest: `{"algorithm":"sha256","hex":...}`.
pub open spec fn digest_text(hex: Seq<char>) -> Seq<char> {
    object_text(seq![
        member_text("algorithm"@, string_literal("sha256"@)),
        member_text("hex"@, string_literal(hex)),
    ])
}

/// Whether a JSON document is the content digest with the given hex. On a
/// canonical document (members ascending by key) this is equality with
/// `{"algorithm":"sha256","hex":...}` whatever order the members were written in.
pub open spec fn is_digest_value(v: JsonValue, hex: Seq<char>) -> bool {
    &&& v matches JsonValue::Object(entries)
    &&& entries@.len() == 2
    &&& entries@[0].0@ == "algorithm"@
    &&& entries@[0].1 matches JsonValue::Str(algorithm) && algorithm@ == "sha256"@
    &&& entries@[1].0@ == "hex"@
    &&& entries@[1].1 matches JsonValue::Str(h) && h@ == hex
}

/// Whether a stored digest text, read as JSON, is the content digest with the
/// given hex.
pub open spec fn stored_digest_is(stored: Option<String>, hex: Seq<char>) -> bool {
    match stored {
        Some(text) => match json_document(encode_utf8(text@)) {
            Some(v) => is_digest_value(v, hex),
            None => false,
        },
        None => false,
    }
}

/// The semantic document of a post.
fn semantic_document(row: &SourceRow, provenance: SourceProvenance, published: &Option<String>) -> (r: Vec<char>)
    ensures
        r@ == semantic_text(*row, provenance, opt_chars(*published)),
{
    let shown = match &row.long_text {
        Some(long) => long.as_str(),
        None => row.text.as_str(),
    };
    let mut members: Vec<Vec<char>> = Vec::new();
    members.push(member_text_exec("acquisition", &string_literal_exec(provenance.acquisition())));
    members.push(member_text_exec("author_display_name", &opt_string_text_exec(&row.author_display_name)));
    members.push(member_text_exec("author_provider_id", &string_literal_exec(row.author_provider_id.as_str())));
    members.push(member_text_exec("author_username", &opt_string_text_exec(&row.author_username)));
    members.push(member_text_exec("availability", &string_literal_exec(row.availability.as_str())));
    members.push(member_text_exec("expanded_urls", &strings_text_exec(&row.expanded_urls)));
    members.push(member_text_exec("provider_id", &string_literal_exec(row.provider_id.as_str())));
    members.push(member_text_exec("published_at", &opt_string_text_exec(published)));
    members.push(member_text_exec("saved_authority", &string_literal_exec(provenance.saved_authority())));
    members.push(member_text_exec("text", &string_literal_exec(shown)));
    assert(opt_chars(row.author_display_name) == (match row.author_display_name { Some(s) => Some(s@), None => None::<Seq<char>> }));
    assert(views(members@) =~= seq![
        member_text("acquisition"@, string_literal(acquisition_of(provenance))),
        member_text("author_display_name"@, opt_string_text(opt_chars(row.author_display_name))),
        member_text("author_provider_id"@, string_literal(row.author_provider_id@)),
        member_text("author_username"@, opt_string_text(opt_chars(row.author_username))),
        member_text("availability"@, string_literal(row.availability@)),
        member_text("expanded_urls"@, strings_text(string_views(row.expanded_urls@))),
        member_text("provider_id"@, string_literal(row.provider_id@)),
        member_text("published_at"@, opt_string_text(opt_chars(*published))),
        member_text("saved_authority"@, string_literal(saved_authority_of(provenance))),
        member_text("text"@, string_literal(shown_text(*row))),
    ]);
    object_text_exec(&members)
}

/// The content digest document of a hex digest.
pub fn content_digest(hex: &str) -> (r: String)
    ensures
        r@ == digest_text(hex@),
{
    let mut members: Vec<Vec<char>> = Vec::new();
    members.push(member_text_exec("algorithm", &string_literal_exec("sha256")));
    members.push(member_text_exec("hex", &string_literal_exec(hex)));
    assert(views(members@) =~= seq![
        member_text("algorithm"@, string_literal("sha256"@)),
        member_text("hex"@, string_literal(hex@)),
    ]);
    string_of(&object_text_exec(&members))
}

/// Whether the stored digest document equals the digest with the given hex.
pub fn stored_digest_matches(stored: &Option<JsonValue>, hex: &str) -> (r: bool)
    requires
        match *stored { Some(v) => json_canonical(v), None => true },
    ensures
        r == (match *stored {
            Some(v) => is_digest_value(v, hex@),
            None => false,
        }),
{
    match stored {
        Some(JsonValue::Object(entries)) => {
            if entries.len() != 2 {
                return false;
            }
            if !str_eq(entries[0].0.as_str(), "algorithm") || !str_eq(entries[1].0.as_str(), "hex") {
                return false;
            }
            let algorithm_ok = match &entries[0].1 {
                JsonValue::Str(algorithm) => str_eq(algorithm.as_str(), "sha256"),
                _ => false,
            };
            if !algorithm_ok {
                return false;
            }
            match &entries[1].1 {
                JsonValue::Str(h) => str_eq(h.as_str(), hex),
                _ => false,
            }
        },
        _ => false,
    }
}

/// Which shared event announces a revision.
#[derive(Debug, Clone, Copy, PartialEq, Eq, Structural)]
pub enum SourceEventKind {
    /// The first revision of a source.
    Captured,
    /// A later, materially different revision.
    Updated,
}

/// The shared snapshot a revision event carries.
pub struct SourceSnapshot {
    pub social_source_id: u128,
    pub external_post_id: String,
    /// `user:` and the owner's internal identity.
    pub owner: String,
    pub external_author_id: String,
    pub handle: Option<String>,
    pub display_name: Option<String>,
    pub published_at: Option<String>,
    pub captured_at: String,
    pub text: String,
    /// The lowercase hex of the content digest.
    pub digest_hex: String,
    pub provenance: SourceProvenance,
    pub upstream_availability: &'static str,
}

/// One revision to record: the source row, its revision, its outbox event and
/// the links to capture.
pub struct SourceRevision {
    pub source_id: u128,
    pub event: SourceEventKind,
    /// The content digest document as stored.
    pub digest_text: String,
    /// The outbox aggregate and correlation identity: `social_source:` and the source.
    pub aggregate: String,
    pub snapshot: SourceSnapshot,
    pub expanded_urls: Vec<String>,
}

/// What publishing one post's source does.
pub enum SourcePublication {
    /// The source was removed: nothing is written.
    Removed,
    /// The stored digest already describes the post: nothing is written.
    Unchanged,
    /// A new revision is written.
    Publish(SourceRevision),
}

/// The text `prefix` followed by a UUID.
pub open spec fn tagged_uuid(prefix: Seq<char>, id: u128) -> Seq<char> {
    prefix + uuid_text(id)
}

fn tagged_uuid_exec(prefix: &str, id: u128) -> (r: String)
    ensures
        r@ == tagged_uuid(prefix@, id),
{
    let mut out = chars_of(prefix);
    extend_chars(&mut out, &uuid_string(id));
    string_of(&out)
}

/// Whether a revision is the one the rules give for a row.
pub open spec fn revision_matches(
    rev: SourceRevision,
    row: SourceRow,
    p: SourceProvenance,
    published: Option<Seq<char>>,
    captured: Seq<char>,
    fresh_source_id: u128,
) -> bool {
    let hex = content_hex(row, p, published);
    let source_id = match row.existing_source_id {
        Some(id) => id,
        None => fresh_source_id,
    };
    &&& rev.source_id == source_id
    &&& rev.event == (if row.existing_source_id is Some { SourceEventKind::Updated } else { SourceEventKind::Captured })
    &&& rev.digest_text@ == digest_text(hex)
    &&& rev.aggregate@ == tagged_uuid("social_source:"@, source_id)
    &&& string_views(rev.expanded_urls@) == string_views(row.expanded_urls@)
    &&& rev.snapshot.social_source_id == source_id
    &&& rev.snapshot.external_post_id@ == row.provider_id@
    &&& rev.snapshot.owner@ == tagged_uuid("user:"@, row.internal_user_id)
    &&& rev.snapshot.external_author_id@ == row.author_provider_id@
    &&& opt_chars(rev.snapshot.handle) == opt_chars(row.author_username)
    &&& opt_chars(rev.snapshot.display_name) == opt_chars(row.author_display_name)
    &&& opt_chars(rev.snapshot.published_at) == published
    &&& rev.snapshot.captured_at@ == captured
    &&& rev.snapshot.text@ == shown_text(row)
    &&& rev.snapshot.digest_hex@ == hex
    &&& rev.snapshot.provenance == p
    &&& rev.snapshot.upstream_availability@ == upstream_availability_of(row.availability@)
}

/// Decides what publishing a post's source writes: nothing for a removed
/// source or an unchanged digest, else a revision (an update of the existing
/// source, or a capture under `fresh_source_id`). An instant that cannot be
/// written as RFC 3339 is a contract error.
pub fn plan_source_publication(
    row: SourceRow,
    provenance: SourceProvenance,
    captured_at: Timestamp,
    fresh_source_id: u128,
) -> (r: Result<SourcePublication, SnapshotError>)
    ensures
        row.removed ==> r matches Ok(SourcePublication::Removed),
        !row.removed ==> match wire_time(row.published_at) {
            None => r == Err::<SourcePublication, SnapshotError>(SnapshotError::Contract),
            Some(published) => {
                let hex = content_hex(row, provenance, published);
                if stored_digest_is(row.existing_digest, hex) {
                    r matches Ok(SourcePublication::Unchanged)
                } else {
                    match rfc3339_text(captured_at.seconds, captured_at.nanos) {
                        None => r == Err::<SourcePublication, SnapshotError>(SnapshotError::Contract),
                        Some(captured) => r matches Ok(SourcePublication::Publish(rev))
                            && revision_matches(rev, row, provenance, published, captured, fresh_source_id),
                    }
                }
            },
        },
{
    if row.removed {
        return Ok(SourcePublication::Removed);
    }
    let published: Option<String> = match row.published_at {
        None => None,
        Some(ts) => match render_rfc3339(ts) {
            Some(text) => Some(text),
            None => return Err(SnapshotError::Contract),
        },
    };
    assert(wire_time(row.published_at) == Some(opt_chars(published)));
    let semantic = string_of(&semantic_document(&row, provenance, &published));
    let hex = sha256_text(semantic.as_str());
    let stored = match &row.existing_digest {
        Some(text) => parse_json_document(text.as_str().as_bytes()),
        None => None,
    };
    if stored_digest_matches(&stored, hex.as_str()) {
        return Ok(SourcePublication::Unchanged);
    }
    let captured = match render_rfc3339(captured_at) {
        Some(text) => text,
        None => return Err(SnapshotError::Contract),
    };
    let source_id = match row.existing_source_id {
        Some(id) => id,
        None => fresh_source_id,
    };
    let event = match row.existing_source_id {
        Some(_) => SourceEventKind::Updated,
        None => SourceEventKind::Captured,
    };
    let shown = match &row.long_text {
        Some(long) => long.clone(),
        None => row.text.clone(),
    };
    let digest_text = content_digest(hex.as_str());
    let aggregate = tagged_uuid_exec("social_source:", source_id);
    let owner = tagged_uuid_exec("user:", row.internal_user_id);
    let availability = upstream_availability(row.availability.as_str());
    let ghost old_row = row;
    let SourceRow {
        provider_id, author_provider_id, author_username, author_display_name, expanded_urls, ..
    } = row;
    let snapshot = SourceSnapshot {
        social_source_id: source_id,
        external_post_id: provider_id,
        owner,
        external_author_id: author_provider_id,
        handle: author_username,
        display_name: author_display_name,
        published_at: published,
        captured_at: captured,
        text: shown,
        digest_hex: hex,
        provenance,
        upstream_availability: availability,
    };
    let rev = SourceRevision { source_id, event, digest_text, aggregate, snapshot, expanded_urls };
    assert(string_views(rev.expanded_urls@) =~= string_views(old_row.expanded_urls@));
    Ok(SourcePublication::Publish(rev))
}

/// Publication deduplicates by revision: once a revision is stored, and the
/// digest text stored for the source reads back as its digest document, the
/// same post's content digest matches it, so publishing the post again writes
/// nothing (`Unchanged`).
pub proof fn lemma_republish_is_unchanged(
    row: SourceRow,
    p: SourceProvenance,
    captured: Seq<char>,
    fresh_source_id: u128,
    rev: SourceRevision,
    stored: String,
)
    requires
        !row.removed,
        wire_time(row.published_at) matches Some(published)
            && revision_matches(rev, row, p, published, captured, fresh_source_id),
        json_document(encode_utf8(stored@)) matches Some(v) && is_digest_value(v, rev.snapshot.digest_hex@),
    ensures
        ({
            let again = SourceRow { existing_source_id: Some(rev.source_id), existing_digest: Some(stored), ..row };
            &&& !again.removed
            &&& wire_time(again.published_at) matches Some(published)
                && stored_digest_is(again.existing_digest, content_hex(again, p, published))
        }),
{
    let again = SourceRow { existing_source_id: Some(rev.source_id), existing_digest: Some(stored), ..row };
    let published = wire_time(row.published_at)->Some_0;
    assert(semantic_text(again, p, published) == semantic_text(row, p, published));
}

} // verus!
