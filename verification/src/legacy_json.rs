//! Field Theory's JSONL bookmark cache: the credential-field screen, the pinned
//! record shape, and the records it yields.

use vstd::prelude::*;
use vstd::utf8::{encode_utf8, valid_utf8, decode_utf8};
use crate::digest::{sha256_hex, sha256_hex_of};
use crate::json::{JsonValue, json_document, parse_json_document, key_index_from, entries_get, str_eq, string_views, json_depth, depth_within};
use crate::legacy::{
    LegacyTransitionError, LegacyRecord, RecordFields, RecordView, SourceLimits, LegacySourceKind,
    LegacySourceVersion, PreflightBatch, build_record, record_outcome, fields_view, batch_outcome,
    finish_batch, validate_text, opt_str,
};
use crate::legacy_sources::{utf8_text, parse_x_status_url, status_url_identity, optional_timestamp, parse_required_timestamp};
use crate::time::Timestamp;
use crate::text::{chars_of, contains_seq, contains_seq_exec, is_alnum, alnum, lower_char, ascii_lower,
    split_on, split_on_exec, is_unicode_whitespace, unicode_whitespace, string_of};
use crate::order::views;

verus! {

// ---------------------------------------------------------------------------
// Credential- and session-shaped field names.
// ---------------------------------------------------------------------------

/// A field name reduced to its ASCII letters and digits, lowercased.
pub open spec fn normalized_name(field: Seq<char>) -> Seq<char>
    decreases field.len(),
{
    if field.len() == 0 {
        Seq::empty()
    } else if is_alnum(field.last()) {
        normalized_name(field.drop_last()).push(ascii_lower(field.last()))
    } else {
        normalized_name(field.drop_last())
    }
}

/// Whether a field name looks like it holds a credential or session.
pub open spec fn is_forbidden_name(field: Seq<char>) -> bool {
    let n = normalized_name(field);
    contains_seq(n, "token"@) || contains_seq(n, "cookie"@) || contains_seq(n, "session"@)
        || contains_seq(n, "password"@) || contains_seq(n, "secret"@) || contains_seq(n, "authorization"@)
        || contains_seq(n, "bearer"@) || contains_seq(n, "credential"@)
}

fn contains_str(n: &Vec<char>, word: &str) -> (r: bool)
    ensures
        r == contains_seq(n@, word@),
{
    let w = chars_of(word);
    contains_seq_exec(n, &w)
}

/// Whether a field name looks like it holds a credential or session.
pub fn forbidden_field_name(field: &str) -> (r: bool)
    ensures
        r == is_forbidden_name(field@),
{
    let chars = chars_of(field);
    let mut n: Vec<char> = Vec::new();
    let mut i: usize = 0;
    while i < chars.len()
        invariant
            i <= chars.len(),
            chars@ == field@,
            n@ == normalized_name(chars@.take(i as int)),
        decreases chars.len() - i,
    {
        assert(chars@.take(i + 1).drop_last() =~= chars@.take(i as int));
        if alnum(chars[i]) {
            n.push(lower_char(chars[i]));
        }
        i += 1;
    }
    assert(chars@.take(chars.len() as int) =~= chars@);
    contains_str(&n, "token") || contains_str(&n, "cookie") || contains_str(&n, "session")
        || contains_str(&n, "password") || contains_str(&n, "secret") || contains_str(&n, "authorization")
        || contains_str(&n, "bearer") || contains_str(&n, "credential")
}

/// The first forbidden member name met walking the document: an object's
/// members in order, each name before its value; an array's items in order.
pub open spec fn first_forbidden(v: JsonValue) -> Option<Seq<char>>
    decreases v, 0nat,
{
    match v {
        JsonValue::Object(entries) => entries_forbidden(entries, 0),
        JsonValue::Array(items) => items_forbidden(items, 0),
        _ => None,
    }
}

pub open spec fn entries_forbidden(entries: Vec<(String, JsonValue)>, i: nat) -> Option<Seq<char>>
    decreases entries, entries.len() - i,
{
    if i >= entries.len() {
        None
    } else if is_forbidden_name(entries[i as int].0@) {
        Some(entries[i as int].0@)
    } else {
        match first_forbidden(entries[i as int].1) {
            Some(f) => Some(f),
            None => entries_forbidden(entries, i + 1),
        }
    }
}

pub open spec fn items_forbidden(items: Vec<JsonValue>, i: nat) -> Option<Seq<char>>
    decreases items, items.len() - i,
{
    if i >= items.len() {
        None
    } else {
        match first_forbidden(items[i as int]) {
            Some(f) => Some(f),
            None => items_forbidden(items, i + 1),
        }
    }
}

/// The first forbidden member name of a document, if any.
pub fn find_forbidden_field(v: &JsonValue) -> (r: Option<String>)
    ensures
        match r {
            Some(s) => first_forbidden(*v) == Some(s@),
            None => first_forbidden(*v) is None,
        },
    decreases *v,
{
    match v {
        JsonValue::Object(entries) => {
            let mut i: usize = 0;
            while i < entries.len()
                invariant
                    i <= entries.len(),
                    *v == JsonValue::Object(*entries),
                    first_forbidden(*v) == entries_forbidden(*entries, i as nat),
                decreases entries.len() - i,
            {
                if forbidden_field_name(entries[i].0.as_str()) {
                    return Some(entries[i].0.clone());
                }
                proof {
                    assert(decreases_to!(*v => (*v)->Object_0));
                    assert(decreases_to!(*entries => entries[i as int]));
                    assert(decreases_to!(entries[i as int] => entries[i as int].1));
                }
                match find_forbidden_field(&entries[i].1) {
                    Some(f) => return Some(f),
                    None => {},
                }
                i += 1;
            }
            None
        },
        JsonValue::Array(items) => {
            let mut i: usize = 0;
            while i < items.len()
                invariant
                    i <= items.len(),
                    *v == JsonValue::Array(*items),
                    first_forbidden(*v) == items_forbidden(*items, i as nat),
                decreases items.len() - i,
            {
                proof {
                    assert(decreases_to!(*v => (*v)->Array_0));
                    assert(decreases_to!(*items => items[i as int]));
                }
                match find_forbidden_field(&items[i]) {
                    Some(f) => return Some(f),
                    None => {},
                }
                i += 1;
            }
            None
        },
        _ => None,
    }
}

// ---------------------------------------------------------------------------
// Field checks over an object's members.
// ---------------------------------------------------------------------------

/// The member named `name`, if present.
pub open spec fn member(obj: Seq<(String, JsonValue)>, name: Seq<char>) -> Option<JsonValue> {
    match key_index_from(obj, name, 0) {
        Some(i) => Some(obj[i].1),
        None => None,
    }
}

/// The value shapes a field may be required to have.
#[derive(Debug, Clone, Copy, PartialEq, Eq, Structural)]
pub enum FieldShape {
    /// Absent, `null`, or a string.
    OptionalString,
    /// Absent or a boolean.
    OptionalBool,
    /// Absent or a number.
    OptionalNumber,
    /// Absent, `null`, or an array of nonempty strings.
    OptionalStringArray,
}

pub open spec fn all_nonempty_strings(items: Seq<JsonValue>) -> bool {
    forall|i: int| 0 <= i < items.len() ==> (#[trigger] items[i] matches JsonValue::Str(s) && s@.len() > 0)
}

/// Whether a member value has the shape.
pub open spec fn shape_ok(shape: FieldShape, v: Option<JsonValue>) -> bool {
    match v {
        None => true,
        Some(JsonValue::Null) => shape == FieldShape::OptionalString || shape == FieldShape::OptionalStringArray,
        Some(JsonValue::Str(_)) => shape == FieldShape::OptionalString,
        Some(JsonValue::Bool(_)) => shape == FieldShape::OptionalBool,
        Some(JsonValue::Number(_)) => shape == FieldShape::OptionalNumber,
        Some(JsonValue::Array(items)) => shape == FieldShape::OptionalStringArray && all_nonempty_strings(items@),
        Some(JsonValue::Object(_)) => false,
    }
}

/// The first of `fields` (from `i`) whose member lacks the shape, as `InvalidField`.
pub open spec fn check_fields_from(obj: Seq<(String, JsonValue)>, fields: Seq<&'static str>, shape: FieldShape, i: int) -> Result<(), LegacyTransitionError>
    decreases fields.len() - i,
{
    if i < 0 || i >= fields.len() {
        Ok(())
    } else if !shape_ok(shape, member(obj, fields[i]@)) {
        Err(LegacyTransitionError::InvalidField { field: fields[i] })
    } else {
        check_fields_from(obj, fields, shape, i + 1)
    }
}

pub open spec fn check_fields(obj: Seq<(String, JsonValue)>, fields: Seq<&'static str>, shape: FieldShape) -> Result<(), LegacyTransitionError> {
    check_fields_from(obj, fields, shape, 0)
}

fn shape_ok_exec(shape: FieldShape, v: Option<&JsonValue>) -> (r: bool)
    ensures
        r == shape_ok(shape, match v { Some(x) => Some(*x), None => None }),
{
    match v {
        None => true,
        Some(JsonValue::Null) => shape == FieldShape::OptionalString || shape == FieldShape::OptionalStringArray,
        Some(JsonValue::Str(_)) => shape == FieldShape::OptionalString,
        Some(JsonValue::Bool(_)) => shape == FieldShape::OptionalBool,
        Some(JsonValue::Number(_)) => shape == FieldShape::OptionalNumber,
        Some(JsonValue::Array(items)) => {
            if shape != FieldShape::OptionalStringArray {
                return false;
            }
            let mut i: usize = 0;
            while i < items.len()
                invariant
                    i <= items.len(),
                    shape == FieldShape::OptionalStringArray,
                    v == Some(&JsonValue::Array(*items)),
                    forall|j: int| 0 <= j < i ==> (#[trigger] items@[j] matches JsonValue::Str(s) && s@.len() > 0),
                decreases items.len() - i,
            {
                match &items[i] {
                    JsonValue::Str(s) => {
                        if s.as_str().is_empty() {
                            assert(!(items@[i as int] matches JsonValue::Str(s) && s@.len() > 0));
                            return false;
                        }
                    },
                    _ => {
                        assert(!(items@[i as int] matches JsonValue::Str(s) && s@.len() > 0));
                        return false;
                    },
                }
                i += 1;
            }
            true
        },
        Some(JsonValue::Object(_)) => false,
    }
}

fn member_exec<'a>(obj: &'a Vec<(String, JsonValue)>, name: &str) -> (r: Option<&'a JsonValue>)
    ensures
        match member(obj@, name@) {
            Some(m) => r == Some(&m),
            None => r is None,
        },
{
    entries_get(obj, name)
}

/// Checks that each listed field has the shape, failing on the first that does not.
pub fn check_fields_exec(obj: &Vec<(String, JsonValue)>, fields: &Vec<&'static str>, shape: FieldShape) -> (r: Result<(), LegacyTransitionError>)
    ensures
        r == check_fields(obj@, fields@, shape),
{
    let mut i: usize = 0;
    while i < fields.len()
        invariant
            i <= fields.len(),
            check_fields(obj@, fields@, shape) == check_fields_from(obj@, fields@, shape, i as int),
        decreases fields.len() - i,
    {
        let f = fields[i];
        if !shape_ok_exec(shape, member_exec(obj, f)) {
            return Err(LegacyTransitionError::InvalidField { field: f });
        }
        i += 1;
    }
    Ok(())
}

/// The first member (from `i`) whose name is not allowed.
pub open spec fn unknown_member_from(obj: Seq<(String, JsonValue)>, allowed: Seq<&'static str>, i: int) -> Option<String>
    decreases obj.len() - i,
{
    if i < 0 || i >= obj.len() {
        None
    } else if !(exists|k: int| 0 <= k < allowed.len() && #[trigger] allowed[k]@ == obj[i].0@) {
        Some(obj[i].0)
    } else {
        unknown_member_from(obj, allowed, i + 1)
    }
}

/// `UnsupportedField` for the first member whose name is not allowed.
pub open spec fn reject_unknown(obj: Seq<(String, JsonValue)>, allowed: Seq<&'static str>) -> Result<(), LegacyTransitionError> {
    match unknown_member_from(obj, allowed, 0) {
        Some(name) => Err(LegacyTransitionError::UnsupportedField { field: name }),
        None => Ok(()),
    }
}

fn allowed_name(allowed: &Vec<&'static str>, name: &str) -> (r: bool)
    ensures
        r == exists|k: int| 0 <= k < allowed@.len() && #[trigger] allowed@[k]@ == name@,
{
    let mut k: usize = 0;
    while k < allowed.len()
        invariant
            k <= allowed.len(),
            forall|j: int| 0 <= j < k ==> #[trigger] allowed@[j]@ != name@,
        decreases allowed.len() - k,
    {
        if str_eq(allowed[k], name) {
            return true;
        }
        k += 1;
    }
    false
}

/// Refuses the first member whose name is not allowed.
pub fn reject_unknown_exec(obj: &Vec<(String, JsonValue)>, allowed: &Vec<&'static str>) -> (r: Result<(), LegacyTransitionError>)
    ensures
        r == reject_unknown(obj@, allowed@),
{
    let mut i: usize = 0;
    while i < obj.len()
        invariant
            i <= obj.len(),
            unknown_member_from(obj@, allowed@, 0) == unknown_member_from(obj@, allowed@, i as int),
        decreases obj.len() - i,
    {
        if !allowed_name(allowed, obj[i].0.as_str()) {
            return Err(LegacyTransitionError::UnsupportedField { field: obj[i].0.clone() });
        }
        i += 1;
    }
    Ok(())
}

/// The first error of two checks made in turn.
pub open spec fn first_failure(a: Result<(), LegacyTransitionError>, b: Result<(), LegacyTransitionError>) -> Result<(), LegacyTransitionError> {
    match a {
        Err(e) => Err(e),
        Ok(()) => b,
    }
}

/// A string member that, when present and not `null`, is nonempty; `None`
/// when absent or `null`, `Err` for anything else.
pub open spec fn optional_string(obj: Seq<(String, JsonValue)>, field: &'static str) -> Result<Option<Seq<char>>, LegacyTransitionError> {
    match member(obj, field@) {
        None => Ok(None),
        Some(JsonValue::Null) => Ok(None),
        Some(JsonValue::Str(s)) => if s@.len() > 0 { Ok(Some(s@)) } else { Err(LegacyTransitionError::InvalidField { field }) },
        _ => Err(LegacyTransitionError::InvalidField { field }),
    }
}

/// A required nonempty string member.
pub open spec fn required_string(obj: Seq<(String, JsonValue)>, field: &'static str) -> Result<Seq<char>, LegacyTransitionError> {
    match optional_string(obj, field) {
        Ok(Some(s)) => Ok(s),
        Ok(None) => Err(LegacyTransitionError::InvalidField { field }),
        Err(e) => Err(e),
    }
}

pub open spec fn required_ok(obj: Seq<(String, JsonValue)>, field: &'static str) -> Result<(), LegacyTransitionError> {
    match required_string(obj, field) {
        Ok(_) => Ok(()),
        Err(e) => Err(e),
    }
}

/// Reads an optional nonempty string member.
pub fn optional_string_exec(obj: &Vec<(String, JsonValue)>, field: &'static str) -> (r: Result<Option<String>, LegacyTransitionError>)
    ensures
        match optional_string(obj@, field) {
            Ok(Some(s)) => r matches Ok(Some(x)) && x@ == s,
            Ok(None) => r matches Ok(None),
            Err(e) => r == Err::<Option<String>, LegacyTransitionError>(e),
        },
{
    match member_exec(obj, field) {
        None => Ok(None),
        Some(JsonValue::Null) => Ok(None),
        Some(JsonValue::Str(s)) => {
            if s.as_str().is_empty() {
                Err(LegacyTransitionError::InvalidField { field })
            } else {
                Ok(Some(s.clone()))
            }
        },
        _ => Err(LegacyTransitionError::InvalidField { field }),
    }
}

/// Reads a required nonempty string member.
pub fn required_string_exec(obj: &Vec<(String, JsonValue)>, field: &'static str) -> (r: Result<String, LegacyTransitionError>)
    ensures
        match required_string(obj@, field) {
            Ok(s) => r matches Ok(x) && x@ == s,
            Err(e) => r == Err::<String, LegacyTransitionError>(e),
        },
{
    match optional_string_exec(obj, field)? {
        Some(s) => Ok(s),
        None => Err(LegacyTransitionError::InvalidField { field }),
    }
}

// ---------------------------------------------------------------------------
// The pinned field lists.
// ---------------------------------------------------------------------------

/// Record members that are optional strings.
pub open spec fn top_string_fields() -> Seq<&'static str> {
    seq!["tweetId", "authorHandle", "authorName", "authorProfileImageUrl", "postedAt", "bookmarkedAt", "sortIndex", "conversationId", "inReplyToStatusId", "inReplyToUserId", "quotedStatusId", "articleTitle", "articleText", "articleSite", "enrichedAt", "language", "sourceApp", "ingestedVia", "textExpandedAt", "quotedTweetFailedAt"]
}

fn top_string_fields_exec() -> (r: Vec<&'static str>)
    ensures
        r@ == top_string_fields(),
{
    let mut r: Vec<&'static str> = Vec::new();
    r.push("tweetId");
    r.push("authorHandle");
    r.push("authorName");
    r.push("authorProfileImageUrl");
    r.push("postedAt");
    r.push("bookmarkedAt");
    r.push("sortIndex");
    r.push("conversationId");
    r.push("inReplyToStatusId");
    r.push("inReplyToUserId");
    r.push("quotedStatusId");
    r.push("articleTitle");
    r.push("articleText");
    r.push("articleSite");
    r.push("enrichedAt");
    r.push("language");
    r.push("sourceApp");
    r.push("ingestedVia");
    r.push("textExpandedAt");
    r.push("quotedTweetFailedAt");
    assert(r@ =~= top_string_fields());
    r
}

/// Record members that are optional string arrays.
pub open spec fn top_array_fields() -> Seq<&'static str> {
    seq!["media", "links", "tags", "folderIds", "folderNames"]
}

fn top_array_fields_exec() -> (r: Vec<&'static str>)
    ensures
        r@ == top_array_fields(),
{
    let mut r: Vec<&'static str> = Vec::new();
    r.push("media");
    r.push("links");
    r.push("tags");
    r.push("folderIds");
    r.push("folderNames");
    assert(r@ =~= top_array_fields());
    r
}

/// Record members that are optional booleans.
pub open spec fn bool_fields() -> Seq<&'static str> {
    seq!["possiblySensitive"]
}

fn bool_fields_exec() -> (r: Vec<&'static str>)
    ensures
        r@ == bool_fields(),
{
    let mut r: Vec<&'static str> = Vec::new();
    r.push("possiblySensitive");
    assert(r@ =~= bool_fields());
    r
}

/// Members an author object may have.
pub open spec fn author_fields() -> Seq<&'static str> {
    seq!["handle", "name", "profileImageUrl", "description", "location", "url", "verified", "followersCount", "followingCount", "statusesCount"]
}

fn author_fields_exec() -> (r: Vec<&'static str>)
    ensures
        r@ == author_fields(),
{
    let mut r: Vec<&'static str> = Vec::new();
    r.push("handle");
    r.push("name");
    r.push("profileImageUrl");
    r.push("description");
    r.push("location");
    r.push("url");
    r.push("verified");
    r.push("followersCount");
    r.push("followingCount");
    r.push("statusesCount");
    assert(r@ =~= author_fields());
    r
}

/// Author members that are optional strings.
pub open spec fn author_string_fields() -> Seq<&'static str> {
    seq!["handle", "name", "profileImageUrl", "description", "location", "url"]
}

fn author_string_fields_exec() -> (r: Vec<&'static str>)
    ensures
        r@ == author_string_fields(),
{
    let mut r: Vec<&'static str> = Vec::new();
    r.push("handle");
    r.push("name");
    r.push("profileImageUrl");
    r.push("description");
    r.push("location");
    r.push("url");
    assert(r@ =~= author_string_fields());
    r
}

/// Author members that are optional booleans.
pub open spec fn author_bool_fields() -> Seq<&'static str> {
    seq!["verified"]
}

fn author_bool_fields_exec() -> (r: Vec<&'static str>)
    ensures
        r@ == author_bool_fields(),
{
    let mut r: Vec<&'static str> = Vec::new();
    r.push("verified");
    assert(r@ =~= author_bool_fields());
    r
}

/// Author members that are optional numbers.
pub open spec fn author_number_fields() -> Seq<&'static str> {
    seq!["followersCount", "followingCount", "statusesCount"]
}

fn author_number_fields_exec() -> (r: Vec<&'static str>)
    ensures
        r@ == author_number_fields(),
{
    let mut r: Vec<&'static str> = Vec::new();
    r.push("followersCount");
    r.push("followingCount");
    r.push("statusesCount");
    assert(r@ =~= author_number_fields());
    r
}

/// Members an engagement object may have; all optional numbers.
pub open spec fn engagement_fields() -> Seq<&'static str> {
    seq!["likeCount", "repostCount", "replyCount", "quoteCount", "bookmarkCount", "viewCount"]
}

fn engagement_fields_exec() -> (r: Vec<&'static str>)
    ensures
        r@ == engagement_fields(),
{
    let mut r: Vec<&'static str> = Vec::new();
    r.push("likeCount");
    r.push("repostCount");
    r.push("replyCount");
    r.push("quoteCount");
    r.push("bookmarkCount");
    r.push("viewCount");
    assert(r@ =~= engagement_fields());
    r
}

/// Members a quoted-post object may have.
pub open spec fn quoted_fields() -> Seq<&'static str> {
    seq!["id", "text", "authorHandle", "authorName", "authorProfileImageUrl", "postedAt", "media", "mediaObjects", "url"]
}

fn quoted_fields_exec() -> (r: Vec<&'static str>)
    ensures
        r@ == quoted_fields(),
{
    let mut r: Vec<&'static str> = Vec::new();
    r.push("id");
    r.push("text");
    r.push("authorHandle");
    r.push("authorName");
    r.push("authorProfileImageUrl");
    r.push("postedAt");
    r.push("media");
    r.push("mediaObjects");
    r.push("url");
    assert(r@ =~= quoted_fields());
    r
}

/// Quoted-post members that are optional strings.
pub open spec fn quoted_string_fields() -> Seq<&'static str> {
    seq!["authorHandle", "authorName", "authorProfileImageUrl", "postedAt"]
}

fn quoted_string_fields_exec() -> (r: Vec<&'static str>)
    ensures
        r@ == quoted_string_fields(),
{
    let mut r: Vec<&'static str> = Vec::new();
    r.push("authorHandle");
    r.push("authorName");
    r.push("authorProfileImageUrl");
    r.push("postedAt");
    assert(r@ =~= quoted_string_fields());
    r
}

/// Quoted-post members that are optional string arrays.
pub open spec fn quoted_array_fields() -> Seq<&'static str> {
    seq!["media"]
}

fn quoted_array_fields_exec() -> (r: Vec<&'static str>)
    ensures
        r@ == quoted_array_fields(),
{
    let mut r: Vec<&'static str> = Vec::new();
    r.push("media");
    assert(r@ =~= quoted_array_fields());
    r
}

/// Members a media object may have.
pub open spec fn media_fields() -> Seq<&'static str> {
    seq!["url", "mediaUrl", "expandedUrl", "previewUrl", "type", "altText", "extAltText", "width", "height", "videoVariants", "variants"]
}

fn media_fields_exec() -> (r: Vec<&'static str>)
    ensures
        r@ == media_fields(),
{
    let mut r: Vec<&'static str> = Vec::new();
    r.push("url");
    r.push("mediaUrl");
    r.push("expandedUrl");
    r.push("previewUrl");
    r.push("type");
    r.push("altText");
    r.push("extAltText");
    r.push("width");
    r.push("height");
    r.push("videoVariants");
    r.push("variants");
    assert(r@ =~= media_fields());
    r
}

/// Media members that are optional strings.
pub open spec fn media_string_fields() -> Seq<&'static str> {
    seq!["url", "mediaUrl", "expandedUrl", "previewUrl", "type", "altText", "extAltText"]
}

fn media_string_fields_exec() -> (r: Vec<&'static str>)
    ensures
        r@ == media_string_fields(),
{
    let mut r: Vec<&'static str> = Vec::new();
    r.push("url");
    r.push("mediaUrl");
    r.push("expandedUrl");
    r.push("previewUrl");
    r.push("type");
    r.push("altText");
    r.push("extAltText");
    assert(r@ =~= media_string_fields());
    r
}

/// Media members that are optional numbers.
pub open spec fn media_number_fields() -> Seq<&'static str> {
    seq!["width", "height"]
}

fn media_number_fields_exec() -> (r: Vec<&'static str>)
    ensures
        r@ == media_number_fields(),
{
    let mut r: Vec<&'static str> = Vec::new();
    r.push("width");
    r.push("height");
    assert(r@ =~= media_number_fields());
    r
}

/// Members a media variant may have.
pub open spec fn variant_fields() -> Seq<&'static str> {
    seq!["url", "contentType", "bitrate"]
}

fn variant_fields_exec() -> (r: Vec<&'static str>)
    ensures
        r@ == variant_fields(),
{
    let mut r: Vec<&'static str> = Vec::new();
    r.push("url");
    r.push("contentType");
    r.push("bitrate");
    assert(r@ =~= variant_fields());
    r
}

/// Variant members that are optional strings.
pub open spec fn variant_string_fields() -> Seq<&'static str> {
    seq!["url", "contentType"]
}

fn variant_string_fields_exec() -> (r: Vec<&'static str>)
    ensures
        r@ == variant_string_fields(),
{
    let mut r: Vec<&'static str> = Vec::new();
    r.push("url");
    r.push("contentType");
    assert(r@ =~= variant_string_fields());
    r
}

/// Variant members that are optional numbers.
pub open spec fn variant_number_fields() -> Seq<&'static str> {
    seq!["bitrate"]
}

fn variant_number_fields_exec() -> (r: Vec<&'static str>)
    ensures
        r@ == variant_number_fields(),
{
    let mut r: Vec<&'static str> = Vec::new();
    r.push("bitrate");
    assert(r@ =~= variant_number_fields());
    r
}

/// The members a JSONL record may have.
pub open spec fn jsonl_fields() -> Seq<&'static str> {
    seq!["id", "tweetId", "authorHandle", "authorName", "authorProfileImageUrl", "author", "url", "text", "postedAt", "bookmarkedAt", "sortIndex", "syncedAt", "conversationId", "inReplyToStatusId", "inReplyToUserId", "quotedStatusId", "quotedTweet", "articleTitle", "articleText", "articleSite", "enrichedAt", "language", "sourceApp", "possiblySensitive", "engagement", "media", "mediaObjects", "links", "tags", "ingestedVia", "folderIds", "folderNames", "textExpandedAt", "quotedTweetFailedAt"]
}

fn jsonl_fields_exec() -> (r: Vec<&'static str>)
    ensures
        r@ == jsonl_fields(),
{
    let mut r: Vec<&'static str> = Vec::new();
    r.push("id");
    r.push("tweetId");
    r.push("authorHandle");
    r.push("authorName");
    r.push("authorProfileImageUrl");
    r.push("author");
    r.push("url");
    r.push("text");
    r.push("postedAt");
    r.push("bookmarkedAt");
    r.push("sortIndex");
    r.push("syncedAt");
    r.push("conversationId");
    r.push("inReplyToStatusId");
    r.push("inReplyToUserId");
    r.push("quotedStatusId");
    r.push("quotedTweet");
    r.push("articleTitle");
    r.push("articleText");
    r.push("articleSite");
    r.push("enrichedAt");
    r.push("language");
    r.push("sourceApp");
    r.push("possiblySensitive");
    r.push("engagement");
    r.push("media");
    r.push("mediaObjects");
    r.push("links");
    r.push("tags");
    r.push("ingestedVia");
    r.push("folderIds");
    r.push("folderNames");
    r.push("textExpandedAt");
    r.push("quotedTweetFailedAt");
    assert(r@ =~= jsonl_fields());
    r
}

// ---------------------------------------------------------------------------
// Nested objects.
// ---------------------------------------------------------------------------

/// One media variant: an object of known members with the right shapes.
pub open spec fn variant_check(v: JsonValue, field: &'static str) -> Result<(), LegacyTransitionError> {
    match v {
        JsonValue::Object(o) => first_failure(reject_unknown(o@, variant_fields()), first_failure(
            check_fields(o@, variant_string_fields(), FieldShape::OptionalString),
            check_fields(o@, variant_number_fields(), FieldShape::OptionalNumber),
        )),
        _ => Err(LegacyTransitionError::InvalidField { field }),
    }
}

pub open spec fn variants_from(items: Seq<JsonValue>, field: &'static str, i: int) -> Result<(), LegacyTransitionError>
    decreases items.len() - i,
{
    if i < 0 || i >= items.len() {
        Ok(())
    } else {
        first_failure(variant_check(items[i], field), variants_from(items, field, i + 1))
    }
}

/// An optional array of media variants.
pub open spec fn media_variants(obj: Seq<(String, JsonValue)>, field: &'static str) -> Result<(), LegacyTransitionError> {
    match member(obj, field@) {
        None => Ok(()),
        Some(JsonValue::Array(items)) => variants_from(items@, field, 0),
        Some(_) => Err(LegacyTransitionError::InvalidField { field }),
    }
}

/// One media object.
pub open spec fn media_check(v: JsonValue, field: &'static str) -> Result<(), LegacyTransitionError> {
    match v {
        JsonValue::Object(o) => first_failure(reject_unknown(o@, media_fields()), first_failure(
            check_fields(o@, media_string_fields(), FieldShape::OptionalString),
            first_failure(
                check_fields(o@, media_number_fields(), FieldShape::OptionalNumber),
                first_failure(media_variants(o@, "videoVariants"), media_variants(o@, "variants")),
            ),
        )),
        _ => Err(LegacyTransitionError::InvalidField { field }),
    }
}

pub open spec fn media_from(items: Seq<JsonValue>, field: &'static str, i: int) -> Result<(), LegacyTransitionError>
    decreases items.len() - i,
{
    if i < 0 || i >= items.len() {
        Ok(())
    } else {
        first_failure(media_check(items[i], field), media_from(items, field, i + 1))
    }
}

/// An optional array of media objects.
pub open spec fn media_objects(obj: Seq<(String, JsonValue)>, field: &'static str) -> Result<(), LegacyTransitionError> {
    match member(obj, field@) {
        None => Ok(()),
        Some(JsonValue::Array(items)) => media_from(items@, field, 0),
        Some(_) => Err(LegacyTransitionError::InvalidField { field }),
    }
}

fn variant_check_exec(v: &JsonValue, field: &'static str) -> (r: Result<(), LegacyTransitionError>)
    ensures
        r == variant_check(*v, field),
{
    match v {
        JsonValue::Object(o) => {
            reject_unknown_exec(o, &variant_fields_exec())?;
            check_fields_exec(o, &variant_string_fields_exec(), FieldShape::OptionalString)?;
            check_fields_exec(o, &variant_number_fields_exec(), FieldShape::OptionalNumber)
        },
        _ => Err(LegacyTransitionError::InvalidField { field }),
    }
}

fn media_variants_exec(obj: &Vec<(String, JsonValue)>, field: &'static str) -> (r: Result<(), LegacyTransitionError>)
    ensures
        r == media_variants(obj@, field),
{
    match member_exec(obj, field) {
        None => Ok(()),
        Some(JsonValue::Array(items)) => {
            let mut i: usize = 0;
            while i < items.len()
                invariant
                    i <= items.len(),
                    member(obj@, field@) == Some(JsonValue::Array(*items)),
                    variants_from(items@, field, 0) == variants_from(items@, field, i as int),
                decreases items.len() - i,
            {
                variant_check_exec(&items[i], field)?;
                i += 1;
            }
            Ok(())
        },
        Some(_) => Err(LegacyTransitionError::InvalidField { field }),
    }
}

fn media_check_exec(v: &JsonValue, field: &'static str) -> (r: Result<(), LegacyTransitionError>)
    ensures
        r == media_check(*v, field),
{
    match v {
        JsonValue::Object(o) => {
            reject_unknown_exec(o, &media_fields_exec())?;
            check_fields_exec(o, &media_string_fields_exec(), FieldShape::OptionalString)?;
            check_fields_exec(o, &media_number_fields_exec(), FieldShape::OptionalNumber)?;
            media_variants_exec(o, "videoVariants")?;
            media_variants_exec(o, "variants")
        },
        _ => Err(LegacyTransitionError::InvalidField { field }),
    }
}

/// Checks an optional array of media objects.
pub fn media_objects_exec(obj: &Vec<(String, JsonValue)>, field: &'static str) -> (r: Result<(), LegacyTransitionError>)
    ensures
        r == media_objects(obj@, field),
{
    match member_exec(obj, field) {
        None => Ok(()),
        Some(JsonValue::Array(items)) => {
            let mut i: usize = 0;
            while i < items.len()
                invariant
                    i <= items.len(),
                    member(obj@, field@) == Some(JsonValue::Array(*items)),
                    media_from(items@, field, 0) == media_from(items@, field, i as int),
                decreases items.len() - i,
            {
                media_check_exec(&items[i], field)?;
                i += 1;
            }
            Ok(())
        },
        Some(_) => Err(LegacyTransitionError::InvalidField { field }),
    }
}

/// An author object's member shapes.
pub open spec fn author_shape(o: Seq<(String, JsonValue)>) -> Result<(), LegacyTransitionError> {
    first_failure(check_fields(o, author_string_fields(), FieldShape::OptionalString), first_failure(
        check_fields(o, author_bool_fields(), FieldShape::OptionalBool),
        check_fields(o, author_number_fields(), FieldShape::OptionalNumber),
    ))
}

/// A quoted-post object's member shapes.
pub open spec fn quoted_shape(o: Seq<(String, JsonValue)>) -> Result<(), LegacyTransitionError> {
    first_failure(required_ok(o, "id"), first_failure(required_ok(o, "text"), first_failure(required_ok(o, "url"), first_failure(
        check_fields(o, quoted_string_fields(), FieldShape::OptionalString),
        first_failure(check_fields(o, quoted_array_fields(), FieldShape::OptionalStringArray), media_objects(o, "mediaObjects")),
    ))))
}

/// The nested object kinds a record may carry.
#[derive(Debug, Clone, Copy, PartialEq, Eq, Structural)]
pub enum NestedObject {
    Author,
    Engagement,
    QuotedTweet,
}

pub open spec fn nested_allowed(kind: NestedObject) -> Seq<&'static str> {
    match kind {
        NestedObject::Author => author_fields(),
        NestedObject::Engagement => engagement_fields(),
        NestedObject::QuotedTweet => quoted_fields(),
    }
}

pub open spec fn nested_shape(kind: NestedObject, o: Seq<(String, JsonValue)>) -> Result<(), LegacyTransitionError> {
    match kind {
        NestedObject::Author => author_shape(o),
        NestedObject::Engagement => check_fields(o, engagement_fields(), FieldShape::OptionalNumber),
        NestedObject::QuotedTweet => quoted_shape(o),
    }
}

/// An optional nested object: absent, or an object of known members with the
/// kind's shapes; anything else (`null` included) is `InvalidField`.
pub open spec fn optional_object(obj: Seq<(String, JsonValue)>, field: &'static str, kind: NestedObject) -> Result<(), LegacyTransitionError> {
    match member(obj, field@) {
        None => Ok(()),
        Some(JsonValue::Object(nested)) => first_failure(reject_unknown(nested@, nested_allowed(kind)), nested_shape(kind, nested@)),
        Some(_) => Err(LegacyTransitionError::InvalidField { field }),
    }
}

fn required_ok_exec(o: &Vec<(String, JsonValue)>, field: &'static str) -> (r: Result<(), LegacyTransitionError>)
    ensures
        r == required_ok(o@, field),
{
    match required_string_exec(o, field) {
        Ok(_) => Ok(()),
        Err(e) => Err(e),
    }
}

fn nested_shape_exec(kind: NestedObject, o: &Vec<(String, JsonValue)>) -> (r: Result<(), LegacyTransitionError>)
    ensures
        r == nested_shape(kind, o@),
{
    match kind {
        NestedObject::Author => {
            check_fields_exec(o, &author_string_fields_exec(), FieldShape::OptionalString)?;
            check_fields_exec(o, &author_bool_fields_exec(), FieldShape::OptionalBool)?;
            check_fields_exec(o, &author_number_fields_exec(), FieldShape::OptionalNumber)
        },
        NestedObject::Engagement => check_fields_exec(o, &engagement_fields_exec(), FieldShape::OptionalNumber),
        NestedObject::QuotedTweet => {
            required_ok_exec(o, "id")?;
            required_ok_exec(o, "text")?;
            required_ok_exec(o, "url")?;
            check_fields_exec(o, &quoted_string_fields_exec(), FieldShape::OptionalString)?;
            check_fields_exec(o, &quoted_array_fields_exec(), FieldShape::OptionalStringArray)?;
            media_objects_exec(o, "mediaObjects")
        },
    }
}

fn nested_allowed_exec(kind: NestedObject) -> (r: Vec<&'static str>)
    ensures
        r@ == nested_allowed(kind),
{
    match kind {
        NestedObject::Author => author_fields_exec(),
        NestedObject::Engagement => engagement_fields_exec(),
        NestedObject::QuotedTweet => quoted_fields_exec(),
    }
}

fn optional_object_exec(obj: &Vec<(String, JsonValue)>, field: &'static str, kind: NestedObject) -> (r: Result<(), LegacyTransitionError>)
    ensures
        r == optional_object(obj@, field, kind),
{
    match member_exec(obj, field) {
        None => Ok(()),
        Some(JsonValue::Object(nested)) => {
            reject_unknown_exec(nested, &nested_allowed_exec(kind))?;
            nested_shape_exec(kind, nested)
        },
        Some(_) => Err(LegacyTransitionError::InvalidField { field }),
    }
}

// ---------------------------------------------------------------------------
// The record shape.
// ---------------------------------------------------------------------------

/// `ingestedVia`, when present, names one of the three capture paths.
pub open spec fn ingested_via_check(obj: Seq<(String, JsonValue)>) -> Result<(), LegacyTransitionError> {
    match optional_string(obj, "ingestedVia") {
        Err(e) => Err(e),
        Ok(None) => Ok(()),
        Ok(Some(v)) => if v == "api"@ || v == "browser"@ || v == "graphql"@ {
            Ok(())
        } else {
            Err(LegacyTransitionError::InvalidField { field: "ingestedVia" })
        },
    }
}

/// The pinned Field Theory record shape, checked in order; the first failing
/// check decides the error.
pub open spec fn record_shape(obj: Seq<(String, JsonValue)>) -> Result<(), LegacyTransitionError> {
    first_failure(required_ok(obj, "tweetId"), first_failure(
        check_fields(obj, top_string_fields(), FieldShape::OptionalString),
        first_failure(check_fields(obj, bool_fields(), FieldShape::OptionalBool), first_failure(
            ingested_via_check(obj),
            first_failure(check_fields(obj, top_array_fields(), FieldShape::OptionalStringArray), first_failure(
                optional_object(obj, "author", NestedObject::Author),
                first_failure(optional_object(obj, "engagement", NestedObject::Engagement), first_failure(
                    optional_object(obj, "quotedTweet", NestedObject::QuotedTweet),
                    media_objects(obj, "mediaObjects"),
                )),
            )),
        )),
    ))
}

/// Validates the pinned Field Theory record shape.
pub fn validate_field_theory_record_shape(obj: &Vec<(String, JsonValue)>) -> (r: Result<(), LegacyTransitionError>)
    ensures
        r == record_shape(obj@),
{
    required_ok_exec(obj, "tweetId")?;
    check_fields_exec(obj, &top_string_fields_exec(), FieldShape::OptionalString)?;
    check_fields_exec(obj, &bool_fields_exec(), FieldShape::OptionalBool)?;
    match optional_string_exec(obj, "ingestedVia")? {
        Some(v) => {
            if !(str_eq(v.as_str(), "api") || str_eq(v.as_str(), "browser") || str_eq(v.as_str(), "graphql")) {
                return Err(LegacyTransitionError::InvalidField { field: "ingestedVia" });
            }
        },
        None => {},
    }
    check_fields_exec(obj, &top_array_fields_exec(), FieldShape::OptionalStringArray)?;
    optional_object_exec(obj, "author", NestedObject::Author)?;
    optional_object_exec(obj, "engagement", NestedObject::Engagement)?;
    optional_object_exec(obj, "quotedTweet", NestedObject::QuotedTweet)?;
    media_objects_exec(obj, "mediaObjects")
}

// ---------------------------------------------------------------------------
// Records.
// ---------------------------------------------------------------------------

/// An optional array of nonempty strings: absent or `null` reads as empty.
pub open spec fn optional_string_array(obj: Seq<(String, JsonValue)>, field: &'static str) -> Result<Seq<Seq<char>>, LegacyTransitionError> {
    match member(obj, field@) {
        None => Ok(Seq::empty()),
        Some(JsonValue::Null) => Ok(Seq::empty()),
        Some(JsonValue::Array(items)) => if all_nonempty_strings(items@) {
            Ok(Seq::new(items@.len(), |i: int| items@[i]->Str_0@))
        } else {
            Err(LegacyTransitionError::InvalidField { field })
        },
        _ => Err(LegacyTransitionError::InvalidField { field }),
    }
}

fn optional_string_array_exec(obj: &Vec<(String, JsonValue)>, field: &'static str) -> (r: Result<Vec<String>, LegacyTransitionError>)
    ensures
        match optional_string_array(obj@, field) {
            Ok(v) => r matches Ok(x) && string_views(x@) == v,
            Err(e) => r == Err::<Vec<String>, LegacyTransitionError>(e),
        },
{
    match member_exec(obj, field) {
        None => {
            let out: Vec<String> = Vec::new();
            assert(string_views(out@) =~= Seq::<Seq<char>>::empty());
            Ok(out)
        },
        Some(JsonValue::Null) => {
            let out: Vec<String> = Vec::new();
            assert(string_views(out@) =~= Seq::<Seq<char>>::empty());
            Ok(out)
        },
        Some(JsonValue::Array(items)) => {
            let mut out: Vec<String> = Vec::new();
            let mut i: usize = 0;
            while i < items.len()
                invariant
                    i <= items.len(),
                    member(obj@, field@) == Some(JsonValue::Array(*items)),
                    out@.len() == i,
                    forall|j: int| 0 <= j < i ==> (#[trigger] items@[j] matches JsonValue::Str(s) && s@.len() > 0 && out@[j]@ == s@),
                decreases items.len() - i,
            {
                match &items[i] {
                    JsonValue::Str(text) => {
                        if text.as_str().is_empty() {
                            assert(!(items@[i as int] matches JsonValue::Str(s) && s@.len() > 0));
                            return Err(LegacyTransitionError::InvalidField { field });
                        }
                        out.push(text.clone());
                    },
                    _ => {
                        assert(!(items@[i as int] matches JsonValue::Str(s) && s@.len() > 0));
                        return Err(LegacyTransitionError::InvalidField { field });
                    },
                }
                i += 1;
            }
            assert(string_views(out@) =~= Seq::new(items@.len(), |k: int| items@[k]->Str_0@));
            Ok(out)
        },
        _ => Err(LegacyTransitionError::InvalidField { field }),
    }
}

/// An optional timestamp member: absent or `null` is none; a nonempty string must be RFC 3339.
pub open spec fn optional_instant(obj: Seq<(String, JsonValue)>, field: &'static str) -> Result<Option<Timestamp>, LegacyTransitionError> {
    match optional_string(obj, field) {
        Err(e) => Err(e),
        Ok(None) => Ok(None),
        Ok(Some(text)) => match optional_timestamp(text) {
            Some(Some(t)) => Ok(Some(t)),
            Some(None) => Err(LegacyTransitionError::InvalidField { field }),
            None => Err(LegacyTransitionError::InvalidTimestamp { field }),
        },
    }
}

/// A required timestamp member.
pub open spec fn required_instant(obj: Seq<(String, JsonValue)>, field: &'static str) -> Result<Timestamp, LegacyTransitionError> {
    match required_string(obj, field) {
        Err(e) => Err(e),
        Ok(text) => match optional_timestamp(text) {
            Some(Some(t)) => Ok(t),
            Some(None) => Err(LegacyTransitionError::InvalidField { field }),
            None => Err(LegacyTransitionError::InvalidTimestamp { field }),
        },
    }
}

fn optional_instant_exec(obj: &Vec<(String, JsonValue)>, field: &'static str) -> (r: Result<Option<Timestamp>, LegacyTransitionError>)
    ensures
        r == optional_instant(obj@, field),
{
    match optional_string_exec(obj, field)? {
        None => Ok(None),
        Some(text) => {
            let t = parse_required_timestamp(field, text.as_str())?;
            Ok(Some(t))
        },
    }
}

fn required_instant_exec(obj: &Vec<(String, JsonValue)>, field: &'static str) -> (r: Result<Timestamp, LegacyTransitionError>)
    ensures
        r == required_instant(obj@, field),
{
    let text = required_string_exec(obj, field)?;
    parse_required_timestamp(field, text.as_str())
}

/// The values a shape-checked record supplies, read in the order the reader
/// takes them; the first failing read decides the error.
pub open spec fn jsonl_view(o: Seq<(String, JsonValue)>, max_text: usize) -> Result<RecordView, LegacyTransitionError> {
    match (required_string(o, "id"), optional_string(o, "tweetId"), required_string(o, "url"), required_string(o, "text")) {
        (Err(e), _, _, _) => Err(e),
        (Ok(_), Err(e), _, _) => Err(e),
        (Ok(_), Ok(_), Err(e), _) => Err(e),
        (Ok(_), Ok(_), Ok(_), Err(e)) => Err(e),
        (Ok(key), Ok(provider), Ok(url), Ok(text)) => if encode_utf8(text).len() > max_text {
            Err(LegacyTransitionError::TextLimitExceeded { field: "text" })
        } else {
            match (optional_string_array(o, "folderIds"), optional_string_array(o, "folderNames")) {
                (Err(e), _) => Err(e),
                (Ok(_), Err(e)) => Err(e),
                (Ok(ids), Ok(names)) => match (optional_instant(o, "postedAt"), optional_instant(o, "bookmarkedAt"), required_instant(o, "syncedAt")) {
                    (Err(e), _, _) => Err(e),
                    (Ok(_), Err(e), _) => Err(e),
                    (Ok(_), Ok(_), Err(e)) => Err(e),
                    (Ok(posted), Ok(bookmarked), Ok(synced)) => {
                        let status = status_url_identity(url);
                        Ok(RecordView {
                            key,
                            provider,
                            url_provider: status.0,
                            url_digest: status.1,
                            text,
                            posted,
                            bookmarked,
                            synced,
                            categories: Seq::empty(),
                            folder_ids: ids,
                            folder_names: names,
                        })
                    },
                },
            }
        },
    }
}

/// What reading one parsed JSONL line gives: the nesting limit, then the
/// credential screen, then an object of known members with the pinned shape,
/// then its values.
pub open spec fn jsonl_record_outcome(r: Result<LegacyRecord, LegacyTransitionError>, v: JsonValue, limits: SourceLimits) -> bool {
    if json_depth(v) > limits.max_json_depth {
        r == Err::<LegacyRecord, LegacyTransitionError>(LegacyTransitionError::JsonDepthExceeded)
    } else {
        match first_forbidden(v) {
            Some(f) => r matches Err(LegacyTransitionError::ForbiddenField { field }) && field@ == f,
            None => match v {
                JsonValue::Object(entries) => match first_failure(reject_unknown(entries@, jsonl_fields()), record_shape(entries@)) {
                    Err(e) => r == Err::<LegacyRecord, LegacyTransitionError>(e),
                    Ok(()) => match jsonl_view(entries@, limits.max_text_bytes) {
                        Err(e) => r == Err::<LegacyRecord, LegacyTransitionError>(e),
                        Ok(view) => record_outcome(r, view),
                    },
                },
                _ => r == Err::<LegacyRecord, LegacyTransitionError>(LegacyTransitionError::InvalidField { field: "record" }),
            },
        }
    }
}

fn jsonl_fields_record(o: &Vec<(String, JsonValue)>, max_text: usize) -> (r: Result<LegacyRecord, LegacyTransitionError>)
    ensures
        match jsonl_view(o@, max_text) {
            Err(e) => r == Err::<LegacyRecord, LegacyTransitionError>(e),
            Ok(view) => record_outcome(r, view),
        },
{
    let source_record_key = required_string_exec(o, "id")?;
    let provider_post_id = optional_string_exec(o, "tweetId")?;
    let url = required_string_exec(o, "url")?;
    let text = required_string_exec(o, "text")?;
    validate_text("text", text.as_str(), max_text)?;
    let (url_provider_post_id, canonical_url_digest) = parse_x_status_url(url.as_str());
    let folder_ids = optional_string_array_exec(o, "folderIds")?;
    let folder_names = optional_string_array_exec(o, "folderNames")?;
    let posted_at = optional_instant_exec(o, "postedAt")?;
    let bookmarked_at = optional_instant_exec(o, "bookmarkedAt")?;
    let synced_at = required_instant_exec(o, "syncedAt")?;
    let fields = RecordFields {
        source_record_key,
        provider_post_id,
        url_provider_post_id,
        canonical_url_digest,
        text,
        posted_at,
        bookmarked_at,
        synced_at,
        categories: Vec::new(),
        folder_ids,
        folder_names,
    };
    proof {
        let view = jsonl_view(o@, max_text)->Ok_0;
        assert(fields_view(fields).categories =~= Seq::<Seq<char>>::empty());
        assert(fields_view(fields) == view);
    }
    build_record(fields)
}

/// Reads one parsed JSONL line into a record.
pub fn field_theory_record(value: &JsonValue, limits: SourceLimits) -> (r: Result<LegacyRecord, LegacyTransitionError>)
    ensures
        jsonl_record_outcome(r, *value, limits),
{
    if !depth_within(value, limits.max_json_depth) {
        return Err(LegacyTransitionError::JsonDepthExceeded);
    }
    if let Some(field) = find_forbidden_field(value) {
        return Err(LegacyTransitionError::ForbiddenField { field });
    }
    match value {
        JsonValue::Object(entries) => {
            reject_unknown_exec(entries, &jsonl_fields_exec())?;
            validate_field_theory_record_shape(entries)?;
            jsonl_fields_record(entries, limits.max_text_bytes)
        },
        _ => Err(LegacyTransitionError::InvalidField { field: "record" }),
    }
}

// ---------------------------------------------------------------------------
// Lines and batches.
// ---------------------------------------------------------------------------

/// A line without the carriage return of a CRLF ending.
pub open spec fn strip_cr(line: Seq<char>) -> Seq<char> {
    if line.len() > 0 && line.last() == '\r' { line.drop_last() } else { line }
}

/// `str::lines`: pieces between line feeds, a CRLF ending counting as one,
/// with no empty piece after a final line ending.
pub open spec fn text_lines(s: Seq<char>) -> Seq<Seq<char>> {
    let p = split_on(s, '\n');
    let body = Seq::new((p.len() - 1) as nat, |i: int| strip_cr(p[i]));
    if p.last().len() > 0 { body.push(p.last()) } else { body }
}

/// Whether a line holds only Unicode whitespace (`str::trim` leaves it empty).
pub open spec fn is_blank(line: Seq<char>) -> bool {
    forall|i: int| 0 <= i < line.len() ==> is_unicode_whitespace(#[trigger] line[i])
}

/// The lines that are not blank, in order.
pub open spec fn nonblank(lines: Seq<Seq<char>>) -> Seq<Seq<char>>
    decreases lines.len(),
{
    if lines.len() == 0 {
        Seq::empty()
    } else if is_blank(lines.last()) {
        nonblank(lines.drop_last())
    } else {
        nonblank(lines.drop_last()).push(lines.last())
    }
}

/// The non-blank lines of a JSONL text, in order; each holds one record.
pub open spec fn jsonl_lines_spec(s: Seq<char>) -> Seq<Seq<char>> {
    nonblank(text_lines(s))
}

fn is_blank_exec(line: &Vec<char>) -> (r: bool)
    ensures
        r == is_blank(line@),
{
    let mut i: usize = 0;
    while i < line.len()
        invariant
            i <= line.len(),
            forall|j: int| 0 <= j < i ==> is_unicode_whitespace(#[trigger] line@[j]),
        decreases line.len() - i,
    {
        if !unicode_whitespace(line[i]) {
            return false;
        }
        i += 1;
    }
    true
}

/// The non-blank lines of a JSONL text, in order.
pub fn jsonl_lines(text: &str) -> (r: Vec<String>)
    ensures
        string_views(r@) == jsonl_lines_spec(text@),
{
    let chars = chars_of(text);
    let pieces = split_on_exec(&chars, '\n');
    let ghost p = views(pieces@);
    let ghost all = text_lines(text@);
    let mut out: Vec<String> = Vec::new();
    let mut i: usize = 0;
    let count = pieces.len();
    assert(count >= 1);
    let ghost body = Seq::new((p.len() - 1) as nat, |k: int| strip_cr(p[k]));
    proof {
        assert(all == if p.last().len() > 0 { body.push(p.last()) } else { body });
        assert(nonblank(body.take(0)) =~= Seq::<Seq<char>>::empty());
        assert(string_views(out@) =~= Seq::<Seq<char>>::empty());
    }
    while i + 1 < count
        invariant
            count == pieces.len(),
            count >= 1,
            i + 1 <= count,
            p == views(pieces@),
            p == split_on(chars@, '\n'),
            chars@ == text@,
            body == Seq::new((p.len() - 1) as nat, |k: int| strip_cr(p[k])),
            string_views(out@) == nonblank(body.take(i as int)),
        decreases count - i,
    {
        let mut line = pieces[i].clone();
        if line.len() > 0 && line[line.len() - 1] == '\r' {
            line.pop();
        }
        assert(line@ == strip_cr(p[i as int]));
        let ghost before = string_views(out@);
        let blank = is_blank_exec(&line);
        proof {
            assert(body.take(i + 1).drop_last() =~= body.take(i as int));
        }
        if !blank {
            out.push(string_of(&line));
            assert(string_views(out@) =~= before.push(line@));
        }
        i += 1;
    }
    proof {
        assert(body.take(i as int) =~= body);
    }
    let last = pieces[count - 1].clone();
    let ghost before = string_views(out@);
    proof {
        assert(last@ == p.last());
    }
    if last.len() > 0 {
        proof {
            assert(body.push(p.last()).drop_last() =~= body);
        }
        if !is_blank_exec(&last) {
            out.push(string_of(&last));
            assert(string_views(out@) =~= before.push(last@));
        }
    }
    out
}

/// The first `k` parsed lines all read into records.
pub open spec fn jsonl_prefix_ok(values: Seq<Option<JsonValue>>, limits: SourceLimits, recs: Seq<LegacyRecord>) -> bool {
    &&& recs.len() == values.len()
    &&& recs.len() <= limits.max_rows
    &&& forall|i: int| 0 <= i < values.len() ==> (#[trigger] values[i] matches Some(v) && jsonl_record_outcome(Ok(recs[i]), v, limits))
}

/// How the line at `k` fails after all earlier lines read: the row limit is
/// reached, the line did not parse, or its record is refused.
pub open spec fn jsonl_line_fails(values: Seq<Option<JsonValue>>, limits: SourceLimits, k: int, e: LegacyTransitionError) -> bool {
    if k == limits.max_rows {
        e == LegacyTransitionError::RowLimitExceeded
    } else {
        match values[k] {
            None => e == LegacyTransitionError::InvalidEncoding,
            Some(v) => jsonl_record_outcome(Err(e), v, limits),
        }
    }
}

/// What a JSONL preflight gives: the bytes must be UTF-8; the parsed lines
/// then read in order, the first failure deciding the error, and the records
/// collapse into a batch.
pub open spec fn jsonl_outcome(r: Result<PreflightBatch, LegacyTransitionError>, bytes: Seq<u8>, values: Seq<Option<JsonValue>>, limits: SourceLimits) -> bool {
    if !valid_utf8(bytes) {
        r == Err::<PreflightBatch, LegacyTransitionError>(LegacyTransitionError::InvalidEncoding)
    } else {
        ||| exists|recs: Seq<LegacyRecord>| #[trigger] jsonl_prefix_ok(values, limits, recs)
            && batch_outcome(r, LegacySourceKind::FieldTheoryJsonl, LegacySourceVersion::FieldTheoryJsonl1,
                sha256_hex_of(bytes), recs)
        ||| exists|k: int, recs: Seq<LegacyRecord>, e: LegacyTransitionError|
            0 <= k < values.len() && #[trigger] jsonl_prefix_ok(values.take(k), limits, recs)
                && #[trigger] jsonl_line_fails(values, limits, k, e) && r == Err::<PreflightBatch, LegacyTransitionError>(e)
    }
}

/// The documents of an artifact's non-blank lines, in order: what
/// `serde_json` reads from each line, `None` where a line is not JSON.
pub open spec fn jsonl_values(bytes: Seq<u8>) -> Seq<Option<JsonValue>> {
    let lines = jsonl_lines_spec(decode_utf8(bytes));
    Seq::new(lines.len(), |i: int| json_document(encode_utf8(lines[i])))
}

/// Validates a Field Theory JSONL artifact: the bytes must be UTF-8, and each
/// non-blank line is read as JSON and then as a record, in order.
pub fn preflight_field_theory_jsonl(bytes: &[u8], limits: SourceLimits) -> (r: Result<PreflightBatch, LegacyTransitionError>)
    ensures
        jsonl_outcome(r, bytes@, jsonl_values(bytes@), limits),
{
    let text = match utf8_text(bytes) {
        Some(text) => text,
        None => return Err(LegacyTransitionError::InvalidEncoding),
    };
    let lines = jsonl_lines(text);
    let ghost spec_lines = jsonl_lines_spec(decode_utf8(bytes@));
    let mut values: Vec<Option<JsonValue>> = Vec::new();
    let mut i: usize = 0;
    while i < lines.len()
        invariant
            i <= lines.len(),
            string_views(lines@) == spec_lines,
            values@.len() == i,
            forall|j: int| 0 <= j < i ==> #[trigger] values@[j] == json_document(encode_utf8(spec_lines[j])),
        decreases lines.len() - i,
    {
        assert(lines@[i as int]@ == spec_lines[i as int]);
        values.push(parse_json_document(lines[i].as_str().as_bytes()));
        i += 1;
    }
    assert(values@ =~= jsonl_values(bytes@));
    preflight_jsonl_values(bytes, values, limits)
}

/// Reads the parsed lines of a UTF-8 JSONL artifact into a batch.
fn preflight_jsonl_values(bytes: &[u8], values: Vec<Option<JsonValue>>, limits: SourceLimits) -> (r: Result<PreflightBatch, LegacyTransitionError>)
    ensures
        jsonl_outcome(r, bytes@, values@, limits),
{
    let source_digest = sha256_hex(bytes);
    if utf8_text(bytes).is_none() {
        return Err(LegacyTransitionError::InvalidEncoding);
    }
    let mut records: Vec<LegacyRecord> = Vec::new();
    let mut i: usize = 0;
    proof {
        assert(values@.take(0) =~= Seq::<Option<JsonValue>>::empty());
    }
    while i < values.len()
        invariant
            i <= values.len(),
            valid_utf8(bytes@),
            source_digest@ == sha256_hex_of(bytes@),
            jsonl_prefix_ok(values@.take(i as int), limits, records@),
        decreases values.len() - i,
    {
        if records.len() == limits.max_rows {
            proof {
                assert(jsonl_line_fails(values@, limits, i as int, LegacyTransitionError::RowLimitExceeded));
            }
            return Err(LegacyTransitionError::RowLimitExceeded);
        }
        match &values[i] {
            None => {
                proof {
                    assert(jsonl_line_fails(values@, limits, i as int, LegacyTransitionError::InvalidEncoding));
                }
                return Err(LegacyTransitionError::InvalidEncoding);
            },
            Some(v) => {
                match field_theory_record(v, limits) {
                    Ok(record) => {
                        let ghost before = records@;
                        records.push(record);
                        proof {
                            assert(values@.take(i + 1) =~= values@.take(i as int).push(values@[i as int]));
                            assert forall|j: int| 0 <= j < values@.take(i + 1).len() implies (#[trigger] values@.take(i + 1)[j] matches Some(w) && jsonl_record_outcome(Ok(records@[j]), w, limits)) by {
                                if j < i {
                                    assert(values@.take(i + 1)[j] == values@.take(i as int)[j]);
                                    assert(records@[j] == before[j]);
                                }
                            }
                        }
                    },
                    Err(e) => {
                        proof {
                            assert(jsonl_line_fails(values@, limits, i as int, e));
                        }
                        return Err(e);
                    },
                }
            },
        }
        i += 1;
    }
    proof {
        assert(values@.take(values.len() as int) =~= values@);
    }
    finish_batch(LegacySourceKind::FieldTheoryJsonl, LegacySourceVersion::FieldTheoryJsonl1, source_digest, records)
}

} // verus!
