//! Field Theory's `SQLite` search index: its pinned schema and its rows.

use vstd::prelude::*;
use vstd::utf8::encode_utf8;
use crate::digest::{sha256_hex, sha256_hex_of};
use crate::json::{str_eq, string_views};
use crate::legacy::{
    LegacyRecord, LegacySourceKind, LegacySourceVersion, LegacyTransitionError, PreflightBatch,
    RecordFields, RecordView, SourceLimits, build_record, finish_batch, validate_text, opt_str,
    fields_view, record_outcome, batch_outcome,
};
use crate::legacy_json::{is_forbidden_name, forbidden_field_name};
use crate::legacy_sources::{parse_x_status_url, status_url_identity, optional_timestamp,
    parse_optional_timestamp, parse_required_timestamp};
use crate::order::{sort_unique, sort_unique_strings};
use crate::text::{chars_of, string_of, is_unicode_whitespace, unicode_whitespace, split_on, split_on_exec, slice_chars};
use crate::order::views;
use crate::time::Timestamp;

verus! {

// ---------------------------------------------------------------------------
// Schema.
// ---------------------------------------------------------------------------

/// The columns of the pinned `bookmarks` table, in order.
pub open spec fn sqlite_columns() -> Seq<Seq<char>> {
    seq![
        "id"@, "tweet_id"@, "url"@, "text"@, "author_handle"@, "author_name"@,
        "author_profile_image_url"@, "posted_at"@, "bookmarked_at"@, "synced_at"@,
        "conversation_id"@, "in_reply_to_status_id"@, "quoted_status_id"@, "language"@,
        "like_count"@, "repost_count"@, "reply_count"@, "quote_count"@, "bookmark_count"@,
        "view_count"@, "media_count"@, "link_count"@, "links_json"@, "tags_json"@,
        "ingested_via"@, "categories"@, "primary_category"@, "github_urls"@, "domains"@,
        "primary_domain"@, "quoted_tweet_json"@, "article_title"@, "article_text"@,
        "article_site"@, "enriched_at"@, "folder_ids"@, "folder_names"@,
    ]
}

fn sqlite_columns_exec() -> (r: Vec<&'static str>)
    ensures
        r@.len() == sqlite_columns().len(),
        forall|i: int| 0 <= i < r@.len() ==> #[trigger] r@[i]@ == sqlite_columns()[i],
{
    let mut r: Vec<&'static str> = Vec::new();
    r.push("id"); r.push("tweet_id"); r.push("url"); r.push("text"); r.push("author_handle");
    r.push("author_name"); r.push("author_profile_image_url"); r.push("posted_at");
    r.push("bookmarked_at"); r.push("synced_at"); r.push("conversation_id");
    r.push("in_reply_to_status_id"); r.push("quoted_status_id"); r.push("language");
    r.push("like_count"); r.push("repost_count"); r.push("reply_count"); r.push("quote_count");
    r.push("bookmark_count"); r.push("view_count"); r.push("media_count"); r.push("link_count");
    r.push("links_json"); r.push("tags_json"); r.push("ingested_via"); r.push("categories");
    r.push("primary_category"); r.push("github_urls"); r.push("domains"); r.push("primary_domain");
    r.push("quoted_tweet_json"); r.push("article_title"); r.push("article_text");
    r.push("article_site"); r.push("enriched_at"); r.push("folder_ids"); r.push("folder_names");
    r
}

/// The first forbidden column name (from `i`).
pub open spec fn first_forbidden_column(columns: Seq<Seq<char>>, i: int) -> Option<int>
    decreases columns.len() - i,
{
    if i < 0 || i >= columns.len() {
        None
    } else if is_forbidden_name(columns[i]) {
        Some(i)
    } else {
        first_forbidden_column(columns, i + 1)
    }
}

/// What the schema check gives: the schema version must be `6`; a
/// credential-shaped column is refused by name; the columns must be exactly the
/// pinned ones.
pub open spec fn sqlite_schema_outcome(r: Result<(), LegacyTransitionError>, version: Seq<char>, columns: Seq<String>) -> bool {
    if version != "6"@ {
        r == Err::<(), LegacyTransitionError>(LegacyTransitionError::UnsupportedSourceVersion)
    } else {
        match first_forbidden_column(string_views(columns), 0) {
            Some(i) => r == Err::<(), LegacyTransitionError>(LegacyTransitionError::ForbiddenField { field: columns[i] }),
            None => if string_views(columns) == sqlite_columns() {
                r == Ok::<(), LegacyTransitionError>(())
            } else {
                r == Err::<(), LegacyTransitionError>(LegacyTransitionError::UnsupportedSqliteSchema)
            },
        }
    }
}

/// Checks the index's schema version alone: it must be `6`.
pub fn check_sqlite_version(schema_version: &str) -> (r: Result<(), LegacyTransitionError>)
    ensures
        schema_version@ == "6"@ ==> r == Ok::<(), LegacyTransitionError>(()),
        schema_version@ != "6"@ ==> r == Err::<(), LegacyTransitionError>(LegacyTransitionError::UnsupportedSourceVersion),
{
    if str_eq(schema_version, "6") {
        Ok(())
    } else {
        Err(LegacyTransitionError::UnsupportedSourceVersion)
    }
}

/// Checks the index's schema version and `bookmarks` columns.
pub fn check_sqlite_schema(schema_version: &str, columns: &Vec<String>) -> (r: Result<(), LegacyTransitionError>)
    ensures
        sqlite_schema_outcome(r, schema_version@, columns@),
{
    if !str_eq(schema_version, "6") {
        return Err(LegacyTransitionError::UnsupportedSourceVersion);
    }
    let ghost cols = string_views(columns@);
    let mut i: usize = 0;
    while i < columns.len()
        invariant
            i <= columns.len(),
            schema_version@ == "6"@,
            cols == string_views(columns@),
            first_forbidden_column(cols, 0) == first_forbidden_column(cols, i as int),
        decreases columns.len() - i,
    {
        if forbidden_field_name(columns[i].as_str()) {
            return Err(LegacyTransitionError::ForbiddenField { field: columns[i].clone() });
        }
        i += 1;
    }
    let expected = sqlite_columns_exec();
    assert(first_forbidden_column(string_views(columns@), 0) is None);
    if columns.len() != expected.len() {
        return Err(LegacyTransitionError::UnsupportedSqliteSchema);
    }
    let mut j: usize = 0;
    while j < columns.len()
        invariant
            j <= columns.len(),
            schema_version@ == "6"@,
            first_forbidden_column(string_views(columns@), 0) is None,
            columns.len() == expected.len(),
            expected@.len() == sqlite_columns().len(),
            forall|k: int| 0 <= k < expected@.len() ==> #[trigger] expected@[k]@ == sqlite_columns()[k],
            forall|k: int| 0 <= k < j ==> #[trigger] string_views(columns@)[k] == sqlite_columns()[k],
        decreases columns.len() - j,
    {
        if !str_eq(columns[j].as_str(), expected[j]) {
            assert(string_views(columns@)[j as int] != sqlite_columns()[j as int]);
            return Err(LegacyTransitionError::UnsupportedSqliteSchema);
        }
        j += 1;
    }
    assert(string_views(columns@) =~= sqlite_columns());
    Ok(())
}

// ---------------------------------------------------------------------------
// Legacy lists.
// ---------------------------------------------------------------------------

/// What `serde_json::from_str::<Vec<String>>` reads from a text.
pub uninterp spec fn json_string_list(text: Seq<char>) -> Option<Seq<Seq<char>>>;

/// `serde_json::from_str::<Vec<String>>`: a JSON array of strings; the
/// contract names the outcome and leaves the JSON grammar to `serde_json`.
#[verifier::external_body]
fn parse_json_string_list(text: &str) -> (r: Option<Vec<String>>)
    ensures
        match r {
            Some(v) => json_string_list(text@) == Some(string_views(v@)),
            None => json_string_list(text@) is None,
        },
{
    serde_json::from_str::<Vec<String>>(text).ok()
}

/// `str::trim_start`.
pub open spec fn trim_start(s: Seq<char>) -> Seq<char>
    decreases s.len(),
{
    if s.len() > 0 && is_unicode_whitespace(s[0]) { trim_start(s.drop_first()) } else { s }
}

/// `str::trim_end`.
pub open spec fn trim_end(s: Seq<char>) -> Seq<char>
    decreases s.len(),
{
    if s.len() > 0 && is_unicode_whitespace(s.last()) { trim_end(s.drop_last()) } else { s }
}

/// `str::trim`.
pub open spec fn trim(s: Seq<char>) -> Seq<char> {
    trim_end(trim_start(s))
}

/// The nonempty texts, in order.
pub open spec fn nonempty_items(items: Seq<Seq<char>>) -> Seq<Seq<char>>
    decreases items.len(),
{
    if items.len() == 0 {
        Seq::empty()
    } else if items.last().len() == 0 {
        nonempty_items(items.drop_last())
    } else {
        nonempty_items(items.drop_last()).push(items.last())
    }
}

/// The trimmed pieces of a comma-separated text.
pub open spec fn trimmed(items: Seq<Seq<char>>) -> Seq<Seq<char>> {
    Seq::new(items.len(), |i: int| trim(items[i]))
}

/// A legacy list column: empty when absent or empty; a JSON array of strings
/// when it starts (after whitespace) with `[`; else comma separated, each
/// item trimmed. Empty items are dropped either way.
pub open spec fn legacy_list(value: Option<Seq<char>>) -> Result<Seq<Seq<char>>, LegacyTransitionError> {
    match value {
        None => Ok(Seq::empty()),
        Some(v) => if v.len() == 0 {
            Ok(Seq::empty())
        } else if trim_start(v).len() > 0 && trim_start(v)[0] == '[' {
            match json_string_list(v) {
                Some(items) => Ok(nonempty_items(items)),
                None => Err(LegacyTransitionError::InvalidEncoding),
            }
        } else {
            Ok(nonempty_items(trimmed(split_on(v, ','))))
        },
    }
}

fn trim_exec(s: &Vec<char>) -> (r: Vec<char>)
    ensures
        r@ == trim(s@),
{
    let mut start: usize = 0;
    assert(s@.skip(0) =~= s@);
    while start < s.len() && unicode_whitespace(s[start])
        invariant
            start <= s.len(),
            trim_start(s@) == trim_start(s@.skip(start as int)),
        decreases s.len() - start,
    {
        assert(s@.skip(start as int).drop_first() =~= s@.skip(start + 1));
        start += 1;
    }
    let mut end: usize = s.len();
    let ghost rest = s@.skip(start as int);
    assert(trim_start(rest) == rest);
    while end > start && unicode_whitespace(s[end - 1])
        invariant
            start <= end <= s.len(),
            rest == s@.skip(start as int),
            trim_end(rest) == trim_end(s@.subrange(start as int, end as int)),
        decreases end,
    {
        assert(s@.subrange(start as int, end as int).drop_last() =~= s@.subrange(start as int, end - 1));
        end -= 1;
    }
    proof {
        assert(trim_start(s@) == rest);
    }
    slice_chars(s, start, end)
}

fn nonempty_push(out: &mut Vec<String>, item: Vec<char>, Ghost(done): Ghost<Seq<Seq<char>>>)
    requires
        string_views(old(out)@) == nonempty_items(done),
    ensures
        string_views(final(out)@) == nonempty_items(done.push(item@)),
{
    assert(done.push(item@).drop_last() =~= done);
    if item.len() > 0 {
        let ghost before = string_views(out@);
        out.push(string_of(&item));
        assert(string_views(out@) =~= before.push(item@));
    }
}

/// Reads a legacy list column.
pub fn parse_legacy_list(value: Option<&str>) -> (r: Result<Vec<String>, LegacyTransitionError>)
    ensures
        match legacy_list(match value { Some(v) => Some(v@), None => None }) {
            Ok(items) => r matches Ok(v) && string_views(v@) == items,
            Err(e) => r == Err::<Vec<String>, LegacyTransitionError>(e),
        },
{
    let mut out: Vec<String> = Vec::new();
    proof {
        assert(string_views(out@) =~= Seq::<Seq<char>>::empty());
    }
    let v = match value {
        None => return Ok(out),
        Some(v) => v,
    };
    if v.is_empty() {
        return Ok(out);
    }
    let chars = chars_of(v);
    let mut k: usize = 0;
    assert(chars@.skip(0) =~= chars@);
    while k < chars.len() && unicode_whitespace(chars[k])
        invariant
            k <= chars.len(),
            chars@ == v@,
            trim_start(chars@) == trim_start(chars@.skip(k as int)),
        decreases chars.len() - k,
    {
        assert(chars@.skip(k as int).drop_first() =~= chars@.skip(k + 1));
        k += 1;
    }
    if k < chars.len() && chars[k] == '[' {
        assert(trim_start(chars@.skip(k as int)) == chars@.skip(k as int));
        let items = match parse_json_string_list(v) {
            Some(items) => items,
            None => return Err(LegacyTransitionError::InvalidEncoding),
        };
        let mut i: usize = 0;
        while i < items.len()
            invariant
                i <= items.len(),
                string_views(out@) == nonempty_items(string_views(items@).take(i as int)),
            decreases items.len() - i,
        {
            let item = chars_of(items[i].as_str());
            proof {
                assert(string_views(items@).take(i + 1) =~= string_views(items@).take(i as int).push(item@));
            }
            nonempty_push(&mut out, item, Ghost(string_views(items@).take(i as int)));
            i += 1;
        }
        assert(string_views(items@).take(items.len() as int) =~= string_views(items@));
        return Ok(out);
    }
    proof {
        if k < chars.len() {
            assert(trim_start(chars@.skip(k as int)) == chars@.skip(k as int));
        } else {
            assert(chars@.skip(k as int).len() == 0);
        }
    }
    let pieces = split_on_exec(&chars, ',');
    let ghost t = trimmed(split_on(v@, ','));
    let mut i: usize = 0;
    while i < pieces.len()
        invariant
            i <= pieces.len(),
            views(pieces@) == split_on(v@, ','),
            t == trimmed(split_on(v@, ',')),
            string_views(out@) == nonempty_items(t.take(i as int)),
        decreases pieces.len() - i,
    {
        let item = trim_exec(&pieces[i]);
        proof {
            assert(t.take(i + 1) =~= t.take(i as int).push(item@));
        }
        nonempty_push(&mut out, item, Ghost(t.take(i as int)));
        i += 1;
    }
    assert(t.take(pieces.len() as int) =~= t);
    Ok(out)
}

/// Categories from the `categories` list column and the `primary_category` column, sorted and deduplicated.
pub open spec fn merged_lists(categories: Option<Seq<char>>, primary: Option<Seq<char>>) -> Result<Seq<Seq<char>>, LegacyTransitionError> {
    match legacy_list(categories) {
        Err(e) => Err(e),
        Ok(items) => match primary {
            Some(p) => if p.len() > 0 { Ok(sort_unique(items.push(p))) } else { Ok(sort_unique(items)) },
            None => Ok(sort_unique(items)),
        },
    }
}

/// Merges the category list with the primary category.
pub fn merge_legacy_lists(categories: Option<&str>, primary: Option<&str>) -> (r: Result<Vec<String>, LegacyTransitionError>)
    ensures
        match merged_lists(match categories { Some(v) => Some(v@), None => None }, match primary { Some(v) => Some(v@), None => None }) {
            Ok(items) => r matches Ok(v) && string_views(v@) == items,
            Err(e) => r == Err::<Vec<String>, LegacyTransitionError>(e),
        },
{
    let mut values = parse_legacy_list(categories)?;
    if let Some(p) = primary {
        if !p.is_empty() {
            let ghost before = string_views(values@);
            values.push(p.to_string());
            assert(string_views(values@) =~= before.push(p@));
        }
    }
    Ok(sort_unique_strings(values))
}

// ---------------------------------------------------------------------------
// Rows.
// ---------------------------------------------------------------------------

/// One column value as a row holds it.
#[derive(Debug, Clone, PartialEq, Eq)]
pub enum SqliteText {
    /// A text value.
    Text(String),
    /// SQL `NULL`.
    Null,
    /// A value that does not decode as text.
    Other,
}

/// The columns of one `bookmarks` row the importer reads.
pub struct SqliteBookmarkRow {
    pub id: SqliteText,
    pub tweet_id: SqliteText,
    pub url: SqliteText,
    pub text: SqliteText,
    pub posted_at: SqliteText,
    pub bookmarked_at: SqliteText,
    pub synced_at: SqliteText,
    pub categories: SqliteText,
    pub primary_category: SqliteText,
    pub folder_ids: SqliteText,
    pub folder_names: SqliteText,
}

/// A required text column.
pub open spec fn column_text(c: SqliteText, field: &'static str) -> Result<Seq<char>, LegacyTransitionError> {
    match c {
        SqliteText::Text(s) => Ok(s@),
        _ => Err(LegacyTransitionError::InvalidField { field }),
    }
}

/// A nullable text column.
pub open spec fn column_optional(c: SqliteText, field: &'static str) -> Result<Option<Seq<char>>, LegacyTransitionError> {
    match c {
        SqliteText::Text(s) => Ok(Some(s@)),
        SqliteText::Null => Ok(None),
        SqliteText::Other => Err(LegacyTransitionError::InvalidField { field }),
    }
}

fn column_text_exec(c: &SqliteText, field: &'static str) -> (r: Result<String, LegacyTransitionError>)
    ensures
        match column_text(*c, field) {
            Ok(s) => r matches Ok(x) && x@ == s,
            Err(e) => r == Err::<String, LegacyTransitionError>(e),
        },
{
    match c {
        SqliteText::Text(s) => Ok(s.clone()),
        _ => Err(LegacyTransitionError::InvalidField { field }),
    }
}

fn column_optional_exec(c: &SqliteText, field: &'static str) -> (r: Result<Option<String>, LegacyTransitionError>)
    ensures
        match column_optional(*c, field) {
            Ok(o) => r matches Ok(x) && opt_str(x) == o,
            Err(e) => r == Err::<Option<String>, LegacyTransitionError>(e),
        },
{
    match c {
        SqliteText::Text(s) => Ok(Some(s.clone())),
        SqliteText::Null => Ok(None),
        SqliteText::Other => Err(LegacyTransitionError::InvalidField { field }),
    }
}

pub open spec fn opt_text(o: Option<Seq<char>>) -> Seq<char> {
    match o {
        Some(s) => s,
        None => Seq::empty(),
    }
}

/// The values a row supplies, read in the reader's order; the first failing
/// read decides the error.
pub open spec fn sqlite_view(row: SqliteBookmarkRow, max_text: usize) -> Result<RecordView, LegacyTransitionError> {
    match (column_text(row.id, "id"), column_text(row.tweet_id, "tweet_id"), column_text(row.url, "url"), column_text(row.text, "text")) {
        (Err(e), _, _, _) => Err(e),
        (Ok(_), Err(e), _, _) => Err(e),
        (Ok(_), Ok(_), Err(e), _) => Err(e),
        (Ok(_), Ok(_), Ok(_), Err(e)) => Err(e),
        (Ok(key), Ok(tweet), Ok(url), Ok(text)) => if encode_utf8(text).len() > max_text {
            Err(LegacyTransitionError::TextLimitExceeded { field: "text" })
        } else {
            match (column_optional(row.posted_at, "posted_at"), column_optional(row.bookmarked_at, "bookmarked_at"), column_text(row.synced_at, "synced_at")) {
                (Err(e), _, _) => Err(e),
                (Ok(_), Err(e), _) => Err(e),
                (Ok(_), Ok(_), Err(e)) => Err(e),
                (Ok(posted), Ok(bookmarked), Ok(synced)) => match (column_optional(row.categories, "categories"), column_optional(row.primary_category, "primary_category")) {
                    (Err(e), _) => Err(e),
                    (Ok(_), Err(e)) => Err(e),
                    (Ok(cats), Ok(primary)) => match merged_lists(cats, primary) {
                        Err(e) => Err(e),
                        Ok(categories) => match column_optional(row.folder_ids, "folder_ids") {
                            Err(e) => Err(e),
                            Ok(ids_text) => match legacy_list(ids_text) {
                                Err(e) => Err(e),
                                Ok(ids) => match column_optional(row.folder_names, "folder_names") {
                                    Err(e) => Err(e),
                                    Ok(names_text) => match legacy_list(names_text) {
                                        Err(e) => Err(e),
                                        Ok(names) => match optional_timestamp(opt_text(posted)) {
                                            None => Err(LegacyTransitionError::InvalidTimestamp { field: "posted_at" }),
                                            Some(p) => match optional_timestamp(opt_text(bookmarked)) {
                                                None => Err(LegacyTransitionError::InvalidTimestamp { field: "bookmarked_at" }),
                                                Some(b) => match optional_timestamp(synced) {
                                                    None => Err(LegacyTransitionError::InvalidTimestamp { field: "synced_at" }),
                                                    Some(None) => Err(LegacyTransitionError::InvalidField { field: "synced_at" }),
                                                    Some(Some(y)) => {
                                                        let status = status_url_identity(url);
                                                        Ok(RecordView {
                                                            key,
                                                            provider: Some(tweet),
                                                            url_provider: status.0,
                                                            url_digest: status.1,
                                                            text,
                                                            posted: p,
                                                            bookmarked: b,
                                                            synced: y,
                                                            categories,
                                                            folder_ids: ids,
                                                            folder_names: names,
                                                        })
                                                    },
                                                },
                                            },
                                        },
                                    },
                                },
                            },
                        },
                    },
                },
            }
        },
    }
}

fn as_opt_str(o: &Option<String>) -> (r: Option<&str>)
    ensures
        match r { Some(s) => Some(s@), None => None } == opt_str(*o),
{
    match o {
        Some(s) => Some(s.as_str()),
        None => None,
    }
}

/// Reads one index row into a record.
pub fn sqlite_record(row: &SqliteBookmarkRow, max_text_bytes: usize) -> (r: Result<LegacyRecord, LegacyTransitionError>)
    ensures
        match sqlite_view(*row, max_text_bytes) {
            Err(e) => r == Err::<LegacyRecord, LegacyTransitionError>(e),
            Ok(view) => record_outcome(r, view),
        },
{
    let source_record_key = column_text_exec(&row.id, "id")?;
    let tweet_id = column_text_exec(&row.tweet_id, "tweet_id")?;
    let url = column_text_exec(&row.url, "url")?;
    let text = column_text_exec(&row.text, "text")?;
    validate_text("text", text.as_str(), max_text_bytes)?;
    let posted_at = column_optional_exec(&row.posted_at, "posted_at")?;
    let bookmarked_at = column_optional_exec(&row.bookmarked_at, "bookmarked_at")?;
    let synced_at = column_text_exec(&row.synced_at, "synced_at")?;
    let categories_text = column_optional_exec(&row.categories, "categories")?;
    let primary = column_optional_exec(&row.primary_category, "primary_category")?;
    let categories = merge_legacy_lists(as_opt_str(&categories_text), as_opt_str(&primary))?;
    let ids_text = column_optional_exec(&row.folder_ids, "folder_ids")?;
    let folder_ids = parse_legacy_list(as_opt_str(&ids_text))?;
    let names_text = column_optional_exec(&row.folder_names, "folder_names")?;
    let folder_names = parse_legacy_list(as_opt_str(&names_text))?;
    let (url_provider_post_id, canonical_url_digest) = parse_x_status_url(url.as_str());
    let posted = match &posted_at {
        Some(p) => parse_optional_timestamp("posted_at", p.as_str())?,
        None => None,
    };
    let bookmarked = match &bookmarked_at {
        Some(b) => parse_optional_timestamp("bookmarked_at", b.as_str())?,
        None => None,
    };
    let synced = parse_required_timestamp("synced_at", synced_at.as_str())?;
    let fields = RecordFields {
        source_record_key,
        provider_post_id: Some(tweet_id),
        url_provider_post_id,
        canonical_url_digest,
        text,
        posted_at: posted,
        bookmarked_at: bookmarked,
        synced_at: synced,
        categories,
        folder_ids,
        folder_names,
    };
    proof {
        let view = sqlite_view(*row, max_text_bytes)->Ok_0;
        assert(fields_view(fields) == view);
    }
    build_record(fields)
}

/// Every row reads into the record at the same position.
pub open spec fn sqlite_rows_ok(rows: Seq<SqliteBookmarkRow>, max_text: usize, recs: Seq<LegacyRecord>) -> bool {
    &&& recs.len() == rows.len()
    &&& forall|i: int| 0 <= i < rows.len() ==> (#[trigger] sqlite_view(rows[i], max_text) matches Ok(view) && record_outcome(Ok(recs[i]), view))
}

/// How the row at `k` fails to read.
pub open spec fn sqlite_row_fails(row: SqliteBookmarkRow, max_text: usize, e: LegacyTransitionError) -> bool {
    match sqlite_view(row, max_text) {
        Err(x) => e == x,
        Ok(view) => record_outcome(Err(e), view),
    }
}

/// What reading the fetched rows gives: more than `max_rows` is refused; the
/// rows then read in order, the first failing row deciding the error.
pub open spec fn sqlite_records_outcome(r: Result<Vec<LegacyRecord>, LegacyTransitionError>, rows: Seq<SqliteBookmarkRow>, limits: SourceLimits) -> bool {
    if rows.len() > limits.max_rows {
        r == Err::<Vec<LegacyRecord>, LegacyTransitionError>(LegacyTransitionError::RowLimitExceeded)
    } else {
        ||| r matches Ok(recs) && sqlite_rows_ok(rows, limits.max_text_bytes, recs@)
        ||| exists|k: int, recs: Seq<LegacyRecord>, e: LegacyTransitionError|
            0 <= k < rows.len() && #[trigger] sqlite_rows_ok(rows.take(k), limits.max_text_bytes, recs)
                && #[trigger] sqlite_row_fails(rows[k], limits.max_text_bytes, e) && r == Err::<Vec<LegacyRecord>, LegacyTransitionError>(e)
    }
}

/// Reads the rows fetched from the index (at most `max_rows + 1` of them).
pub fn sqlite_records(rows: &Vec<SqliteBookmarkRow>, limits: SourceLimits) -> (r: Result<Vec<LegacyRecord>, LegacyTransitionError>)
    ensures
        sqlite_records_outcome(r, rows@, limits),
{
    if rows.len() > limits.max_rows {
        return Err(LegacyTransitionError::RowLimitExceeded);
    }
    let mut records: Vec<LegacyRecord> = Vec::new();
    let mut i: usize = 0;
    proof {
        assert(rows@.take(0) =~= Seq::<SqliteBookmarkRow>::empty());
    }
    while i < rows.len()
        invariant
            i <= rows.len(),
            rows.len() <= limits.max_rows,
            sqlite_rows_ok(rows@.take(i as int), limits.max_text_bytes, records@),
        decreases rows.len() - i,
    {
        match sqlite_record(&rows[i], limits.max_text_bytes) {
            Ok(record) => {
                let ghost before = records@;
                records.push(record);
                proof {
                    assert(rows@.take(i + 1) =~= rows@.take(i as int).push(rows@[i as int]));
                    assert forall|j: int| 0 <= j < rows@.take(i + 1).len() implies (#[trigger] sqlite_view(rows@.take(i + 1)[j], limits.max_text_bytes) matches Ok(view) && record_outcome(Ok(records@[j]), view)) by {
                        if j < i {
                            assert(rows@.take(i + 1)[j] == rows@.take(i as int)[j]);
                            assert(records@[j] == before[j]);
                        }
                    }
                }
            },
            Err(e) => {
                proof {
                    assert(sqlite_row_fails(rows@[i as int], limits.max_text_bytes, e));
                }
                return Err(e);
            },
        }
        i += 1;
    }
    proof {
        assert(rows@.take(rows.len() as int) =~= rows@);
    }
    Ok(records)
}

fn bytes_equal(a: &[u8], b: &[u8]) -> (r: bool)
    ensures
        r == (a@ == b@),
{
    if a.len() != b.len() {
        return false;
    }
    let mut i: usize = 0;
    while i < a.len()
        invariant
            i <= a.len(),
            a@.len() == b@.len(),
            forall|j: int| 0 <= j < i ==> a@[j] == b@[j],
        decreases a.len() - i,
    {
        if a[i] != b[i] {
            return false;
        }
        i += 1;
    }
    assert(a@ =~= b@);
    true
}

/// Finishes an index preflight: the artifact must read the same after the rows
/// were read as before; the batch digest is that of the bytes read first.
pub fn finish_sqlite_batch(before: &[u8], after: &[u8], records: Vec<LegacyRecord>) -> (r: Result<PreflightBatch, LegacyTransitionError>)
    ensures
        before@ != after@ ==> r == Err::<PreflightBatch, LegacyTransitionError>(LegacyTransitionError::SourceChanged),
        before@ == after@ ==> batch_outcome(r, LegacySourceKind::FieldTheorySqlite, LegacySourceVersion::FieldTheorySqlite6,
            sha256_hex_of(before@), records@),
{
    let source_digest = sha256_hex(before);
    if !bytes_equal(before, after) {
        return Err(LegacyTransitionError::SourceChanged);
    }
    finish_batch(LegacySourceKind::FieldTheorySqlite, LegacySourceVersion::FieldTheorySqlite6, source_digest, records)
}

} // verus!
