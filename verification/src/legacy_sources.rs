//! Reading each legacy source family into validated records.

use vstd::prelude::*;
use vstd::utf8::{encode_utf8, valid_utf8, decode_utf8};
use crate::digest::{sha256_hex, sha256_hex_of, sha256_text};
use crate::json::{str_eq, string_views};
use crate::legacy::{
    LegacyRecord, LegacySourceKind, LegacySourceVersion, LegacyTransitionError, PreflightBatch,
    RecordFields, RecordView, SourceLimits, build_record, finish_batch, validate_text, opt_str,
    fields_view, record_outcome, batch_outcome,
};
use crate::legacy_csv::{parse_csv, csv_rows, rows_view};
use crate::text::{chars_of, chars_eq_str, digit, is_digit, lower_seq, lower_vec, string_of};
use crate::time::{Timestamp, parse_rfc3339, rfc3339_instant};

verus! {

// ---------------------------------------------------------------------------
// Status URLs.
// ---------------------------------------------------------------------------

/// What `Url::parse` reads from a text: its host, its path segments (for
/// URLs that have a path), and the URL written back without query or fragment.
pub uninterp spec fn url_parts(text: Seq<char>) -> Option<(Option<Seq<char>>, Option<Seq<Seq<char>>>, Seq<char>)>;

/// The parts of a parsed URL that a status link is read from.
pub struct UrlParts {
    pub host: Option<String>,
    pub segments: Option<Vec<String>>,
    pub bare: String,
}

pub open spec fn opt_segments(o: Option<Vec<String>>) -> Option<Seq<Seq<char>>> {
    match o {
        Some(v) => Some(string_views(v@)),
        None => None,
    }
}

/// `Url::parse`, then `host_str`, `path_segments`, and the URL's text after
/// `set_fragment(None)` and `set_query(None)`. The contract names the outcome;
/// the WHATWG parsing rules the `url` crate applies are not restated here.
#[verifier::external_body]
fn parse_url_parts(text: &str) -> (r: Option<UrlParts>)
    ensures
        match r {
            Some(p) => url_parts(text@) == Some((opt_str(p.host), opt_segments(p.segments), p.bare@)),
            None => url_parts(text@) is None,
        },
{
    let mut url = reqwest::Url::parse(text).ok()?;
    let host = url.host_str().map(str::to_owned);
    let segments = url.path_segments().map(|parts| parts.map(str::to_owned).collect());
    url.set_fragment(None);
    url.set_query(None);
    Some(UrlParts { host, segments, bare: url.as_str().to_owned() })
}

/// The hosts whose status links carry a provider post identity.
pub open spec fn is_status_host(h: Seq<char>) -> bool {
    h == "x.com"@ || h == "www.x.com"@ || h == "twitter.com"@ || h == "www.twitter.com"@
}

/// The first position at or after `i` holding the segment `status`.
pub open spec fn status_index_from(segs: Seq<Seq<char>>, i: int) -> Option<int>
    decreases segs.len() - i,
{
    if i < 0 || i >= segs.len() {
        None
    } else if segs[i] == "status"@ {
        Some(i)
    } else {
        status_index_from(segs, i + 1)
    }
}

pub open spec fn all_digits(s: Seq<char>) -> bool {
    forall|i: int| 0 <= i < s.len() ==> is_digit(#[trigger] s[i])
}

/// The provider post identity of an X status URL (the segment after the first
/// `status`, nonempty and all digits) and the SHA-256 of the URL without query
/// and fragment; neither when the text is not such a URL.
pub open spec fn status_url_identity(text: Seq<char>) -> (Option<Seq<char>>, Option<Seq<char>>) {
    match url_parts(text) {
        Some((Some(host), segs, bare)) => {
            let segments = match segs { Some(s) => s, None => Seq::empty() };
            if !is_status_host(lower_seq(host)) {
                (None, None)
            } else {
                match status_index_from(segments, 0) {
                    Some(p) => if p + 1 < segments.len() && segments[p + 1].len() > 0 && all_digits(segments[p + 1]) {
                        (Some(segments[p + 1]), Some(sha256_hex_of(encode_utf8(bare))))
                    } else {
                        (None, None)
                    },
                    None => (None, None),
                }
            }
        },
        _ => (None, None),
    }
}

fn all_digits_exec(s: &str) -> (r: bool)
    ensures
        r == (s@.len() > 0 && all_digits(s@)),
{
    let chars = chars_of(s);
    if chars.len() == 0 {
        return false;
    }
    let mut i: usize = 0;
    while i < chars.len()
        invariant
            i <= chars.len(),
            chars@ == s@,
            forall|j: int| 0 <= j < i ==> is_digit(#[trigger] chars@[j]),
        decreases chars.len() - i,
    {
        if !digit(chars[i]) {
            return false;
        }
        i += 1;
    }
    true
}

/// Reads the provider post identity and canonical URL digest of an X status URL.
pub fn parse_x_status_url(value: &str) -> (r: (Option<String>, Option<String>))
    ensures
        (opt_str(r.0), opt_str(r.1)) == status_url_identity(value@),
{
    let parts = match parse_url_parts(value) {
        Some(p) => p,
        None => return (None, None),
    };
    let host = match &parts.host {
        Some(h) => h,
        None => return (None, None),
    };
    let lowered = lower_vec(&chars_of(host.as_str()));
    if !(chars_eq_str(&lowered, "x.com") || chars_eq_str(&lowered, "www.x.com")
        || chars_eq_str(&lowered, "twitter.com") || chars_eq_str(&lowered, "www.twitter.com")) {
        return (None, None);
    }
    let empty: Vec<String> = Vec::new();
    let segments = match &parts.segments {
        Some(s) => s,
        None => &empty,
    };
    proof {
        assert(string_views(empty@) =~= Seq::<Seq<char>>::empty());
    }
    let ghost segs = string_views(segments@);
    let mut p: usize = 0;
    while p < segments.len() && !str_eq(segments[p].as_str(), "status")
        invariant
            p <= segments.len(),
            segs == string_views(segments@),
            status_index_from(segs, 0) == status_index_from(segs, p as int),
        decreases segments.len() - p,
    {
        p += 1;
    }
    if p >= segments.len() {
        return (None, None);
    }
    if p + 1 >= segments.len() {
        return (None, None);
    }
    let candidate = &segments[p + 1];
    if !all_digits_exec(candidate.as_str()) {
        return (None, None);
    }
    let digest = sha256_text(parts.bare.as_str());
    (Some(candidate.clone()), Some(digest))
}

// ---------------------------------------------------------------------------
// Field-level readers shared by the sources.
// ---------------------------------------------------------------------------

/// An empty text reads as absent.
pub fn nonempty(value: &str) -> (r: Option<String>)
    ensures
        opt_str(r) == if value@.len() == 0 { None } else { Some(value@) },
{
    if value.is_empty() { None } else { Some(value.to_string()) }
}

/// An empty text is absent; any other must be an RFC 3339 timestamp.
pub open spec fn optional_timestamp(value: Seq<char>) -> Option<Option<Timestamp>> {
    if value.len() == 0 {
        Some(None)
    } else {
        match rfc3339_instant(value) {
            Some(t) => Some(Some(t)),
            None => None,
        }
    }
}

/// Reads an optional RFC 3339 timestamp; a malformed one is `InvalidTimestamp`.
pub fn parse_optional_timestamp(field: &'static str, value: &str) -> (r: Result<Option<Timestamp>, LegacyTransitionError>)
    ensures
        match optional_timestamp(value@) {
            Some(t) => r == Ok::<Option<Timestamp>, LegacyTransitionError>(t),
            None => r == Err::<Option<Timestamp>, LegacyTransitionError>(LegacyTransitionError::InvalidTimestamp { field }),
        },
{
    if value.is_empty() {
        return Ok(None);
    }
    match parse_rfc3339(value) {
        Some(t) => Ok(Some(t)),
        None => Err(LegacyTransitionError::InvalidTimestamp { field }),
    }
}

/// Reads a required RFC 3339 timestamp; an empty one is `InvalidField`.
pub fn parse_required_timestamp(field: &'static str, value: &str) -> (r: Result<Timestamp, LegacyTransitionError>)
    ensures
        match optional_timestamp(value@) {
            Some(Some(t)) => r == Ok::<Timestamp, LegacyTransitionError>(t),
            Some(None) => r == Err::<Timestamp, LegacyTransitionError>(LegacyTransitionError::InvalidField { field }),
            None => r == Err::<Timestamp, LegacyTransitionError>(LegacyTransitionError::InvalidTimestamp { field }),
        },
{
    match parse_optional_timestamp(field, value) {
        Ok(Some(t)) => Ok(t),
        Ok(None) => Err(LegacyTransitionError::InvalidField { field }),
        Err(e) => Err(e),
    }
}

// ---------------------------------------------------------------------------
// Bytes.
// ---------------------------------------------------------------------------

/// `std::str::from_utf8`: the text the bytes encode, when they are valid UTF-8.
#[verifier::external_body]
pub(crate) fn utf8_text(bytes: &[u8]) -> (r: Option<&str>)
    ensures
        r is Some <==> valid_utf8(bytes@),
        r matches Some(t) ==> t@ == decode_utf8(bytes@),
{
    std::str::from_utf8(bytes).ok()
}

// ---------------------------------------------------------------------------
// The monolith CSV export.
// ---------------------------------------------------------------------------

/// The nine columns of the monolith export, in order.
pub open spec fn monolith_headers() -> Seq<Seq<char>> {
    seq![
        "request_id"@,
        "bookmark_external_id"@,
        "x_category"@,
        "tweet_text"@,
        "tweet_text_tsv"@,
        "tweet_author"@,
        "tweet_url"@,
        "posted_at"@,
        "synced_at"@,
    ]
}

fn is_monolith_header(row: &Vec<String>) -> (r: bool)
    ensures
        r == (string_views(row@) == monolith_headers()),
{
    if row.len() != 9 {
        proof {
            assert(string_views(row@).len() != monolith_headers().len());
        }
        return false;
    }
    let r = str_eq(row[0].as_str(), "request_id") && str_eq(row[1].as_str(), "bookmark_external_id")
        && str_eq(row[2].as_str(), "x_category") && str_eq(row[3].as_str(), "tweet_text")
        && str_eq(row[4].as_str(), "tweet_text_tsv") && str_eq(row[5].as_str(), "tweet_author")
        && str_eq(row[6].as_str(), "tweet_url") && str_eq(row[7].as_str(), "posted_at")
        && str_eq(row[8].as_str(), "synced_at");
    proof {
        if r {
            assert(string_views(row@) =~= monolith_headers());
        } else {
            if string_views(row@) == monolith_headers() {
                assert(string_views(row@)[0] == monolith_headers()[0]);
                assert(string_views(row@)[1] == monolith_headers()[1]);
                assert(string_views(row@)[2] == monolith_headers()[2]);
                assert(string_views(row@)[3] == monolith_headers()[3]);
                assert(string_views(row@)[4] == monolith_headers()[4]);
                assert(string_views(row@)[5] == monolith_headers()[5]);
                assert(string_views(row@)[6] == monolith_headers()[6]);
                assert(string_views(row@)[7] == monolith_headers()[7]);
                assert(string_views(row@)[8] == monolith_headers()[8]);
            }
        }
    }
    r
}

/// The values a monolith data row supplies, given its instants.
pub open spec fn monolith_view(row: Seq<Seq<char>>, posted: Option<Timestamp>, synced: Timestamp) -> RecordView {
    let status = status_url_identity(row[6]);
    RecordView {
        key: row[0],
        provider: if row[1].len() == 0 { None } else { Some(row[1]) },
        url_provider: status.0,
        url_digest: status.1,
        text: row[3],
        posted,
        bookmarked: None,
        synced,
        categories: if row[2].len() == 0 { Seq::empty() } else { seq![row[2]] },
        folder_ids: Seq::empty(),
        folder_names: Seq::empty(),
    }
}

/// What reading one monolith data row gives.
pub open spec fn monolith_row_outcome(r: Result<LegacyRecord, LegacyTransitionError>, row: Seq<Seq<char>>, max_text: usize) -> bool {
    if row.len() != 9 {
        r == Err::<LegacyRecord, LegacyTransitionError>(LegacyTransitionError::InvalidEncoding)
    } else if encode_utf8(row[3]).len() > max_text {
        r == Err::<LegacyRecord, LegacyTransitionError>(LegacyTransitionError::TextLimitExceeded { field: "tweet_text" })
    } else {
        match (optional_timestamp(row[7]), optional_timestamp(row[8])) {
            (None, _) => r == Err::<LegacyRecord, LegacyTransitionError>(LegacyTransitionError::InvalidTimestamp { field: "posted_at" }),
            (Some(_), None) => r == Err::<LegacyRecord, LegacyTransitionError>(LegacyTransitionError::InvalidTimestamp { field: "synced_at" }),
            (Some(_), Some(None)) => r == Err::<LegacyRecord, LegacyTransitionError>(LegacyTransitionError::InvalidField { field: "synced_at" }),
            (Some(posted), Some(Some(synced))) => record_outcome(r, monolith_view(row, posted, synced)),
        }
    }
}

/// Reads one monolith data row.
pub fn monolith_record(row: Vec<String>, max_text_bytes: usize) -> (r: Result<LegacyRecord, LegacyTransitionError>)
    ensures
        monolith_row_outcome(r, string_views(row@), max_text_bytes),
{
    if row.len() != 9 {
        return Err(LegacyTransitionError::InvalidEncoding);
    }
    let request_id = row[0].clone();
    let bookmark_external_id = &row[1];
    let category = &row[2];
    let tweet_text = row[3].clone();
    let tweet_url = &row[6];
    validate_text("tweet_text", tweet_text.as_str(), max_text_bytes)?;
    let provider_post_id = nonempty(bookmark_external_id.as_str());
    let (url_provider_post_id, canonical_url_digest) = parse_x_status_url(tweet_url.as_str());
    let mut categories: Vec<String> = Vec::new();
    if let Some(c) = nonempty(category.as_str()) {
        categories.push(c);
    }
    let posted_at = parse_optional_timestamp("posted_at", row[7].as_str())?;
    let synced_at = parse_required_timestamp("synced_at", row[8].as_str())?;
    let fields = RecordFields {
        source_record_key: request_id,
        provider_post_id,
        url_provider_post_id,
        canonical_url_digest,
        text: tweet_text,
        posted_at,
        bookmarked_at: None,
        synced_at,
        categories,
        folder_ids: Vec::new(),
        folder_names: Vec::new(),
    };
    proof {
        assert(fields_view(fields).categories =~= monolith_view(string_views(row@), posted_at, synced_at).categories);
        assert(fields_view(fields).folder_ids =~= Seq::<Seq<char>>::empty());
        assert(fields_view(fields).folder_names =~= Seq::<Seq<char>>::empty());
        assert(fields_view(fields) == monolith_view(string_views(row@), posted_at, synced_at));
    }
    build_record(fields)
}

/// Every data row reads into the record at the same position.
pub open spec fn monolith_rows_ok(rows: Seq<Seq<Seq<char>>>, max_text: usize, recs: Seq<LegacyRecord>) -> bool {
    &&& recs.len() == rows.len()
    &&& forall|i: int| 0 <= i < rows.len() ==> monolith_row_outcome(Ok(#[trigger] recs[i]), rows[i], max_text)
}

/// The first row that fails to read fails with `e`.
pub open spec fn monolith_rows_fail(rows: Seq<Seq<Seq<char>>>, max_text: usize, e: LegacyTransitionError) -> bool {
    exists|k: int, recs: Seq<LegacyRecord>|
        0 <= k < rows.len() && #[trigger] monolith_rows_ok(rows.take(k), max_text, recs)
            && monolith_row_outcome(Err(e), rows[k], max_text)
}

/// What a monolith preflight gives for the artifact's bytes: the bytes must be
/// UTF-8 CSV whose first row is the nine-column header and which holds at most
/// `max_rows` data rows; the rows then read in order, the first failing row
/// deciding the error, and the records collapse into a batch.
pub open spec fn monolith_outcome(r: Result<PreflightBatch, LegacyTransitionError>, bytes: Seq<u8>, limits: SourceLimits) -> bool {
    if !valid_utf8(bytes) {
        r == Err::<PreflightBatch, LegacyTransitionError>(LegacyTransitionError::InvalidEncoding)
    } else {
        match csv_rows(decode_utf8(bytes)) {
            None => r == Err::<PreflightBatch, LegacyTransitionError>(LegacyTransitionError::InvalidEncoding),
            Some(rows) => if rows.len() == 0 || rows[0] != monolith_headers() {
                r == Err::<PreflightBatch, LegacyTransitionError>(LegacyTransitionError::UnsupportedSourceVersion)
            } else if rows.len() - 1 > limits.max_rows {
                r == Err::<PreflightBatch, LegacyTransitionError>(LegacyTransitionError::RowLimitExceeded)
            } else {
                let data = rows.skip(1);
                ||| exists|recs: Seq<LegacyRecord>| #[trigger] monolith_rows_ok(data, limits.max_text_bytes, recs)
                    && batch_outcome(r, LegacySourceKind::MonolithBookmarkMetadataCsv,
                        LegacySourceVersion::MonolithBookmarkMetadata, sha256_hex_of(bytes), recs)
                ||| exists|e: LegacyTransitionError| monolith_rows_fail(data, limits.max_text_bytes, e)
                    && r == Err::<PreflightBatch, LegacyTransitionError>(e)
            },
        }
    }
}

/// Validates a monolith CSV artifact's bytes into a batch.
pub fn preflight_monolith_csv(bytes: &[u8], limits: SourceLimits) -> (r: Result<PreflightBatch, LegacyTransitionError>)
    ensures
        monolith_outcome(r, bytes@, limits),
{
    let source_digest = sha256_hex(bytes);
    let text = match utf8_text(bytes) {
        Some(t) => t,
        None => return Err(LegacyTransitionError::InvalidEncoding),
    };
    let mut rows = parse_csv(text)?;
    if rows.len() == 0 || !is_monolith_header(&rows[0]) {
        return Err(LegacyTransitionError::UnsupportedSourceVersion);
    }
    let ghost all = rows_view(rows@);
    let _header = rows.remove(0);
    proof {
        assert(rows_view(rows@) =~= all.skip(1));
    }
    if rows.len() > limits.max_rows {
        return Err(LegacyTransitionError::RowLimitExceeded);
    }
    let ghost data = rows_view(rows@);
    let mut records: Vec<LegacyRecord> = Vec::new();
    proof {
        assert(data.take(0) =~= Seq::<Seq<Seq<char>>>::empty());
        assert(monolith_rows_ok(data.take(0), limits.max_text_bytes, records@));
    }
    let ghost vrows = rows@;
    for row in it: rows.into_iter()
        invariant
            valid_utf8(bytes@),
            csv_rows(decode_utf8(bytes@)) == Some(all),
            all.len() > 0,
            all[0] == monolith_headers(),
            data == all.skip(1),
            data.len() <= limits.max_rows,
            it.seq() == vrows,
            data == rows_view(vrows),
            it.index() <= vrows.len(),
            monolith_rows_ok(data.take(it.index() as int), limits.max_text_bytes, records@),
    {
        let ghost k = it.index() as int;
        proof {
            assert(row == vrows[k]);
            assert(string_views(row@) == data[k]);
        }
        let outcome = monolith_record(row, limits.max_text_bytes);
        match outcome {
            Ok(record) => {
                let ghost before = records@;
                records.push(record);
                proof {
                    assert(data.take(k + 1) =~= data.take(k).push(data[k]));
                    assert forall|i: int| 0 <= i < data.take(k + 1).len() implies monolith_row_outcome(Ok(#[trigger] records@[i]), data.take(k + 1)[i], limits.max_text_bytes) by {
                        if i < k {
                            assert(records@[i] == before[i]);
                            assert(data.take(k + 1)[i] == data.take(k)[i]);
                        }
                    }
                }
            },
            Err(e) => {
                proof {
                    assert(data.take(k) =~= data.take(k));
                    assert(monolith_rows_ok(data.take(k), limits.max_text_bytes, records@));
                    assert(monolith_rows_fail(data, limits.max_text_bytes, e));
                }
                return Err(e);
            },
        }
    }
    proof {
        assert(data.take(data.len() as int) =~= data);
    }
    let r = finish_batch(
        LegacySourceKind::MonolithBookmarkMetadataCsv,
        LegacySourceVersion::MonolithBookmarkMetadata,
        source_digest,
        records,
    );
    r
}

} // verus!
