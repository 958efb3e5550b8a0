//! Shadow comparison of imported legacy evidence with a complete official snapshot.

use vstd::prelude::*;
use vstd::utf8::encode_utf8;
use crate::digest::{sha256_hex_of, sha256_text};
use crate::ids::{uuid_text, uuid_string};
use crate::json::{JsonValue, JsonNumber, str_eq, string_literal, string_literal_exec, opt_string_text,
    opt_string_text_exec, member_text, member_text_exec, object_text, object_text_exec, json_get,
    json_get_exec};
use crate::legacy::{LegacyTransitionError, opt_str};
use crate::order::{lex_le, lex_le_exec, sort_unique, sort_unique_chars, views};
use crate::text::{chars_of, chars_eq, string_of, join, join_exec, decimal, decimal_exec,
    signed_decimal, signed_decimal_exec, extend_chars};

verus! {

/// Closed shadow comparison classification.
#[derive(Debug, Clone, Copy, PartialEq, Eq, Structural)]
pub enum ShadowDiffClass {
    /// Stable provider identity appears in both imported and official evidence.
    Matched,
    /// A provider identity parsed from a canonical status URL appears in official evidence.
    UrlMatched,
    /// Stable imported identity is absent from the complete official snapshot.
    LegacyOnly,
    /// Official snapshot identity has no imported counterpart.
    OfficialOnly,
    /// Legacy explicit and URL-derived provider identities disagree.
    IdentityConflict,
    /// Legacy evidence has no stable provider identity.
    Unmapped,
}

/// The position of a class in the report order.
pub open spec fn class_rank(c: ShadowDiffClass) -> nat {
    match c {
        ShadowDiffClass::Matched => 0,
        ShadowDiffClass::UrlMatched => 1,
        ShadowDiffClass::LegacyOnly => 2,
        ShadowDiffClass::OfficialOnly => 3,
        ShadowDiffClass::IdentityConflict => 4,
        ShadowDiffClass::Unmapped => 5,
    }
}

fn class_rank_exec(c: ShadowDiffClass) -> (r: u8)
    ensures
        r == class_rank(c),
{
    match c {
        ShadowDiffClass::Matched => 0,
        ShadowDiffClass::UrlMatched => 1,
        ShadowDiffClass::LegacyOnly => 2,
        ShadowDiffClass::OfficialOnly => 3,
        ShadowDiffClass::IdentityConflict => 4,
        ShadowDiffClass::Unmapped => 5,
    }
}

/// One redacted, deterministic shadow difference entry.
#[derive(Debug, Clone, PartialEq, Eq)]
pub struct ShadowDiff {
    /// Difference classification.
    pub class: ShadowDiffClass,
    /// Provider post ID when stable; no URL, body, or mutable handle is exposed.
    pub provider_post_id: Option<String>,
    /// Legacy row digest used as a non-content reference.
    pub legacy_record_digest: Option<String>,
    /// Whether official normalized content differs from the imported digest.
    pub content_changed: bool,
    /// Whether the legacy row retained category metadata.
    pub legacy_category_present: bool,
    /// Whether the legacy row retained folder metadata.
    pub legacy_folder_present: bool,
}

/// The values of a difference entry.
pub type DiffView = (ShadowDiffClass, Option<Seq<char>>, Option<Seq<char>>, bool, bool, bool);

pub open spec fn diff_view(d: ShadowDiff) -> DiffView {
    (d.class, opt_str(d.provider_post_id), opt_str(d.legacy_record_digest), d.content_changed,
        d.legacy_category_present, d.legacy_folder_present)
}

pub open spec fn diff_views(v: Seq<ShadowDiff>) -> Seq<DiffView> {
    Seq::new(v.len(), |i: int| diff_view(v[i]))
}

/// One imported legacy item as the comparison reads it.
pub struct ShadowLegacyRow {
    pub row_digest: String,
    pub provider_post_id: Option<String>,
    pub content_digest: Option<String>,
    pub category_metadata: JsonValue,
    pub folder_metadata: JsonValue,
    pub resolution: String,
}

/// Whether a stored metadata value is a nonempty JSON array.
pub open spec fn has_values(v: JsonValue) -> bool {
    v matches JsonValue::Array(items) && items.len() > 0
}

pub fn json_array_has_values(v: &JsonValue) -> (r: bool)
    ensures
        r == has_values(*v),
{
    match v {
        JsonValue::Array(items) => items.len() > 0,
        _ => false,
    }
}

// ---------------------------------------------------------------------------
// Classification.
// ---------------------------------------------------------------------------

/// The official text of a provider identity: the last row naming it.
pub open spec fn official_text_upto(official: Seq<(String, String)>, id: Seq<char>, n: int) -> Option<Seq<char>>
    decreases n,
{
    if n <= 0 || n > official.len() {
        None
    } else if official[n - 1].0@ == id {
        Some(official[n - 1].1@)
    } else {
        official_text_upto(official, id, n - 1)
    }
}

pub open spec fn official_text(official: Seq<(String, String)>, id: Seq<char>) -> Option<Seq<char>> {
    official_text_upto(official, id, official.len() as int)
}

/// Whether a legacy row maps through a provider identity.
pub open spec fn maps_identity(row: ShadowLegacyRow) -> bool {
    row.resolution@ == "provider_post"@ || row.resolution@ == "canonical_url"@
}

/// The entry a legacy row yields; `None` for a row that breaks the stored
/// contract (an unknown resolution, or a mapped row without identity).
pub open spec fn legacy_diff(row: ShadowLegacyRow, official: Seq<(String, String)>) -> Option<DiffView> {
    let cat = has_values(row.category_metadata);
    let fol = has_values(row.folder_metadata);
    let digest = Some(row.row_digest@);
    if row.resolution@ == "identity_conflict"@ {
        Some((ShadowDiffClass::IdentityConflict, opt_str(row.provider_post_id), digest, false, cat, fol))
    } else if row.resolution@ == "unmapped"@ {
        Some((ShadowDiffClass::Unmapped, None, digest, false, cat, fol))
    } else if maps_identity(row) {
        match row.provider_post_id {
            None => None,
            Some(id) => match official_text(official, id@) {
                Some(text) => Some((
                    if row.resolution@ == "canonical_url"@ { ShadowDiffClass::UrlMatched } else { ShadowDiffClass::Matched },
                    Some(id@),
                    digest,
                    match row.content_digest {
                        Some(d) => d@ != sha256_hex_of(encode_utf8(text)),
                        None => false,
                    },
                    cat,
                    fol,
                )),
                None => Some((ShadowDiffClass::LegacyOnly, Some(id@), digest, false, cat, fol)),
            },
        }
    } else {
        None
    }
}

/// Whether an official identity was matched by some legacy row.
pub open spec fn matched_by_legacy(legacy: Seq<ShadowLegacyRow>, id: Seq<char>) -> bool {
    exists|i: int| 0 <= i < legacy.len() && maps_identity(#[trigger] legacy[i])
        && opt_str(legacy[i].provider_post_id) == Some(id)
}

/// The official identities, ascending and distinct.
pub open spec fn official_ids(official: Seq<(String, String)>) -> Seq<Seq<char>> {
    sort_unique(Seq::new(official.len(), |i: int| official[i].0@))
}

/// Official-only entries for the unmatched official identities, ascending.
pub open spec fn official_only_diffs(ids: Seq<Seq<char>>, legacy: Seq<ShadowLegacyRow>) -> Seq<DiffView>
    decreases ids.len(),
{
    if ids.len() == 0 {
        Seq::empty()
    } else {
        let rest = official_only_diffs(ids.drop_last(), legacy);
        if matched_by_legacy(legacy, ids.last()) {
            rest
        } else {
            rest.push((ShadowDiffClass::OfficialOnly, Some(ids.last()), None, false, false, false))
        }
    }
}

/// Entries of the first `n` legacy rows, or `None` if one breaks the contract.
pub open spec fn legacy_diffs(legacy: Seq<ShadowLegacyRow>, official: Seq<(String, String)>, n: int) -> Option<Seq<DiffView>>
    decreases n,
{
    if n <= 0 || n > legacy.len() {
        Some(Seq::empty())
    } else {
        match (legacy_diffs(legacy, official, n - 1), legacy_diff(legacy[n - 1], official)) {
            (Some(done), Some(d)) => Some(done.push(d)),
            _ => None,
        }
    }
}

// ---------------------------------------------------------------------------
// The report order.
// ---------------------------------------------------------------------------

/// `Option<&str>` order: `None` first, then by text.
pub open spec fn opt_le(a: Option<Seq<char>>, b: Option<Seq<char>>) -> bool {
    match (a, b) {
        (None, _) => true,
        (Some(_), None) => false,
        (Some(x), Some(y)) => lex_le(x, y),
    }
}

/// Entries ordered by class, then provider identity, then legacy digest.
pub open spec fn diff_le(a: DiffView, b: DiffView) -> bool {
    ||| class_rank(a.0) < class_rank(b.0)
    ||| class_rank(a.0) == class_rank(b.0) && a.1 != b.1 && opt_le(a.1, b.1)
    ||| class_rank(a.0) == class_rank(b.0) && a.1 == b.1 && opt_le(a.2, b.2)
}

/// The first position (from `i`) whose entry sorts after `x`.
pub open spec fn insert_pos(sorted: Seq<DiffView>, x: DiffView, i: int) -> int
    decreases sorted.len() - i,
{
    if i < 0 || i >= sorted.len() {
        sorted.len() as int
    } else if !diff_le(sorted[i], x) {
        i
    } else {
        insert_pos(sorted, x, i + 1)
    }
}

/// A stable sort: each entry goes after every earlier entry that does not sort after it.
pub open spec fn stable_sort(s: Seq<DiffView>) -> Seq<DiffView>
    decreases s.len(),
{
    if s.len() == 0 {
        Seq::empty()
    } else {
        let sorted = stable_sort(s.drop_last());
        sorted.insert(insert_pos(sorted, s.last(), 0), s.last())
    }
}

/// The classified entries, or `None` when a legacy row breaks the contract.
pub open spec fn classify(legacy: Seq<ShadowLegacyRow>, official: Seq<(String, String)>) -> Option<Seq<DiffView>> {
    match legacy_diffs(legacy, official, legacy.len() as int) {
        Some(d) => Some(stable_sort(d + official_only_diffs(official_ids(official), legacy))),
        None => None,
    }
}

fn opt_chars(o: &Option<String>) -> (r: Option<Vec<char>>)
    ensures
        match r { Some(v) => Some(v@), None => None } == opt_str(*o),
{
    match o {
        Some(s) => Some(chars_of(s.as_str())),
        None => None,
    }
}

fn opt_le_exec(a: &Option<String>, b: &Option<String>) -> (r: bool)
    ensures
        r == opt_le(opt_str(*a), opt_str(*b)),
{
    match (opt_chars(a), opt_chars(b)) {
        (None, _) => true,
        (Some(_), None) => false,
        (Some(x), Some(y)) => lex_le_exec(&x, &y),
    }
}

fn opt_eq_exec(a: &Option<String>, b: &Option<String>) -> (r: bool)
    ensures
        r == (opt_str(*a) == opt_str(*b)),
{
    match (a, b) {
        (None, None) => true,
        (Some(x), Some(y)) => str_eq(x.as_str(), y.as_str()),
        _ => false,
    }
}

fn diff_le_exec(a: &ShadowDiff, b: &ShadowDiff) -> (r: bool)
    ensures
        r == diff_le(diff_view(*a), diff_view(*b)),
{
    let ra = class_rank_exec(a.class);
    let rb = class_rank_exec(b.class);
    if ra < rb {
        return true;
    }
    if ra > rb {
        return false;
    }
    if !opt_eq_exec(&a.provider_post_id, &b.provider_post_id) {
        return opt_le_exec(&a.provider_post_id, &b.provider_post_id);
    }
    opt_le_exec(&a.legacy_record_digest, &b.legacy_record_digest)
}

/// Sorts entries into the report order, keeping equal entries in arrival order.
pub fn stable_sort_diffs(v: Vec<ShadowDiff>) -> (r: Vec<ShadowDiff>)
    ensures
        diff_views(r@) == stable_sort(diff_views(v@)),
{
    let mut sorted: Vec<ShadowDiff> = Vec::new();
    let ghost all = diff_views(v@);
    proof {
        assert(all.take(0) =~= Seq::<DiffView>::empty());
        assert(diff_views(sorted@) =~= stable_sort(all.take(0)));
    }
    let ghost items = v@;
    for x in it: v.into_iter()
        invariant
            it.seq() == items,
            all == diff_views(items),
            it.index() <= items.len(),
            diff_views(sorted@) == stable_sort(all.take(it.index() as int)),
    {
        let ghost k = it.index() as int;
        let ghost before = diff_views(sorted@);
        proof {
            assert(x == items[k]);
            assert(all.take(k + 1).drop_last() =~= all.take(k));
            assert(all.take(k + 1).last() == diff_view(x));
        }
        let mut p: usize = 0;
        while p < sorted.len() && diff_le_exec(&sorted[p], &x)
            invariant
                p <= sorted.len(),
                before == diff_views(sorted@),
                insert_pos(before, diff_view(x), 0) == insert_pos(before, diff_view(x), p as int),
            decreases sorted.len() - p,
        {
            p += 1;
        }
        sorted.insert(p, x);
        proof {
            assert(diff_views(sorted@) =~= before.insert(p as int, diff_view(x)));
        }
    }
    proof {
        assert(all.take(all.len() as int) =~= all);
    }
    sorted
}

proof fn lemma_legacy_diffs_fail(legacy: Seq<ShadowLegacyRow>, official: Seq<(String, String)>, k: int, n: int)
    requires
        1 <= k <= n <= legacy.len(),
        legacy_diffs(legacy, official, k - 1) is Some,
        legacy_diff(legacy[k - 1], official) is None,
    ensures
        legacy_diffs(legacy, official, n) is None,
    decreases n - k,
{
    if n > k {
        lemma_legacy_diffs_fail(legacy, official, k, n - 1);
    }
}

fn official_lookup<'a>(official: &'a Vec<(String, String)>, id: &str) -> (r: Option<&'a String>)
    ensures
        match r { Some(t) => Some(t@), None => None } == official_text(official@, id@),
{
    let mut n: usize = official.len();
    while n > 0
        invariant
            n <= official.len(),
            official_text(official@, id@) == official_text_upto(official@, id@, n as int),
        decreases n,
    {
        if str_eq(official[n - 1].0.as_str(), id) {
            return Some(&official[n - 1].1);
        }
        n -= 1;
    }
    None
}

fn maps_identity_exec(row: &ShadowLegacyRow) -> (r: bool)
    ensures
        r == maps_identity(*row),
{
    str_eq(row.resolution.as_str(), "provider_post") || str_eq(row.resolution.as_str(), "canonical_url")
}

fn legacy_diff_exec(row: &ShadowLegacyRow, official: &Vec<(String, String)>) -> (r: Option<ShadowDiff>)
    ensures
        match r { Some(d) => Some(diff_view(d)), None => None } == legacy_diff(*row, official@),
{
    let cat = json_array_has_values(&row.category_metadata);
    let fol = json_array_has_values(&row.folder_metadata);
    let digest = Some(row.row_digest.clone());
    if str_eq(row.resolution.as_str(), "identity_conflict") {
        return Some(ShadowDiff {
            class: ShadowDiffClass::IdentityConflict,
            provider_post_id: row.provider_post_id.clone(),
            legacy_record_digest: digest,
            content_changed: false,
            legacy_category_present: cat,
            legacy_folder_present: fol,
        });
    }
    if str_eq(row.resolution.as_str(), "unmapped") {
        return Some(ShadowDiff {
            class: ShadowDiffClass::Unmapped,
            provider_post_id: None,
            legacy_record_digest: digest,
            content_changed: false,
            legacy_category_present: cat,
            legacy_folder_present: fol,
        });
    }
    if !maps_identity_exec(row) {
        return None;
    }
    let id = match &row.provider_post_id {
        Some(id) => id,
        None => return None,
    };
    match official_lookup(official, id.as_str()) {
        Some(text) => {
            let class = if str_eq(row.resolution.as_str(), "canonical_url") {
                ShadowDiffClass::UrlMatched
            } else {
                ShadowDiffClass::Matched
            };
            let changed = match &row.content_digest {
                Some(d) => !str_eq(d.as_str(), sha256_text(text.as_str()).as_str()),
                None => false,
            };
            Some(ShadowDiff {
                class,
                provider_post_id: Some(id.clone()),
                legacy_record_digest: digest,
                content_changed: changed,
                legacy_category_present: cat,
                legacy_folder_present: fol,
            })
        },
        None => Some(ShadowDiff {
            class: ShadowDiffClass::LegacyOnly,
            provider_post_id: Some(id.clone()),
            legacy_record_digest: digest,
            content_changed: false,
            legacy_category_present: cat,
            legacy_folder_present: fol,
        }),
    }
}

fn matched_by_legacy_exec(legacy: &Vec<ShadowLegacyRow>, id: &Vec<char>) -> (r: bool)
    ensures
        r == matched_by_legacy(legacy@, id@),
{
    let mut i: usize = 0;
    while i < legacy.len()
        invariant
            i <= legacy.len(),
            forall|j: int| 0 <= j < i ==> !(maps_identity(#[trigger] legacy@[j]) && opt_str(legacy@[j].provider_post_id) == Some(id@)),
        decreases legacy.len() - i,
    {
        if maps_identity_exec(&legacy[i]) {
            if let Some(p) = &legacy[i].provider_post_id {
                let pc = chars_of(p.as_str());
                if chars_eq(&pc, id) {
                    return true;
                }
            }
        }
        i += 1;
    }
    false
}

/// Classifies imported legacy items against a complete official snapshot
/// (provider identity and text per post) into the report's ordered entries;
/// a stored item that breaks the import contract is a database failure.
pub fn classify_shadow_entries(legacy_rows: Vec<ShadowLegacyRow>, official_rows: Vec<(String, String)>) -> (r: Result<Vec<ShadowDiff>, LegacyTransitionError>)
    ensures
        match classify(legacy_rows@, official_rows@) {
            Some(d) => r matches Ok(v) && diff_views(v@) == d,
            None => r == Err::<Vec<ShadowDiff>, LegacyTransitionError>(LegacyTransitionError::Database),
        },
{
    let mut entries: Vec<ShadowDiff> = Vec::new();
    let mut i: usize = 0;
    proof {
        assert(diff_views(entries@) =~= Seq::<DiffView>::empty());
    }
    while i < legacy_rows.len()
        invariant
            i <= legacy_rows.len(),
            legacy_diffs(legacy_rows@, official_rows@, i as int) == Some(diff_views(entries@)),
        decreases legacy_rows.len() - i,
    {
        match legacy_diff_exec(&legacy_rows[i], &official_rows) {
            Some(d) => {
                let ghost before = diff_views(entries@);
                entries.push(d);
                assert(diff_views(entries@) =~= before.push(diff_view(d)));
            },
            None => {
                proof {
                    lemma_legacy_diffs_fail(legacy_rows@, official_rows@, i as int + 1, legacy_rows@.len() as int);
                }
                return Err(LegacyTransitionError::Database);
            },
        }
        i += 1;
    }
    let mut ids: Vec<Vec<char>> = Vec::new();
    let mut j: usize = 0;
    while j < official_rows.len()
        invariant
            j <= official_rows.len(),
            views(ids@) == Seq::new(official_rows@.len(), |k: int| official_rows@[k].0@).take(j as int),
        decreases official_rows.len() - j,
    {
        let ghost before = views(ids@);
        ids.push(chars_of(official_rows[j].0.as_str()));
        assert(views(ids@) =~= before.push(official_rows@[j as int].0@));
        j += 1;
        assert(views(ids@) =~= Seq::new(official_rows@.len(), |k: int| official_rows@[k].0@).take(j as int));
    }
    assert(Seq::new(official_rows@.len(), |k: int| official_rows@[k].0@).take(official_rows.len() as int)
        =~= Seq::new(official_rows@.len(), |k: int| official_rows@[k].0@));
    let unique = sort_unique_chars(ids);
    let ghost uids = views(unique@);
    let ghost legacy_part = diff_views(entries@);
    let mut m: usize = 0;
    proof {
        assert(uids.take(0) =~= Seq::<Seq<char>>::empty());
        assert(diff_views(entries@) =~= legacy_part + official_only_diffs(uids.take(0), legacy_rows@));
    }
    while m < unique.len()
        invariant
            m <= unique.len(),
            uids == views(unique@),
            uids == official_ids(official_rows@),
            diff_views(entries@) == legacy_part + official_only_diffs(uids.take(m as int), legacy_rows@),
        decreases unique.len() - m,
    {
        let ghost before = diff_views(entries@);
        proof {
            assert(uids.take(m + 1).drop_last() =~= uids.take(m as int));
        }
        let ghost id = unique@[m as int]@;
        proof {
            assert(uids.take(m + 1).last() == id);
        }
        if !matched_by_legacy_exec(&legacy_rows, &unique[m]) {
            let text = string_of(&unique[m]);
            proof {
                assert(official_only_diffs(uids.take(m + 1), legacy_rows@) == official_only_diffs(uids.take(m as int), legacy_rows@).push(
                    (ShadowDiffClass::OfficialOnly, Some(id), None, false, false, false)));
            }
            entries.push(ShadowDiff {
                class: ShadowDiffClass::OfficialOnly,
                provider_post_id: Some(text),
                legacy_record_digest: None,
                content_changed: false,
                legacy_category_present: false,
                legacy_folder_present: false,
            });
            assert(diff_views(entries@) =~= before.push((ShadowDiffClass::OfficialOnly, Some(id), None, false, false, false)));
            assert(diff_views(entries@) =~= legacy_part + official_only_diffs(uids.take(m + 1), legacy_rows@));
        }
        m += 1;
    }
    proof {
        assert(uids.take(unique.len() as int) =~= uids);
    }
    Ok(stable_sort_diffs(entries))
}

// ---------------------------------------------------------------------------
// Summary, digests and the report.
// ---------------------------------------------------------------------------

/// Deterministic counts for one shadow report.
#[derive(Debug, Clone, Copy, PartialEq, Eq, Structural)]
pub struct ShadowSummary {
    pub matched: u64,
    pub url_matched: u64,
    pub legacy_only: u64,
    pub official_only: u64,
    pub identity_conflicts: u64,
    pub unmapped: u64,
}

/// The number of entries of a class.
pub open spec fn count_class(entries: Seq<DiffView>, class: ShadowDiffClass) -> nat
    decreases entries.len(),
{
    if entries.len() == 0 {
        0
    } else {
        count_class(entries.drop_last(), class) + if entries.last().0 == class { 1nat } else { 0nat }
    }
}

proof fn lemma_count_class_bound(entries: Seq<DiffView>, class: ShadowDiffClass)
    ensures
        count_class(entries, class) <= entries.len(),
    decreases entries.len(),
{
    if entries.len() > 0 {
        lemma_count_class_bound(entries.drop_last(), class);
    }
}

/// The number of entries of a class.
pub fn shadow_count(entries: &Vec<ShadowDiff>, class: ShadowDiffClass) -> (r: u64)
    ensures
        r == count_class(diff_views(entries@), class),
{
    let ghost dv = diff_views(entries@);
    let mut count: u64 = 0;
    let mut i: usize = 0;
    while i < entries.len()
        invariant
            i <= entries.len(),
            dv == diff_views(entries@),
            count == count_class(dv.take(i as int), class),
        decreases entries.len() - i,
    {
        proof {
            assert(dv.take(i + 1).drop_last() =~= dv.take(i as int));
            lemma_count_class_bound(dv.take(i as int), class);
        }
        if entries[i].class == class {
            count = count + 1;
        }
        i += 1;
    }
    proof {
        assert(dv.take(entries.len() as int) =~= dv);
    }
    count
}

/// The summary of a list of entries.
pub open spec fn summary_of(entries: Seq<DiffView>) -> ShadowSummary {
    ShadowSummary {
        matched: count_class(entries, ShadowDiffClass::Matched) as u64,
        url_matched: count_class(entries, ShadowDiffClass::UrlMatched) as u64,
        legacy_only: count_class(entries, ShadowDiffClass::LegacyOnly) as u64,
        official_only: count_class(entries, ShadowDiffClass::OfficialOnly) as u64,
        identity_conflicts: count_class(entries, ShadowDiffClass::IdentityConflict) as u64,
        unmapped: count_class(entries, ShadowDiffClass::Unmapped) as u64,
    }
}

/// Every entry falls in exactly one class: the six counts of a report add up
/// to its number of entries.
pub proof fn lemma_summary_partitions(entries: Seq<DiffView>)
    ensures
        count_class(entries, ShadowDiffClass::Matched) + count_class(entries, ShadowDiffClass::UrlMatched)
            + count_class(entries, ShadowDiffClass::LegacyOnly) + count_class(entries, ShadowDiffClass::OfficialOnly)
            + count_class(entries, ShadowDiffClass::IdentityConflict) + count_class(entries, ShadowDiffClass::Unmapped)
            == entries.len(),
    decreases entries.len(),
{
    if entries.len() > 0 {
        lemma_summary_partitions(entries.drop_last());
    }
}

/// The digest of imported evidence: the row digests in stored order, one per line.
pub open spec fn import_digest_of(row_digests: Seq<Seq<char>>) -> Seq<char> {
    sha256_hex_of(encode_utf8(join(row_digests, seq!['\n'])))
}

/// One official snapshot line: the provider identity and the SHA-256 of its text.
pub open spec fn official_line(id: Seq<char>, text: Seq<char>) -> Seq<char> {
    id + seq![':'] + sha256_hex_of(encode_utf8(text))
}

/// The digest of official evidence: one line per snapshot post, in stored order.
pub open spec fn snapshot_digest_of(official: Seq<(String, String)>) -> Seq<char> {
    sha256_hex_of(encode_utf8(join(Seq::new(official.len(), |i: int| official_line(official[i].0@, official[i].1@)), seq!['\n'])))
}

fn newline() -> (r: Vec<char>)
    ensures
        r@ == seq!['\n'],
{
    let mut v: Vec<char> = Vec::new();
    v.push('\n');
    assert(v@ =~= seq!['\n']);
    v
}

/// SHA-256 of the imported row digests, one per line.
pub fn import_digest(legacy_rows: &Vec<ShadowLegacyRow>) -> (r: String)
    ensures
        r@ == import_digest_of(Seq::new(legacy_rows@.len(), |i: int| legacy_rows@[i].row_digest@)),
{
    let ghost want = Seq::new(legacy_rows@.len(), |i: int| legacy_rows@[i].row_digest@);
    let mut parts: Vec<Vec<char>> = Vec::new();
    let mut i: usize = 0;
    while i < legacy_rows.len()
        invariant
            i <= legacy_rows.len(),
            want == Seq::new(legacy_rows@.len(), |k: int| legacy_rows@[k].row_digest@),
            views(parts@) == want.take(i as int),
        decreases legacy_rows.len() - i,
    {
        let ghost before = views(parts@);
        parts.push(chars_of(legacy_rows[i].row_digest.as_str()));
        assert(views(parts@) =~= before.push(want[i as int]));
        i += 1;
        assert(views(parts@) =~= want.take(i as int));
    }
    assert(want.take(legacy_rows.len() as int) =~= want);
    let text = string_of(&join_exec(&parts, &newline()));
    sha256_text(text.as_str())
}

/// SHA-256 of the official snapshot lines.
pub fn snapshot_digest(official_rows: &Vec<(String, String)>) -> (r: String)
    ensures
        r@ == snapshot_digest_of(official_rows@),
{
    let ghost want = Seq::new(official_rows@.len(), |i: int| official_line(official_rows@[i].0@, official_rows@[i].1@));
    let mut parts: Vec<Vec<char>> = Vec::new();
    let mut i: usize = 0;
    while i < official_rows.len()
        invariant
            i <= official_rows.len(),
            want == Seq::new(official_rows@.len(), |k: int| official_line(official_rows@[k].0@, official_rows@[k].1@)),
            views(parts@) == want.take(i as int),
        decreases official_rows.len() - i,
    {
        let mut line = chars_of(official_rows[i].0.as_str());
        line.push(':');
        let digest = chars_of(sha256_text(official_rows[i].1.as_str()).as_str());
        extend_chars(&mut line, &digest);
        assert(line@ =~= want[i as int]);
        let ghost before = views(parts@);
        parts.push(line);
        assert(views(parts@) =~= before.push(want[i as int]));
        i += 1;
        assert(views(parts@) =~= want.take(i as int));
    }
    assert(want.take(official_rows.len() as int) =~= want);
    let text = string_of(&join_exec(&parts, &newline()));
    sha256_text(text.as_str())
}

/// Canonical redacted report bound to one import and one authoritative snapshot.
#[derive(Debug, Clone, PartialEq, Eq)]
pub struct ShadowReport {
    pub report_version: i32,
    pub account_id: u128,
    pub import_run_id: u128,
    pub snapshot_id: u128,
    pub import_digest: String,
    pub snapshot_digest: String,
    pub entries: Vec<ShadowDiff>,
    pub summary: ShadowSummary,
}

/// Builds the report: its evidence digests, its classified entries and their counts.
pub fn build_shadow_report(
    account_id: u128,
    import_run_id: u128,
    snapshot_id: u128,
    legacy_rows: Vec<ShadowLegacyRow>,
    official_rows: Vec<(String, String)>,
) -> (r: Result<ShadowReport, LegacyTransitionError>)
    ensures
        match classify(legacy_rows@, official_rows@) {
            None => r == Err::<ShadowReport, LegacyTransitionError>(LegacyTransitionError::Database),
            Some(d) => r matches Ok(report) && {
                &&& report.report_version == 1
                &&& report.account_id == account_id
                &&& report.import_run_id == import_run_id
                &&& report.snapshot_id == snapshot_id
                &&& report.import_digest@ == import_digest_of(Seq::new(legacy_rows@.len(), |i: int| legacy_rows@[i].row_digest@))
                &&& report.snapshot_digest@ == snapshot_digest_of(official_rows@)
                &&& diff_views(report.entries@) == d
                &&& report.summary == summary_of(d)
            },
        },
{
    let import_digest = import_digest(&legacy_rows);
    let snapshot_digest = snapshot_digest(&official_rows);
    let entries = classify_shadow_entries(legacy_rows, official_rows)?;
    let summary = ShadowSummary {
        matched: shadow_count(&entries, ShadowDiffClass::Matched),
        url_matched: shadow_count(&entries, ShadowDiffClass::UrlMatched),
        legacy_only: shadow_count(&entries, ShadowDiffClass::LegacyOnly),
        official_only: shadow_count(&entries, ShadowDiffClass::OfficialOnly),
        identity_conflicts: shadow_count(&entries, ShadowDiffClass::IdentityConflict),
        unmapped: shadow_count(&entries, ShadowDiffClass::Unmapped),
    };
    Ok(ShadowReport {
        report_version: 1,
        account_id,
        import_run_id,
        snapshot_id,
        import_digest,
        snapshot_digest,
        entries,
        summary,
    })
}

// ---------------------------------------------------------------------------
// The report document.
// ---------------------------------------------------------------------------

/// The serialized name of a class.
pub open spec fn class_token(c: ShadowDiffClass) -> Seq<char> {
    match c {
        ShadowDiffClass::Matched => "matched"@,
        ShadowDiffClass::UrlMatched => "url_matched"@,
        ShadowDiffClass::LegacyOnly => "legacy_only"@,
        ShadowDiffClass::OfficialOnly => "official_only"@,
        ShadowDiffClass::IdentityConflict => "identity_conflict"@,
        ShadowDiffClass::Unmapped => "unmapped"@,
    }
}

fn class_token_exec(c: ShadowDiffClass) -> (r: &'static str)
    ensures
        r@ == class_token(c),
{
    match c {
        ShadowDiffClass::Matched => "matched",
        ShadowDiffClass::UrlMatched => "url_matched",
        ShadowDiffClass::LegacyOnly => "legacy_only",
        ShadowDiffClass::OfficialOnly => "official_only",
        ShadowDiffClass::IdentityConflict => "identity_conflict",
        ShadowDiffClass::Unmapped => "unmapped",
    }
}

pub open spec fn bool_text(b: bool) -> Seq<char> {
    if b { seq!['t', 'r', 'u', 'e'] } else { seq!['f', 'a', 'l', 's', 'e'] }
}

fn bool_text_exec(b: bool) -> (r: Vec<char>)
    ensures
        r@ == bool_text(b),
{
    let mut v: Vec<char> = Vec::new();
    if b {
        v.push('t'); v.push('r'); v.push('u'); v.push('e');
    } else {
        v.push('f'); v.push('a'); v.push('l'); v.push('s'); v.push('e');
    }
    assert(v@ =~= bool_text(b));
    v
}

/// One entry as the report document writes it (members in declaration order).
pub open spec fn entry_text(d: DiffView) -> Seq<char> {
    object_text(seq![
        member_text("class"@, string_literal(class_token(d.0))),
        member_text("provider_post_id"@, opt_string_text(d.1)),
        member_text("legacy_record_digest"@, opt_string_text(d.2)),
        member_text("content_changed"@, bool_text(d.3)),
        member_text("legacy_category_present"@, bool_text(d.4)),
        member_text("legacy_folder_present"@, bool_text(d.5)),
    ])
}

pub open spec fn entries_text(ds: Seq<DiffView>) -> Seq<char> {
    seq!['['] + join(Seq::new(ds.len(), |i: int| entry_text(ds[i])), seq![',']) + seq![']']
}

pub open spec fn summary_text(s: ShadowSummary) -> Seq<char> {
    object_text(seq![
        member_text("matched"@, decimal(s.matched as nat)),
        member_text("url_matched"@, decimal(s.url_matched as nat)),
        member_text("legacy_only"@, decimal(s.legacy_only as nat)),
        member_text("official_only"@, decimal(s.official_only as nat)),
        member_text("identity_conflicts"@, decimal(s.identity_conflicts as nat)),
        member_text("unmapped"@, decimal(s.unmapped as nat)),
    ])
}

/// The report document (`serde_json::to_vec` of the report: members in declaration order).
pub open spec fn report_text(r: ShadowReport) -> Seq<char> {
    object_text(seq![
        member_text("report_version"@, signed_decimal(r.report_version as int)),
        member_text("account_id"@, string_literal(uuid_text(r.account_id))),
        member_text("import_run_id"@, string_literal(uuid_text(r.import_run_id))),
        member_text("snapshot_id"@, string_literal(uuid_text(r.snapshot_id))),
        member_text("import_digest"@, string_literal(r.import_digest@)),
        member_text("snapshot_digest"@, string_literal(r.snapshot_digest@)),
        member_text("entries"@, entries_text(diff_views(r.entries@))),
        member_text("summary"@, summary_text(r.summary)),
    ])
}

fn entry_text_exec(d: &ShadowDiff) -> (r: Vec<char>)
    ensures
        r@ == entry_text(diff_view(*d)),
{
    let mut members: Vec<Vec<char>> = Vec::new();
    members.push(member_text_exec("class", &string_literal_exec(class_token_exec(d.class))));
    members.push(member_text_exec("provider_post_id", &opt_string_text_exec(&d.provider_post_id)));
    members.push(member_text_exec("legacy_record_digest", &opt_string_text_exec(&d.legacy_record_digest)));
    members.push(member_text_exec("content_changed", &bool_text_exec(d.content_changed)));
    members.push(member_text_exec("legacy_category_present", &bool_text_exec(d.legacy_category_present)));
    members.push(member_text_exec("legacy_folder_present", &bool_text_exec(d.legacy_folder_present)));
    let ghost dv = diff_view(*d);
    assert(views(members@) =~= seq![
        member_text("class"@, string_literal(class_token(dv.0))),
        member_text("provider_post_id"@, opt_string_text(dv.1)),
        member_text("legacy_record_digest"@, opt_string_text(dv.2)),
        member_text("content_changed"@, bool_text(dv.3)),
        member_text("legacy_category_present"@, bool_text(dv.4)),
        member_text("legacy_folder_present"@, bool_text(dv.5)),
    ]);
    object_text_exec(&members)
}

fn entries_text_exec(entries: &Vec<ShadowDiff>) -> (r: Vec<char>)
    ensures
        r@ == entries_text(diff_views(entries@)),
{
    let ghost ds = diff_views(entries@);
    let ghost want = Seq::new(ds.len(), |i: int| entry_text(ds[i]));
    let mut parts: Vec<Vec<char>> = Vec::new();
    let mut i: usize = 0;
    while i < entries.len()
        invariant
            i <= entries.len(),
            ds == diff_views(entries@),
            want == Seq::new(ds.len(), |k: int| entry_text(ds[k])),
            views(parts@) == want.take(i as int),
        decreases entries.len() - i,
    {
        let ghost before = views(parts@);
        parts.push(entry_text_exec(&entries[i]));
        assert(views(parts@) =~= before.push(want[i as int]));
        i += 1;
        assert(views(parts@) =~= want.take(i as int));
    }
    assert(want.take(entries.len() as int) =~= want);
    let mut sep: Vec<char> = Vec::new();
    sep.push(',');
    assert(sep@ =~= seq![',']);
    let body = join_exec(&parts, &sep);
    let mut out: Vec<char> = Vec::new();
    out.push('[');
    extend_chars(&mut out, &body);
    out.push(']');
    assert(out@ =~= entries_text(ds));
    out
}

fn summary_text_exec(s: ShadowSummary) -> (r: Vec<char>)
    ensures
        r@ == summary_text(s),
{
    let mut members: Vec<Vec<char>> = Vec::new();
    members.push(member_text_exec("matched", &decimal_exec(s.matched)));
    members.push(member_text_exec("url_matched", &decimal_exec(s.url_matched)));
    members.push(member_text_exec("legacy_only", &decimal_exec(s.legacy_only)));
    members.push(member_text_exec("official_only", &decimal_exec(s.official_only)));
    members.push(member_text_exec("identity_conflicts", &decimal_exec(s.identity_conflicts)));
    members.push(member_text_exec("unmapped", &decimal_exec(s.unmapped)));
    assert(views(members@) =~= seq![
        member_text("matched"@, decimal(s.matched as nat)),
        member_text("url_matched"@, decimal(s.url_matched as nat)),
        member_text("legacy_only"@, decimal(s.legacy_only as nat)),
        member_text("official_only"@, decimal(s.official_only as nat)),
        member_text("identity_conflicts"@, decimal(s.identity_conflicts as nat)),
        member_text("unmapped"@, decimal(s.unmapped as nat)),
    ]);
    object_text_exec(&members)
}

/// The report document text.
pub fn shadow_report_json(report: &ShadowReport) -> (r: String)
    ensures
        r@ == report_text(*report),
{
    let mut members: Vec<Vec<char>> = Vec::new();
    members.push(member_text_exec("report_version", &signed_decimal_exec(report.report_version as i64)));
    members.push(member_text_exec("account_id", &string_literal_exec(string_of(&uuid_string(report.account_id)).as_str())));
    members.push(member_text_exec("import_run_id", &string_literal_exec(string_of(&uuid_string(report.import_run_id)).as_str())));
    members.push(member_text_exec("snapshot_id", &string_literal_exec(string_of(&uuid_string(report.snapshot_id)).as_str())));
    members.push(member_text_exec("import_digest", &string_literal_exec(report.import_digest.as_str())));
    members.push(member_text_exec("snapshot_digest", &string_literal_exec(report.snapshot_digest.as_str())));
    members.push(member_text_exec("entries", &entries_text_exec(&report.entries)));
    members.push(member_text_exec("summary", &summary_text_exec(report.summary)));
    assert(views(members@) =~= seq![
        member_text("report_version"@, signed_decimal(report.report_version as int)),
        member_text("account_id"@, string_literal(uuid_text(report.account_id))),
        member_text("import_run_id"@, string_literal(uuid_text(report.import_run_id))),
        member_text("snapshot_id"@, string_literal(uuid_text(report.snapshot_id))),
        member_text("import_digest"@, string_literal(report.import_digest@)),
        member_text("snapshot_digest"@, string_literal(report.snapshot_digest@)),
        member_text("entries"@, entries_text(diff_views(report.entries@))),
        member_text("summary"@, summary_text(report.summary)),
    ]);
    string_of(&object_text_exec(&members))
}

/// SHA-256 of the report document.
pub fn shadow_report_digest(report: &ShadowReport) -> (r: String)
    ensures
        r@ == sha256_hex_of(encode_utf8(report_text(*report))),
{
    let text = shadow_report_json(report);
    sha256_text(text.as_str())
}


proof fn lemma_legacy_diffs_entries(legacy: Seq<ShadowLegacyRow>, official: Seq<(String, String)>, n: int)
    requires
        0 <= n <= legacy.len(),
        legacy_diffs(legacy, official, n) is Some,
    ensures
        legacy_diffs(legacy, official, n)->Some_0.len() == n,
        forall|i: int| 0 <= i < n ==> legacy_diff(legacy[i], official)
            == Some(#[trigger] legacy_diffs(legacy, official, n)->Some_0[i]),
    decreases n,
{
    if n > 0 {
        lemma_legacy_diffs_entries(legacy, official, n - 1);
        let done = legacy_diffs(legacy, official, n - 1)->Some_0;
        let d = legacy_diff(legacy[n - 1], official)->Some_0;
        assert(legacy_diffs(legacy, official, n)->Some_0 == done.push(d));
    }
}

proof fn lemma_official_only_class(ids: Seq<Seq<char>>, legacy: Seq<ShadowLegacyRow>)
    ensures
        forall|i: int| 0 <= i < official_only_diffs(ids, legacy).len()
            ==> (#[trigger] official_only_diffs(ids, legacy)[i]).0 == ShadowDiffClass::OfficialOnly,
    decreases ids.len(),
{
    if ids.len() > 0 {
        lemma_official_only_class(ids.drop_last(), legacy);
    }
}

proof fn lemma_insert_pos_range(sorted: Seq<DiffView>, x: DiffView, i: int)
    requires
        0 <= i,
    ensures
        0 <= insert_pos(sorted, x, i) <= sorted.len(),
    decreases sorted.len() - i,
{
    if 0 <= i < sorted.len() && diff_le(sorted[i], x) {
        lemma_insert_pos_range(sorted, x, i + 1);
    }
}

/// Sorting the entries keeps them: every sorted entry is one of the entries.
proof fn lemma_stable_sort_members(s: Seq<DiffView>)
    ensures
        stable_sort(s).len() == s.len(),
        forall|k: int| 0 <= k < stable_sort(s).len() ==> s.contains(#[trigger] stable_sort(s)[k]),
    decreases s.len(),
{
    if s.len() > 0 {
        let init = s.drop_last();
        lemma_stable_sort_members(init);
        let sorted = stable_sort(init);
        let p = insert_pos(sorted, s.last(), 0);
        lemma_insert_pos_range(sorted, s.last(), 0);
        let out = sorted.insert(p, s.last());
        assert(stable_sort(s) == out);
        assert forall|k: int| 0 <= k < out.len() implies s.contains(#[trigger] out[k]) by {
            if k < p {
                assert(out[k] == sorted[k]);
                let j = choose|j: int| 0 <= j < init.len() && init[j] == sorted[k];
                assert(s[j] == init[j]);
            } else if k == p {
                assert(out[k] == s.last());
                assert(s[s.len() - 1] == s.last());
            } else {
                assert(out[k] == sorted[k - 1]);
                let j = choose|j: int| 0 <= j < init.len() && init[j] == sorted[k - 1];
                assert(s[j] == init[j]);
            }
        }
    }
}

/// A matched entry reports changed content exactly when its legacy row kept a
/// content digest that differs from the SHA-256 of the official post's text:
/// every `Matched` or `UrlMatched` entry of a report comes from a legacy row
/// with that provider identity and row digest, the official snapshot holds a
/// text for that identity, and `content_changed` is that comparison.
pub proof fn lemma_matched_entries_compare_content(legacy: Seq<ShadowLegacyRow>, official: Seq<(String, String)>)
    requires
        classify(legacy, official) is Some,
    ensures
        forall|k: int| 0 <= k < classify(legacy, official)->Some_0.len()
            && ((#[trigger] classify(legacy, official)->Some_0[k]).0 == ShadowDiffClass::Matched
                || classify(legacy, official)->Some_0[k].0 == ShadowDiffClass::UrlMatched)
            ==> exists|i: int| 0 <= i < legacy.len()
                && (#[trigger] legacy[i]).provider_post_id is Some
                && classify(legacy, official)->Some_0[k].1 == Some(legacy[i].provider_post_id->Some_0@)
                && classify(legacy, official)->Some_0[k].2 == Some(legacy[i].row_digest@)
                && official_text(official, legacy[i].provider_post_id->Some_0@) is Some
                && classify(legacy, official)->Some_0[k].3 == (legacy[i].content_digest is Some
                    && legacy[i].content_digest->Some_0@ != sha256_hex_of(encode_utf8(
                        official_text(official, legacy[i].provider_post_id->Some_0@)->Some_0))),
{
    let n = legacy.len() as int;
    let d = legacy_diffs(legacy, official, n)->Some_0;
    let oo = official_only_diffs(official_ids(official), legacy);
    let all = d + oo;
    let entries = classify(legacy, official)->Some_0;
    assert(entries == stable_sort(all));
    lemma_legacy_diffs_entries(legacy, official, n);
    lemma_official_only_class(official_ids(official), legacy);
    lemma_stable_sort_members(all);
    assert forall|k: int| 0 <= k < entries.len()
        && ((#[trigger] entries[k]).0 == ShadowDiffClass::Matched || entries[k].0 == ShadowDiffClass::UrlMatched)
        implies exists|i: int| 0 <= i < legacy.len()
            && (#[trigger] legacy[i]).provider_post_id is Some
            && entries[k].1 == Some(legacy[i].provider_post_id->Some_0@)
            && entries[k].2 == Some(legacy[i].row_digest@)
            && official_text(official, legacy[i].provider_post_id->Some_0@) is Some
            && entries[k].3 == (legacy[i].content_digest is Some
                && legacy[i].content_digest->Some_0@ != sha256_hex_of(encode_utf8(
                    official_text(official, legacy[i].provider_post_id->Some_0@)->Some_0))) by {
        assert(all.contains(entries[k]));
        let j = choose|j: int| 0 <= j < all.len() && all[j] == entries[k];
        if j >= d.len() {
            assert(all[j] == oo[j - d.len()]);
        } else {
            assert(all[j] == d[j]);
            assert(legacy_diff(legacy[j], official) == Some(d[j]));
            assert(legacy[j] == legacy[j]);
        }
    }
}

} // verus!
