use std::path::PathBuf;
use x_sync::legacy::{
    bounded_count, build_record, finish_batch, nonnegative_count, resolution_database_value,
    resolve_record_identity, source_database_identity, valid_provider_post_id, valid_sha256,
    validate_text, ImportCounts, LegacyResolution, LegacySourceKind, LegacySourceSelection,
    LegacySourceVersion, LegacyTransitionError, RecordFields, SelectedArtifact, SourceLimits,
};
use x_sync::legacy_csv::parse_csv;
use x_sync::legacy_json::forbidden_field_name;
use x_sync::legacy_sources::{nonempty, parse_x_status_url, preflight_monolith_csv};
use x_sync::legacy_sqlite::{merge_legacy_lists, parse_legacy_list};
use x_sync::time::Timestamp;

fn ts(seconds: i64) -> Timestamp {
    Timestamp { seconds, nanos: 0 }
}

fn fields(key: &str, text: &str) -> RecordFields {
    RecordFields {
        source_record_key: key.to_string(),
        provider_post_id: Some("123".to_string()),
        url_provider_post_id: None,
        canonical_url_digest: None,
        text: text.to_string(),
        posted_at: None,
        bookmarked_at: None,
        synced_at: ts(1_704_164_645),
        categories: vec![],
        folder_ids: vec![],
        folder_names: vec![],
    }
}

#[test]
fn source_selection_prefers_the_raw_cache() {
    assert_eq!(
        LegacySourceSelection::monolith_csv(PathBuf::from("a.csv")).artifact(),
        Ok(SelectedArtifact::MonolithCsv(PathBuf::from("a.csv")))
    );
    assert_eq!(
        LegacySourceSelection::field_theory(Some(PathBuf::from("raw.jsonl")), Some(PathBuf::from("index.db"))).artifact(),
        Ok(SelectedArtifact::FieldTheoryJsonl(PathBuf::from("raw.jsonl")))
    );
    assert_eq!(
        LegacySourceSelection::field_theory(None, Some(PathBuf::from("index.db"))).artifact(),
        Ok(SelectedArtifact::FieldTheorySqlite(PathBuf::from("index.db")))
    );
    assert_eq!(LegacySourceSelection::field_theory(None, None).artifact(), Err(LegacyTransitionError::MissingSource));
}

#[test]
fn digests_and_identities() {
    assert!(valid_sha256(&"a".repeat(64)));
    assert!(!valid_sha256(&"A".repeat(64)));
    assert!(!valid_sha256(&"a".repeat(63)));
    assert!(!valid_sha256(&"g".repeat(64)));
    assert!(valid_provider_post_id("1"));
    assert!(!valid_provider_post_id("12345678901234567890"));
    assert!(!valid_provider_post_id(""));
    assert_eq!(resolution_database_value(LegacyResolution::UrlDerivedPost), "canonical_url");
    assert_eq!(resolution_database_value(LegacyResolution::Unmapped), "unmapped");
}

#[test]
fn stored_source_identities_and_counts() {
    assert_eq!(
        source_database_identity(LegacySourceKind::FieldTheorySqlite, LegacySourceVersion::FieldTheorySqlite6),
        Ok(("field_theory_sqlite", 6))
    );
    assert_eq!(
        source_database_identity(LegacySourceKind::FieldTheorySqlite, LegacySourceVersion::FieldTheoryJsonl1),
        Err(LegacyTransitionError::UnsupportedSourceVersion)
    );
    assert_eq!(bounded_count(7), Ok(7));
    assert_eq!(bounded_count(1 << 31), Err(LegacyTransitionError::Database));
    assert_eq!(nonnegative_count(3), Ok(3));
    assert_eq!(nonnegative_count(-1), Err(LegacyTransitionError::Database));
    assert_eq!(ImportCounts::default().inserted, 0);
    let limits = SourceLimits::default();
    assert_eq!((limits.max_bytes, limits.max_rows, limits.max_text_bytes, limits.max_json_depth), (64 << 20, 100_000, 1_000_000, 32));
}

#[test]
fn text_fields_are_bounded_in_utf8_bytes() {
    assert_eq!(validate_text("text", "héllo", 6), Ok(()));
    assert_eq!(validate_text("text", "héllo", 5), Err(LegacyTransitionError::TextLimitExceeded { field: "text" }));
}

#[test]
fn csv_fields_may_be_quoted() {
    assert_eq!(
        parse_csv("a,b\n\"c,\"\"d\"\"\",e\n"),
        Ok(vec![vec!["a".to_string(), "b".to_string()], vec!["c,\"d\"".to_string(), "e".to_string()]])
    );
    assert_eq!(parse_csv("\"open"), Err(LegacyTransitionError::InvalidEncoding));
}

#[test]
fn status_urls_give_post_identity_and_url_digest() {
    let (id, digest) = parse_x_status_url("https://x.com/alice/status/123?s=1#top");
    assert_eq!(id.as_deref(), Some("123"));
    assert_eq!(digest.as_deref(), Some("a6517280cfd2524c05714cc6cb330cc57dbd56c70529fa992bc4ba7f11aa74b4"));
    assert_eq!(parse_x_status_url("https://example.com/alice/status/123"), (None, None));
    assert_eq!(parse_x_status_url("https://x.com/alice/likes/123"), (None, None));
    assert_eq!(nonempty(""), None);
    assert_eq!(nonempty("a"), Some("a".to_string()));
}

#[test]
fn credential_shaped_fields_are_forbidden() {
    assert!(forbidden_field_name("access_token"));
    assert!(forbidden_field_name("Session-Cookie"));
    assert!(!forbidden_field_name("tweet_text"));
}

#[test]
fn legacy_lists_are_sorted_and_deduplicated() {
    assert_eq!(parse_legacy_list(None), Ok(vec![]));
    assert_eq!(parse_legacy_list(Some("b, a ,,b")), Ok(vec!["b".to_string(), "a".to_string(), "b".to_string()]));
    assert_eq!(parse_legacy_list(Some("[\"x\",\"\",\"y\"]")), Ok(vec!["x".to_string(), "y".to_string()]));
    assert_eq!(parse_legacy_list(Some("[1]")), Err(LegacyTransitionError::InvalidEncoding));
    assert_eq!(
        merge_legacy_lists(Some("b,a"), Some("a")),
        Ok(vec!["a".to_string(), "b".to_string()])
    );
}

#[test]
fn records_carry_their_digests() {
    let record = build_record(fields("k1", "hello")).unwrap();
    assert_eq!(record.source_record_key(), "k1");
    assert_eq!(record.content_digest(), "2cf24dba5fb0a30e26e83b2ac5b9e29e1b161e5c1fa7425e73043362938b9824");
    assert_eq!(record.record_digest().len(), 64);
    let (resolution, provider, _) = resolve_record_identity(&record);
    assert_eq!(resolution, LegacyResolution::ProviderPost);
    assert_eq!(provider.as_deref(), Some("123"));
}

#[test]
fn batches_collapse_identical_keys_and_refuse_conflicts() {
    let a = build_record(fields("b", "one")).unwrap();
    let b = build_record(fields("a", "two")).unwrap();
    let a_again = build_record(fields("b", "one")).unwrap();
    let batch = finish_batch(
        LegacySourceKind::FieldTheoryJsonl,
        LegacySourceVersion::FieldTheoryJsonl1,
        "d".repeat(64),
        vec![a, b, a_again],
    )
    .unwrap();
    assert_eq!(batch.row_count(), 2);
    let keys: Vec<&str> = batch.records().iter().map(|r| r.source_record_key()).collect();
    assert_eq!(keys, vec!["a", "b"]);
    let conflicting = vec![build_record(fields("k", "one")).unwrap(), build_record(fields("k", "two")).unwrap()];
    assert_eq!(
        finish_batch(LegacySourceKind::FieldTheoryJsonl, LegacySourceVersion::FieldTheoryJsonl1, "d".repeat(64), conflicting)
            .err(),
        Some(LegacyTransitionError::DuplicateSourceKey)
    );
}

#[test]
fn monolith_exports_preflight_row_by_row() {
    let csv = "request_id,bookmark_external_id,x_category,tweet_text,tweet_text_tsv,tweet_author,tweet_url,posted_at,synced_at\n\
               r1,123,news,hello,,alice,https://x.com/alice/status/123,,2024-01-02T03:04:05Z\n";
    let batch = preflight_monolith_csv(csv.as_bytes(), SourceLimits::default()).unwrap();
    assert_eq!(batch.source_kind(), LegacySourceKind::MonolithBookmarkMetadataCsv);
    assert_eq!(batch.row_count(), 1);
    let record = &batch.records()[0];
    assert_eq!(record.provider_post_id(), Some("123"));
    assert_eq!(record.url_provider_post_id(), Some("123"));
    assert_eq!(record.categories(), &["news".to_string()][..]);
    assert_eq!(record.synced_at(), ts(1_704_164_645));
    assert_eq!(batch.source_digest().len(), 64);

    let bad_header = "id,text\n1,2\n";
    assert_eq!(
        preflight_monolith_csv(bad_header.as_bytes(), SourceLimits::default()).err(),
        Some(LegacyTransitionError::UnsupportedSourceVersion)
    );
    let bad_time = "request_id,bookmark_external_id,x_category,tweet_text,tweet_text_tsv,tweet_author,tweet_url,posted_at,synced_at\n\
                    r1,123,news,hello,,alice,,yesterday,2024-01-02T03:04:05Z\n";
    assert_eq!(
        preflight_monolith_csv(bad_time.as_bytes(), SourceLimits::default()).err(),
        Some(LegacyTransitionError::InvalidTimestamp { field: "posted_at" })
    );
}
