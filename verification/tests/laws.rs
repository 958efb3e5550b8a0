use x_sync::articles::select_external_expanded_urls;
use x_sync::json::{json_is_canonical, JsonValue};
use x_sync::legacy::{
    build_record, import_counts, ImportCounts, LegacyResolution, LegacyTransitionError, PostUpsert,
    RecordFields,
};
use x_sync::legacy_sqlite::check_sqlite_version;
use x_sync::legacy_json::preflight_field_theory_jsonl;
use x_sync::legacy::SourceLimits;
use x_sync::time::Timestamp;
use x_sync::writeback::{bookmark_request, stored_write_status, BookmarkAction, BookmarkWriteStatus};
use x_sync::writeback_flow::stored_status_text;

fn row(categories: &[&str], folder_ids: &[&str]) -> RecordFields {
    RecordFields {
        source_record_key: "k1".to_string(),
        provider_post_id: Some("123".to_string()),
        url_provider_post_id: None,
        canonical_url_digest: None,
        text: "hello".to_string(),
        posted_at: None,
        bookmarked_at: None,
        synced_at: Timestamp { seconds: 1_704_164_645, nanos: 0 },
        categories: categories.iter().map(|c| c.to_string()).collect(),
        folder_ids: folder_ids.iter().map(|c| c.to_string()).collect(),
        folder_names: vec![],
    }
}

#[test]
fn import_counts_count_every_row_once() {
    let steps = vec![
        (LegacyResolution::ProviderPost, Some(PostUpsert::Insert)),
        (LegacyResolution::UrlDerivedPost, Some(PostUpsert::Match)),
        (LegacyResolution::ProviderPost, Some(PostUpsert::Update)),
        (LegacyResolution::IdentityConflict, None),
        (LegacyResolution::Unmapped, None),
        (LegacyResolution::Unmapped, None),
    ];
    assert_eq!(
        import_counts(&steps),
        ImportCounts { inserted: 1, matched: 1, updated: 1, conflicted: 1, rejected: 0, unmapped: 2 }
    );
    assert_eq!(import_counts(&vec![]), ImportCounts::default());
}

#[test]
fn record_lists_are_sets() {
    let a = build_record(row(&["b", "a", "b"], &["2", "1"])).unwrap();
    let b = build_record(row(&["a", "b"], &["1", "2", "1"])).unwrap();
    assert_eq!(a.record_digest(), b.record_digest());
    assert_eq!(a.categories(), &["a".to_string(), "b".to_string()]);
    assert_eq!(a.folder_ids(), &["1".to_string(), "2".to_string()]);
    let c = build_record(row(&["a", "c"], &["1", "2"])).unwrap();
    assert_ne!(a.record_digest(), c.record_digest());
    assert_eq!(build_record(RecordFields { source_record_key: String::new(), ..row(&[], &[]) }), Err(LegacyTransitionError::InvalidField { field: "id" }));
}

#[test]
fn stored_statuses_read_back_as_replayed_results() {
    assert_eq!(stored_status_text(BookmarkWriteStatus::AlreadySatisfied), "succeeded");
    assert_eq!(stored_status_text(BookmarkWriteStatus::Uncertain), "uncertain");
    for (status, replayed) in [
        (BookmarkWriteStatus::Succeeded, BookmarkWriteStatus::Succeeded),
        (BookmarkWriteStatus::AlreadySatisfied, BookmarkWriteStatus::Succeeded),
        (BookmarkWriteStatus::Uncertain, BookmarkWriteStatus::Uncertain),
        (BookmarkWriteStatus::ProjectionPending, BookmarkWriteStatus::ProjectionPending),
        (BookmarkWriteStatus::ReconciledNotCurrent, BookmarkWriteStatus::ReconciledNotCurrent),
    ] {
        assert_eq!(stored_write_status(stored_status_text(status)), Some(replayed));
    }
}

#[test]
fn bookmark_requests_name_the_endpoint_and_post() {
    assert_eq!(
        bookmark_request("https://api.x.com", "42", BookmarkAction::Add, "123"),
        ("https://api.x.com/2/users/42/bookmarks".to_string(), Some("{\"tweet_id\":\"123\"}".to_string()))
    );
    assert_eq!(
        bookmark_request("https://api.x.com", "42", BookmarkAction::Remove, "123"),
        ("https://api.x.com/2/users/42/bookmarks/123".to_string(), None)
    );
}

#[test]
fn canonical_documents_have_ascending_unique_keys() {
    let member = |k: &str| (k.to_string(), JsonValue::Str("v".to_string()));
    assert!(json_is_canonical(&JsonValue::Object(vec![member("algorithm"), member("hex")])));
    assert!(!json_is_canonical(&JsonValue::Object(vec![member("hex"), member("algorithm")])));
    assert!(!json_is_canonical(&JsonValue::Object(vec![member("hex"), member("hex")])));
    assert!(!json_is_canonical(&JsonValue::Array(vec![JsonValue::Object(vec![member("b"), member("a")])])));
    assert!(json_is_canonical(&JsonValue::Null));
}

#[test]
fn sqlite_version_is_checked_first() {
    assert_eq!(check_sqlite_version("6"), Ok(()));
    assert_eq!(check_sqlite_version("5"), Err(LegacyTransitionError::UnsupportedSourceVersion));
}

#[test]
fn selected_canonical_forms_select_themselves() {
    let urls = vec![
        "HTTPS://Example.COM:443/a?utm_source=x&b=2&a=1#frag".to_string(),
        "http://example.org:8080".to_string(),
        "https://example.com/a?a=1&b=2".to_string(),
        "https://x.com/status/1".to_string(),
        "http://news.example/p?q=a?b&&c".to_string(),
    ];
    let first = select_external_expanded_urls(&urls);
    let normalized: Vec<String> = first.iter().map(|e| e.normalized_url.clone()).collect();
    assert_eq!(
        normalized,
        vec![
            "https://example.com/a?a=1&b=2".to_string(),
            "http://example.org:8080/".to_string(),
            "http://news.example/p?c&q=a?b".to_string(),
        ]
    );
    let again = select_external_expanded_urls(&normalized);
    assert_eq!(again.len(), normalized.len());
    for (entry, url) in again.iter().zip(normalized.iter()) {
        assert_eq!(&entry.original_url, url);
        assert_eq!(&entry.normalized_url, url);
    }
}

#[test]
fn jsonl_preflight_reads_each_line_as_json() {
    let good = "{\"id\":\"a\",\"tweetId\":\"123\",\"url\":\"https://x.com/u/status/123\",\"text\":\"hi\",\"syncedAt\":\"2024-01-02T03:04:05Z\"}\n\n";
    let batch = preflight_field_theory_jsonl(good.as_bytes(), SourceLimits::default()).unwrap();
    assert_eq!(batch.row_count(), 1);
    assert_eq!(batch.records()[0].provider_post_id(), Some("123"));
    let broken = "{\"id\":\"a\",\n";
    assert_eq!(
        preflight_field_theory_jsonl(broken.as_bytes(), SourceLimits::default()).err(),
        Some(LegacyTransitionError::InvalidEncoding)
    );
    assert_eq!(
        preflight_field_theory_jsonl(&[0xff, 0xfe], SourceLimits::default()).err(),
        Some(LegacyTransitionError::InvalidEncoding)
    );
}


#[test]
fn completion_instants_read_as_utc() {
    assert_eq!(
        x_sync::knowledge::completion_instant("2024-01-02T04:04:05+01:00"),
        Ok(Timestamp { seconds: 1_704_164_645, nanos: 0 })
    );
    assert_eq!(
        x_sync::knowledge::completion_instant("soon"),
        Err(x_sync::knowledge::KnowledgeIntegrationError::InvalidCompletion)
    );
}
