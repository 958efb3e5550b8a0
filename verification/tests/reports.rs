use x_sync::articles::{
    capture_command, capture_completed, capture_correlation_id, check_extractor_report,
    check_outcome_capture, select_document_result, select_external_expanded_urls,
    ArticleCaptureError, ReportResult,
};
use x_sync::json::{depth_within, json_equal, json_get_exec, json_text_exec, JsonNumber, JsonValue};
use x_sync::legacy::{ApprovalDecision, LegacyTransitionError};
use x_sync::shadow::{build_shadow_report, shadow_report_json, ShadowDiffClass, ShadowLegacyRow};
use x_sync::transition::{
    check_current_identity, check_locked_account, check_ownership_approval, check_source_metadata,
    check_source_read, check_source_stable, check_target_account, decision_name,
    identity_chunk_fits, identity_response_acceptable, identity_scope_granted,
    provider_user_id_from, review_state, OwnershipApproval, TargetAccount,
};

fn text(v: &JsonValue) -> String {
    json_text_exec(v).into_iter().collect()
}

#[test]
fn external_links_are_canonical_and_unique() {
    let urls = vec![
        "https://Example.com:443/a?utm_source=x&b=1#frag".to_string(),
        "https://example.com/a?b=1".to_string(),
        "https://x.com/alice/status/1".to_string(),
        "ftp://example.com/file".to_string(),
        "http://example.com:8080/".to_string(),
    ];
    let selected = select_external_expanded_urls(&urls);
    let normalized: Vec<&str> = selected.iter().map(|s| s.normalized_url.as_str()).collect();
    assert_eq!(normalized, vec!["https://example.com/a?b=1", "http://example.com:8080/"]);
    assert_eq!(selected[0].original_url, urls[0]);
}

#[test]
fn capture_commands_name_the_capture_and_owner() {
    assert_eq!(capture_correlation_id(1), "article_capture:00000000-0000-0000-0000-000000000001");
    let command = capture_command(2, 1, 3, "article_capture:c", "2024-01-02T03:04:05Z", "https://example.com/a");
    assert_eq!(
        command,
        "{\"command_id\":\"00000000-0000-0000-0000-000000000002\",\"command_type\":\"content.capture.requested.v1\",\
         \"correlation_id\":\"article_capture:c\",\"idempotency_key\":\"00000000-0000-0000-0000-000000000001\",\
         \"operation_id\":\"00000000-0000-0000-0000-000000000001\",\"payload\":{\"url\":\"https://example.com/a\"},\
         \"requested_at\":\"2024-01-02T03:04:05Z\",\"tenant_id\":\"user:00000000-0000-0000-0000-000000000003\"}"
    );
}

fn result(kind: &str, target: &str, uuid: Option<u128>, owner: Option<&str>) -> ReportResult {
    ReportResult {
        result_kind: kind.to_string(),
        target_kind: target.to_string(),
        target_uuid: uuid,
        blob_owner: owner.map(|s| s.to_string()),
    }
}

#[test]
fn extractor_reports_must_name_one_owned_document() {
    let results = vec![
        result("content.summary", "document", Some(1), Some("ratatoskr-extractor")),
        result("content.document", "document", Some(9), Some("ratatoskr-extractor")),
    ];
    assert_eq!(select_document_result(&results), Ok((1, 9)));
    let foreign = vec![
        result("content.document", "document", Some(9), Some("other")),
        result("content.document", "document", Some(8), Some("ratatoskr-extractor")),
    ];
    assert_eq!(select_document_result(&foreign), Err(ArticleCaptureError::InvalidOutcome));
    assert_eq!(select_document_result(&vec![]), Err(ArticleCaptureError::InvalidOutcome));
    assert_eq!(check_extractor_report("ratatoskr-extractor", true, Some("user:1")), Ok(()));
    assert_eq!(check_extractor_report("ratatoskr-extractor", false, Some("user:1")), Err(ArticleCaptureError::InvalidOutcome));
    assert_eq!(
        check_outcome_capture("00000000-0000-0000-0000-000000000001", "user:00000000-0000-0000-0000-000000000002", Some((1, 2))),
        Ok(1)
    );
    assert_eq!(
        check_outcome_capture("00000000-0000-0000-0000-000000000001", "user:other", Some((1, 2))),
        Err(ArticleCaptureError::InvalidOutcome)
    );
    assert_eq!(check_outcome_capture("x", "y", None), Err(ArticleCaptureError::InvalidOutcome));
    assert_eq!(capture_completed(1), Ok(()));
    assert_eq!(capture_completed(0), Err(ArticleCaptureError::InvalidOutcome));
}

#[test]
fn json_documents_write_compactly() {
    let doc = JsonValue::Object(vec![
        ("a".to_string(), JsonValue::Array(vec![JsonValue::Null, JsonValue::Bool(false)])),
        ("b".to_string(), JsonValue::Number(JsonNumber::NegInt(-12))),
        ("c".to_string(), JsonValue::Str("q\"\n\u{1}".to_string())),
    ]);
    assert_eq!(text(&doc), "{\"a\":[null,false],\"b\":-12,\"c\":\"q\\\"\\n\\u0001\"}");
    assert!(depth_within(&doc, 2));
    assert!(!depth_within(&doc, 1));
    assert!(json_get_exec(&doc, "b").is_some());
    assert!(json_get_exec(&doc, "z").is_none());
    assert!(json_equal(&doc, &doc));
    assert!(!json_equal(&doc, &JsonValue::Null));
}

fn legacy(digest: &str, id: Option<&str>, resolution: &str) -> ShadowLegacyRow {
    ShadowLegacyRow {
        row_digest: digest.to_string(),
        provider_post_id: id.map(|s| s.to_string()),
        content_digest: None,
        category_metadata: JsonValue::Array(vec![]),
        folder_metadata: JsonValue::Array(vec![JsonValue::Str("f".to_string())]),
        resolution: resolution.to_string(),
    }
}

#[test]
fn shadow_reports_classify_and_count() {
    let legacy_rows = vec![
        legacy("d2", Some("20"), "provider_post"),
        legacy("d1", Some("10"), "canonical_url"),
        legacy("d3", None, "unmapped"),
        legacy("d4", Some("40"), "provider_post"),
    ];
    let official = vec![("10".to_string(), "ten".to_string()), ("30".to_string(), "thirty".to_string()), ("20".to_string(), "twenty".to_string())];
    let report = build_shadow_report(1, 2, 3, legacy_rows, official).unwrap();
    let classes: Vec<ShadowDiffClass> = report.entries.iter().map(|e| e.class).collect();
    assert_eq!(
        classes,
        vec![
            ShadowDiffClass::Matched,
            ShadowDiffClass::UrlMatched,
            ShadowDiffClass::LegacyOnly,
            ShadowDiffClass::OfficialOnly,
            ShadowDiffClass::Unmapped
        ]
    );
    assert_eq!(report.entries[3].provider_post_id.as_deref(), Some("30"));
    assert!(report.entries[0].legacy_folder_present);
    assert!(!report.entries[0].legacy_category_present);
    let s = report.summary;
    assert_eq!((s.matched, s.url_matched, s.legacy_only, s.official_only, s.identity_conflicts, s.unmapped), (1, 1, 1, 1, 0, 1));
    let json = shadow_report_json(&report);
    assert!(json.starts_with("{\"report_version\":1,\"account_id\":\"00000000-0000-0000-0000-000000000001\""));
    assert!(json.ends_with("\"summary\":{\"matched\":1,\"url_matched\":1,\"legacy_only\":1,\"official_only\":1,\"identity_conflicts\":0,\"unmapped\":1}}"));
    let broken = vec![legacy("d", None, "provider_post")];
    assert_eq!(build_shadow_report(1, 2, 3, broken, vec![]).err(), Some(LegacyTransitionError::Database));
}

#[test]
fn transition_ownership_and_identity_checks() {
    let approval = OwnershipApproval {
        account_id: 1,
        internal_owner_id: 2,
        source_digest: "a".repeat(64),
        approval_digest: "b".repeat(64),
    };
    assert_eq!(check_ownership_approval(None, &"a".repeat(64)), Err(LegacyTransitionError::MissingOwnershipApproval));
    assert_eq!(check_ownership_approval(Some(&approval), &"a".repeat(64)), Ok(()));
    assert_eq!(check_ownership_approval(Some(&approval), &"c".repeat(64)), Err(LegacyTransitionError::InvalidOwnershipApproval));
    let account = TargetAccount { internal_owner_id: 2, provider_user_id: "77".to_string(), state: "connected".to_string() };
    assert_eq!(check_target_account(Some(&account), &approval), Ok(()));
    assert_eq!(check_target_account(None, &approval), Err(LegacyTransitionError::TargetAccountNotFound));
    assert_eq!(check_current_identity("77", &account), Ok(()));
    assert_eq!(check_current_identity("78", &account), Err(LegacyTransitionError::CurrentIdentityMismatch));
    assert_eq!(check_locked_account(Some((2, "77", "connected")), 2, "77"), Ok(()));
    assert_eq!(check_locked_account(Some((3, "77", "connected")), 2, "77"), Err(LegacyTransitionError::InvalidOwnershipApproval));
    assert_eq!(check_locked_account(Some((2, "77", "revoked")), 2, "77"), Err(LegacyTransitionError::TargetAccountNotConnected));
    assert_eq!(check_locked_account(Some((2, "77", "connected")), 2, "70"), Err(LegacyTransitionError::CurrentIdentityMismatch));
    assert_eq!(check_locked_account(None, 2, "77"), Err(LegacyTransitionError::TargetAccountNotFound));
    assert_eq!(decision_name(ApprovalDecision::Approved), "approved");
    assert_eq!(review_state(ApprovalDecision::Rejected), "owner_review_required");
}

#[test]
fn identity_responses_are_bounded() {
    assert!(identity_scope_granted(&vec!["tweet.read".to_string(), "users.read".to_string()]));
    assert!(!identity_scope_granted(&vec!["tweet.read".to_string()]));
    assert!(identity_response_acceptable(true, Some(65_536)));
    assert!(!identity_response_acceptable(true, Some(65_537)));
    assert!(!identity_response_acceptable(false, None));
    assert!(identity_chunk_fits(65_000, 536));
    assert!(!identity_chunk_fits(65_000, 537));
    assert_eq!(provider_user_id_from(br#"{"data":{"id":"77","name":"x"}}"#), Ok("77".to_string()));
    assert_eq!(provider_user_id_from(br#" { "data" : { "id" : "7\u0037" } } "#), Ok("77".to_string()));
    assert_eq!(provider_user_id_from(br#"{"data":{"id":""}}"#), Err(LegacyTransitionError::CurrentIdentityUnavailable));
    assert_eq!(provider_user_id_from(br#"{"data":{"id":77}}"#), Err(LegacyTransitionError::CurrentIdentityUnavailable));
    assert_eq!(provider_user_id_from(b"not json"), Err(LegacyTransitionError::CurrentIdentityUnavailable));
}

#[test]
fn source_files_must_be_stable_and_bounded() {
    assert_eq!(check_source_metadata(true, 10, 10), Ok(()));
    assert_eq!(check_source_metadata(false, 1, 10), Err(LegacyTransitionError::SourceUnavailable));
    assert_eq!(check_source_metadata(true, 11, 10), Err(LegacyTransitionError::SourceTooLarge));
    assert_eq!(check_source_read(&vec![0; 11], 10), Err(LegacyTransitionError::SourceTooLarge));
    assert_eq!(check_source_stable(&vec![1, 2], &vec![1, 2]), Ok(()));
    assert_eq!(check_source_stable(&vec![1, 2], &vec![1, 3]), Err(LegacyTransitionError::SourceChanged));
    assert_eq!(check_source_stable(&vec![1], &vec![1, 2]), Err(LegacyTransitionError::SourceChanged));
}
