use x_sync::compliance::{
    availability_outcome, compliance_reserved, evidence_effects, failure_token, post_availability,
    record_revalidation, removal_event, revalidation_evidence, start_compliance_run,
    ComplianceAvailability, ComplianceNext, ComplianceObservation, ComplianceRevalidationError,
    ComplianceRunSummary, ComplianceSourceError,
};
use x_sync::explicit_capture::{admit_capture, capture_target, status_id, ExplicitCaptureError, ExplicitCaptureRequest};
use x_sync::folders::{
    capability_limit_outcome, folder_capability_name, folder_outcome, folder_page_failure,
    folder_run_type, FolderMembershipSourceError, FolderSnapshotOutcome, NativeFolder,
};
use x_sync::incremental::{
    observe_page_ids, scan_gate, scan_page, scan_reserved, scheduled_scan, start_incremental_scan,
    ScanGate, ScanPage, ScanReservation, ScheduledScan, SCHEDULED_BOOKMARK_SCAN_COMMAND,
};
use x_sync::json::JsonValue;
use x_sync::knowledge::{
    check_completion_origin, check_completion_source, completion_admission,
    KnowledgeAnalysisAdmission, KnowledgeIntegrationError,
};
use x_sync::snapshot::{FolderCapability, PageFailure, RunOutcome, SnapshotError};
use x_sync::social_sources::{
    content_digest, plan_source_publication, stored_digest_matches, upstream_availability,
    SourceEventKind, SourceProvenance, SourcePublication, SourceRow,
};
use x_sync::time::Timestamp;
use x_sync::writeback::BudgetError;

const OWNER: u128 = 0x0123_4567_89ab_cdef_0123_4567_89ab_cdef;
const OWNER_TEXT: &str = "user:01234567-89ab-cdef-0123-456789abcdef";
const HEX: &str = "bb9a4e2965b71b9803306c3d679ccc4f0458c91a18bb717189c57b800c88d89a";

fn ts(seconds: i64) -> Timestamp {
    Timestamp { seconds, nanos: 0 }
}

fn row() -> SourceRow {
    SourceRow {
        internal_user_id: OWNER,
        existing_source_id: None,
        existing_digest: None,
        removed: false,
        provider_id: "1234".to_string(),
        text: "short".to_string(),
        long_text: Some("long body".to_string()),
        published_at: Some(ts(1_704_164_645)),
        availability: "active".to_string(),
        author_provider_id: "99".to_string(),
        author_username: Some("alice".to_string()),
        author_display_name: None,
        expanded_urls: vec!["https://example.com/a".to_string()],
    }
}

fn digest_value(hex: &str) -> JsonValue {
    JsonValue::Object(vec![
        ("algorithm".to_string(), JsonValue::Str("sha256".to_string())),
        ("hex".to_string(), JsonValue::Str(hex.to_string())),
    ])
}

#[test]
fn new_sources_are_captured_with_their_semantic_digest() {
    match plan_source_publication(row(), SourceProvenance::Bookmark, ts(1_704_164_700), 0xabc).unwrap() {
        SourcePublication::Publish(rev) => {
            assert_eq!(rev.source_id, 0xabc);
            assert_eq!(rev.event, SourceEventKind::Captured);
            assert_eq!(rev.digest_text, format!("{{\"algorithm\":\"sha256\",\"hex\":\"{HEX}\"}}"));
            assert_eq!(rev.aggregate, "social_source:00000000-0000-0000-0000-000000000abc");
            assert_eq!(rev.expanded_urls, vec!["https://example.com/a".to_string()]);
            let s = rev.snapshot;
            assert_eq!(s.owner, OWNER_TEXT);
            assert_eq!(s.text, "long body");
            assert_eq!(s.published_at.as_deref(), Some("2024-01-02T03:04:05Z"));
            assert_eq!(s.captured_at, "2024-01-02T03:05:00Z");
            assert_eq!(s.digest_hex, HEX);
            assert_eq!(s.handle.as_deref(), Some("alice"));
            assert_eq!(s.upstream_availability, "available");
            assert_eq!(s.provenance, SourceProvenance::Bookmark);
        }
        _ => panic!("expected a revision"),
    }
}

#[test]
fn unchanged_sources_publish_nothing() {
    let mut stored = row();
    stored.existing_source_id = Some(5);
    stored.existing_digest = Some(format!("{{\"hex\": \"{HEX}\", \"algorithm\": \"sha256\"}}"));
    assert!(matches!(
        plan_source_publication(stored, SourceProvenance::Bookmark, ts(1), 0xabc),
        Ok(SourcePublication::Unchanged)
    ));
}

#[test]
fn changed_sources_update_the_existing_source() {
    let mut stored = row();
    stored.existing_source_id = Some(5);
    stored.existing_digest = Some("{\"algorithm\":\"sha256\",\"hex\":\"00\"}".to_string());
    match plan_source_publication(stored, SourceProvenance::Explicit, ts(1), 0xabc).unwrap() {
        SourcePublication::Publish(rev) => {
            assert_eq!(rev.source_id, 5);
            assert_eq!(rev.event, SourceEventKind::Updated);
            assert_ne!(rev.snapshot.digest_hex, HEX);
            assert_eq!(rev.snapshot.provenance.acquisition(), "browser_extension");
        }
        _ => panic!("expected a revision"),
    }
}

#[test]
fn removed_sources_are_never_republished() {
    let mut gone = row();
    gone.removed = true;
    assert!(matches!(plan_source_publication(gone, SourceProvenance::Bookmark, ts(1), 1), Ok(SourcePublication::Removed)));
}

#[test]
fn unwritable_instants_are_contract_errors() {
    let mut odd = row();
    odd.published_at = Some(ts(i64::MAX));
    assert!(matches!(plan_source_publication(odd, SourceProvenance::Bookmark, ts(1), 1), Err(SnapshotError::Contract)));
}

#[test]
fn digest_documents() {
    assert_eq!(content_digest("ab"), "{\"algorithm\":\"sha256\",\"hex\":\"ab\"}");
    assert!(stored_digest_matches(&Some(digest_value("ab")), "ab"));
    assert!(!stored_digest_matches(&Some(digest_value("ab")), "cd"));
    assert!(!stored_digest_matches(&None, "ab"));
    assert!(!stored_digest_matches(&Some(JsonValue::Str("ab".to_string())), "ab"));
    assert_eq!(upstream_availability("active"), "available");
    assert_eq!(upstream_availability("deleted"), "deleted_upstream");
    assert_eq!(upstream_availability("protected"), "unavailable");
    assert_eq!(SourceProvenance::Bookmark.saved_authority(), "authoritative_platform_state");
    assert_eq!(SourceProvenance::Explicit.saved_authority(), "explicit_user_capture");
}

#[test]
fn knowledge_completions_must_come_from_knowledge_for_the_owner() {
    assert_eq!(check_completion_origin("ratatoskr-knowledge", Some("user:1"), "user:1"), Ok(()));
    assert_eq!(
        check_completion_origin("ratatoskr-extractor", Some("user:1"), "user:1"),
        Err(KnowledgeIntegrationError::InvalidCompletion)
    );
    assert_eq!(
        check_completion_origin("ratatoskr-knowledge", None, "user:1"),
        Err(KnowledgeIntegrationError::InvalidCompletion)
    );
    assert_eq!(check_completion_source(OWNER_TEXT, Some((OWNER, false))), Ok(()));
    assert_eq!(check_completion_source(OWNER_TEXT, Some((OWNER, true))), Err(KnowledgeIntegrationError::InvalidCompletion));
    assert_eq!(check_completion_source("user:x", Some((OWNER, false))), Err(KnowledgeIntegrationError::InvalidCompletion));
    assert_eq!(check_completion_source(OWNER_TEXT, None), Err(KnowledgeIntegrationError::InvalidCompletion));
}

#[test]
fn knowledge_admissions() {
    let current = digest_value("aa");
    let old = digest_value("bb");
    assert_eq!(completion_admission(true, true, &current, &digest_value("aa")), KnowledgeAnalysisAdmission::LinkedCurrent);
    assert_eq!(completion_admission(true, true, &current, &old), KnowledgeAnalysisAdmission::LinkedHistorical);
    assert_eq!(completion_admission(true, false, &current, &current), KnowledgeAnalysisAdmission::Duplicate);
    assert_eq!(completion_admission(false, true, &current, &current), KnowledgeAnalysisAdmission::Duplicate);
}

#[test]
fn status_ids_come_from_x_status_permalinks() {
    assert_eq!(status_id("https://x.com/alice/status/12345?s=20").as_deref(), Some("12345"));
    assert_eq!(status_id("https://www.x.com/i/web/status/678#reply").as_deref(), Some("678"));
    assert_eq!(status_id("https://twitter.com/alice/status/12345"), None);
    assert_eq!(status_id("https://x.com/alice/status/"), None);
    assert_eq!(status_id("https://x.com/alice/status/12a"), None);
    assert_eq!(status_id("x.com/alice/status/1"), None);
}

fn capture_request() -> ExplicitCaptureRequest {
    ExplicitCaptureRequest {
        provider_is_x: true,
        by_browser_extension: true,
        explicit_user_capture: true,
        original_permalink: "https://x.com/a/status/42".to_string(),
        captured_at: "1970-01-01T00:00:09Z".to_string(),
        tenant_id: Some(OWNER_TEXT.to_string()),
    }
}

#[test]
fn explicit_captures_are_admitted_for_the_account_owner() {
    assert_eq!(admit_capture(&capture_request(), Some(OWNER)), Ok(("42".to_string(), ts(9))));
    let mut foreign = capture_request();
    foreign.provider_is_x = false;
    assert_eq!(admit_capture(&foreign, Some(OWNER)), Err(ExplicitCaptureError::Refused));
    assert_eq!(admit_capture(&capture_request(), None), Err(ExplicitCaptureError::AccountUnavailable));
    assert_eq!(admit_capture(&capture_request(), Some(7)), Err(ExplicitCaptureError::TenantMismatch));
    let mut bad_link = capture_request();
    bad_link.original_permalink = "https://example.com/a/status/42".to_string();
    assert_eq!(admit_capture(&bad_link, Some(OWNER)), Err(ExplicitCaptureError::Refused));
    let mut bad_time = capture_request();
    bad_time.captured_at = "yesterday".to_string();
    assert_eq!(admit_capture(&bad_time, Some(OWNER)), Err(ExplicitCaptureError::Refused));
    let mut offset_time = capture_request();
    offset_time.captured_at = "1970-01-01 01:00:09+01:00".to_string();
    assert_eq!(admit_capture(&offset_time, Some(OWNER)), Ok(("42".to_string(), ts(9))));
    assert_eq!(capture_target(false, None), Ok(None));
    assert_eq!(capture_target(true, Some(3)), Ok(Some(3)));
    assert_eq!(capture_target(true, None), Err(ExplicitCaptureError::PostUnavailable));
}

#[test]
fn scheduled_commands_select_safe_work() {
    assert_eq!(SCHEDULED_BOOKMARK_SCAN_COMMAND, "x.bookmarks.scan_requested.v1");
    assert_eq!(scheduled_scan("x.bookmarks.scan_requested.v1", false), Ok(ScheduledScan::Incremental));
    assert_eq!(scheduled_scan("x.bookmarks.scan_requested.v1", true), Ok(ScheduledScan::FullSnapshot));
    assert_eq!(scheduled_scan("x.bookmarks.sync_requested.v1", false), Err(SnapshotError::RunUnavailable));
}

#[test]
fn incremental_scans_stop_at_their_caps() {
    assert!(start_incremental_scan(1, None, true, 2, 2).is_err());
    let mut scan = start_incremental_scan(1, Some("10".to_string()), false, 2, 3).unwrap();
    assert_eq!(scan_gate(&scan), ScanGate::Reserve);
    assert_eq!(scan_reserved(&mut scan, Ok(())), ScanReservation::Fetch);
    let mut newest = None;
    let ids = vec!["30".to_string(), "20".to_string()];
    let reached = observe_page_ids(&mut newest, &ids, &scan.watermark);
    assert!(!reached);
    scan.newest = newest;
    assert!(matches!(scan_page(&mut scan, reached, Some("c1".to_string())), ScanPage::Continue));
    assert_eq!(scan_reserved(&mut scan, Ok(())), ScanReservation::Fetch);
    assert!(matches!(scan_page(&mut scan, false, Some("c2".to_string())), ScanPage::Continue));
    assert_eq!(scan_gate(&scan), ScanGate::Gap);
    assert_eq!(scan.newest.as_deref(), Some("30"));
}

#[test]
fn incremental_scans_complete_at_the_watermark() {
    let mut scan = start_incremental_scan(1, Some("20".to_string()), false, 5, 5).unwrap();
    assert_eq!(scan_reserved(&mut scan, Ok(())), ScanReservation::Fetch);
    let mut newest = None;
    let reached = observe_page_ids(&mut newest, &vec!["30".to_string(), "20".to_string()], &scan.watermark);
    assert!(reached);
    scan.newest = newest;
    match scan_page(&mut scan, reached, Some("more".to_string())) {
        ScanPage::Complete(watermark) => assert_eq!(watermark.as_deref(), Some("30")),
        _ => panic!("expected completion"),
    }
    let mut ended = start_incremental_scan(2, Some("20".to_string()), false, 5, 5).unwrap();
    assert_eq!(scan_reserved(&mut ended, Err(BudgetError::Exhausted { reset_at: ts(1) })), ScanReservation::BudgetExhausted);
    assert_eq!(scan_reserved(&mut ended, Ok(())), ScanReservation::Fetch);
    assert!(matches!(scan_page(&mut ended, false, None), ScanPage::Fail(SnapshotError::RunUnavailable)));
    let capped = start_incremental_scan(3, None, false, 5, 0).unwrap();
    assert_eq!(scan_gate(&capped), ScanGate::RequestCap);
    let mut failing = start_incremental_scan(4, None, false, 5, 1).unwrap();
    assert_eq!(
        scan_reserved(&mut failing, Err(BudgetError::Unavailable)),
        ScanReservation::Fail(SnapshotError::Budget(BudgetError::Unavailable))
    );
}

#[test]
fn folders_and_capability_limits() {
    let folder = NativeFolder::new("f1".to_string(), Some("Reading".to_string()));
    assert_eq!(folder.provider_id(), "f1");
    assert_eq!(folder.name(), Some("Reading"));
    assert_eq!(folder_capability_name(FolderCapability::Listing), "listing");
    assert_eq!(folder_capability_name(FolderCapability::Membership), "membership");
    assert_eq!(folder_run_type(FolderCapability::Listing), "folder_listing");
    assert_eq!(folder_run_type(FolderCapability::Membership), "folder_membership");
    assert_eq!(
        folder_page_failure(FolderMembershipSourceError::CapabilityLimited { capability: FolderCapability::Membership }),
        PageFailure::CapabilityLimited(FolderCapability::Membership)
    );
    assert_eq!(
        folder_outcome(RunOutcome::CapabilityLimited { run_id: 4, capability: FolderCapability::Listing }),
        FolderSnapshotOutcome::CapabilityLimited { run_id: 4, capability: FolderCapability::Listing }
    );
    assert_eq!(
        capability_limit_outcome(4, FolderCapability::Listing),
        FolderSnapshotOutcome::CapabilityLimited { run_id: 4, capability: FolderCapability::Listing }
    );
    assert_eq!(
        FolderMembershipSourceError::Unavailable.message(),
        "the folder membership provider did not return a page"
    );
}

#[test]
fn compliance_evidence_and_takedowns() {
    let observed = revalidation_evidence(Ok(ComplianceObservation {
        availability: ComplianceAvailability::Deleted,
        provider_request_id: Some("r1".to_string()),
    }));
    assert_eq!(observed.outcome, "deleted");
    assert_eq!(observed.provider_request_id.as_deref(), Some("r1"));
    assert_eq!(evidence_effects(&observed), (Some("deleted"), true));
    let available = revalidation_evidence(Ok(ComplianceObservation {
        availability: ComplianceAvailability::Available,
        provider_request_id: None,
    }));
    assert_eq!(evidence_effects(&available), (Some("active"), false));
    let failed = revalidation_evidence(Err(ComplianceSourceError::RateLimited));
    assert_eq!(failed.outcome, "indeterminate");
    assert_eq!(failed.failure_class, Some("rate_limited"));
    assert_eq!(evidence_effects(&failed), (None, false));
    assert_eq!(post_availability(ComplianceAvailability::AuthorSuspended), "author_suspended");
    assert_eq!(availability_outcome(ComplianceAvailability::Available), "available");
    assert_eq!(failure_token(ComplianceSourceError::InvalidEvidence), "invalid_evidence");
}

#[test]
fn compliance_runs_count_checks_and_stop_on_budget() {
    let mut run = start_compliance_run(2);
    assert_eq!(run.summary, ComplianceRunSummary::default());
    assert_eq!(compliance_reserved(&mut run, Ok(())), ComplianceNext::Revalidate);
    record_revalidation(&mut run, true);
    assert_eq!(compliance_reserved(&mut run, Err(BudgetError::Exhausted { reset_at: ts(1) })), ComplianceNext::Stop);
    assert_eq!(run.summary, ComplianceRunSummary { checked: 1, takedowns: 1, budget_exhausted: true });
    assert_eq!(
        compliance_reserved(&mut run, Err(BudgetError::Unavailable)),
        ComplianceNext::Fail(ComplianceRevalidationError::Budget(BudgetError::Unavailable))
    );
}

#[test]
fn removal_events_name_the_source_and_ledger_entry() {
    let event = removal_event(0xabc, OWNER, 0xdef, ts(1_704_164_645)).unwrap();
    assert_eq!(event.owner, OWNER_TEXT);
    assert_eq!(event.reason, "retention_policy");
    assert_eq!(event.removed_at, "2024-01-02T03:04:05Z");
    assert_eq!(event.aggregate, "social_source:00000000-0000-0000-0000-000000000abc");
    assert_eq!(event.causation, "compliance_revalidation:00000000-0000-0000-0000-000000000def");
    assert!(matches!(removal_event(1, 2, 3, ts(i64::MAX)), Err(ComplianceRevalidationError::Contract)));
}

#[test]
fn a_stored_revision_makes_the_next_publication_unchanged() {
    let first = match plan_source_publication(row(), SourceProvenance::Bookmark, ts(1), 0xabc).unwrap() {
        SourcePublication::Publish(rev) => rev,
        _ => panic!("expected a revision"),
    };
    let mut again = row();
    again.existing_source_id = Some(first.source_id);
    again.existing_digest = Some(first.digest_text.clone());
    assert!(matches!(
        plan_source_publication(again, SourceProvenance::Bookmark, ts(2), 0xdef),
        Ok(SourcePublication::Unchanged)
    ));
    let mut unreadable = row();
    unreadable.existing_digest = Some("{".to_string());
    assert!(matches!(
        plan_source_publication(unreadable, SourceProvenance::Bookmark, ts(2), 0xdef),
        Ok(SourcePublication::Publish(_))
    ));
}

