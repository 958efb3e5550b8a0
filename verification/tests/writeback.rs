use x_sync::time::Timestamp;
use x_sync::writeback::{
    admission_refusal_error, audit_ordinal, body_within_limit, bounded_request_id, classify_body,
    classify_status, classify_transport, consent_lifetime, consent_window, credential_scopes_ok,
    dry_run_gate_event, dry_run_outcome_token, dry_run_result, evaluate_local, has_required_scopes,
    parse_i64_exec, provider_failure_evidence, refusal_outcome, request_fingerprint,
    require_write_authority, stored_write_status, validate_idempotency_key,
    validate_provider_post_id, AdmissionFacts, BookmarkAction, BookmarkAdmissionRefusal,
    BookmarkDryRunOutcome, BookmarkProviderError, BookmarkProviderEvidence,
    BookmarkProviderSuccess, BookmarkWriteStatus, BookmarkWritebackError, BudgetError,
    ConsentSurfaceId, LocalAdmission,
};

fn ts(seconds: i64) -> Timestamp {
    Timestamp { seconds, nanos: 0 }
}

fn all_scopes() -> Vec<String> {
    ["users.read", "tweet.read", "bookmark.read", "offline.access", "bookmark.write"]
        .iter()
        .map(|s| s.to_string())
        .collect()
}

#[test]
fn bookmark_action_tokens() {
    assert_eq!(BookmarkAction::Add.as_str(), "add");
    assert_eq!(BookmarkAction::Remove.as_str(), "remove");
}

#[test]
fn consent_surface_accepts_bounded_lowercase_identifiers() {
    let id = ConsentSurfaceId::parse("web.settings_v2-a").unwrap();
    assert_eq!(id.as_str(), "web.settings_v2-a");
    assert!(ConsentSurfaceId::parse("9lives").is_ok());
}

#[test]
fn consent_surface_rejects_other_text() {
    for bad in ["", "Web", ".web", "web settings", &"a".repeat(65)] {
        assert_eq!(ConsentSurfaceId::parse(bad), Err(BookmarkWritebackError::InvalidSurface));
    }
    assert!(ConsentSurfaceId::parse(&"a".repeat(64)).is_ok());
}

#[test]
fn provider_post_ids_are_one_to_nineteen_digits() {
    assert_eq!(validate_provider_post_id("1234567890123456789"), Ok(()));
    assert_eq!(validate_provider_post_id("12345678901234567890"), Err(BookmarkWritebackError::InvalidTarget));
    assert_eq!(validate_provider_post_id(""), Err(BookmarkWritebackError::InvalidTarget));
    assert_eq!(validate_provider_post_id("12a"), Err(BookmarkWritebackError::InvalidTarget));
}

#[test]
fn idempotency_keys_are_one_to_256_bytes() {
    assert_eq!(validate_idempotency_key("k"), Ok(()));
    assert_eq!(validate_idempotency_key(&"é".repeat(128)), Ok(()));
    assert_eq!(validate_idempotency_key(""), Err(BookmarkWritebackError::InvalidIdempotencyKey));
    assert_eq!(validate_idempotency_key(&"é".repeat(129)), Err(BookmarkWritebackError::InvalidIdempotencyKey));
}

#[test]
fn stored_statuses_map_to_terminal_results() {
    assert_eq!(stored_write_status("succeeded"), Some(BookmarkWriteStatus::Succeeded));
    assert_eq!(stored_write_status("reconciled_succeeded"), Some(BookmarkWriteStatus::Succeeded));
    assert_eq!(stored_write_status("projection_pending"), Some(BookmarkWriteStatus::ProjectionPending));
    assert_eq!(stored_write_status("uncertain"), Some(BookmarkWriteStatus::Uncertain));
    assert_eq!(stored_write_status("reconciled_not_current"), Some(BookmarkWriteStatus::ReconciledNotCurrent));
    assert_eq!(stored_write_status("received"), None);
    assert_eq!(stored_write_status("provider_in_flight"), None);
}

#[test]
fn audit_ordinals_follow_the_operation_trail() {
    assert_eq!(audit_ordinal("request_received"), 1);
    assert_eq!(audit_ordinal("gate_refused"), 2);
    assert_eq!(audit_ordinal("provider_attempted"), 3);
    assert_eq!(audit_ordinal("provider_classified"), 4);
    assert_eq!(audit_ordinal("outcome_uncertain"), 5);
    assert_eq!(audit_ordinal("operation_completed"), 6);
    assert_eq!(audit_ordinal("idempotent_replay"), 7);
    assert_eq!(audit_ordinal("snapshot_reconciled"), 8);
    assert_eq!(audit_ordinal("consent_recorded"), 9);
}

#[test]
fn refusals_become_errors() {
    assert_eq!(
        admission_refusal_error(BookmarkAdmissionRefusal::ConsentRequired, None),
        BookmarkWritebackError::ConsentRequired
    );
    assert_eq!(
        admission_refusal_error(BookmarkAdmissionRefusal::BudgetExhausted, Some(ts(10))),
        BookmarkWritebackError::Budget(BudgetError::Exhausted { reset_at: ts(10) })
    );
    assert_eq!(
        admission_refusal_error(BookmarkAdmissionRefusal::BudgetExhausted, None),
        BookmarkWritebackError::InvalidBudgetEvidence
    );
    assert_eq!(refusal_outcome(BookmarkAdmissionRefusal::BudgetExhausted), ("budget_exhausted", "budget_refused"));
    assert_eq!(refusal_outcome(BookmarkAdmissionRefusal::OwnershipMismatch), ("ownership_mismatch", "gate_refused"));
}

#[test]
fn dry_run_tokens() {
    assert_eq!(dry_run_outcome_token(BookmarkDryRunOutcome::WouldSubmit(BookmarkAction::Remove)), "would_remove");
    assert_eq!(dry_run_outcome_token(BookmarkDryRunOutcome::WouldAlreadySatisfy(BookmarkAction::Add)), "already_added");
    assert_eq!(
        dry_run_outcome_token(BookmarkDryRunOutcome::WouldRefuse(BookmarkAdmissionRefusal::WriteScopeRequired)),
        "refused_scope"
    );
    assert_eq!(
        dry_run_gate_event(BookmarkDryRunOutcome::WouldRefuse(BookmarkAdmissionRefusal::BudgetExhausted)),
        "budget_refused"
    );
    assert_eq!(dry_run_gate_event(BookmarkDryRunOutcome::WouldSubmit(BookmarkAction::Add)), "gate_admitted");
}

#[test]
fn provider_failures_keep_their_evidence() {
    let evidence = BookmarkProviderEvidence { request_id: Some("req-1".to_string()) };
    let limited = BookmarkProviderError::RateLimited { reset_epoch_seconds: Some(1_700_000_000), evidence };
    assert_eq!(
        provider_failure_evidence(&limited),
        ("rate_limited", Some("req-1".to_string()), Some(ts(1_700_000_000)))
    );
    assert_eq!(provider_failure_evidence(&BookmarkProviderError::Transient), ("transient_before_contact", None, None));
}

#[test]
fn request_ids_are_bounded_tokens() {
    assert_eq!(bounded_request_id("abc-123:x.y_z"), Some("abc-123:x.y_z".to_string()));
    assert_eq!(bounded_request_id(""), None);
    assert_eq!(bounded_request_id("a b"), None);
    assert_eq!(bounded_request_id(&"a".repeat(129)), None);
}

#[test]
fn transport_failures_before_contact_are_transient() {
    assert_eq!(classify_transport(true, None), BookmarkProviderError::Transient);
    assert_eq!(
        classify_transport(false, Some(502)),
        BookmarkProviderError::Uncertain { status: Some(502), evidence: BookmarkProviderEvidence::default() }
    );
}

#[test]
fn statuses_classify_the_mutation() {
    let e = BookmarkProviderEvidence::default();
    assert_eq!(classify_status(200, None, e.clone()), None);
    assert_eq!(classify_status(403, None, e.clone()), Some(BookmarkProviderError::AuthorizationLost { evidence: e.clone() }));
    assert_eq!(
        classify_status(429, Some("1700000000"), e.clone()),
        Some(BookmarkProviderError::RateLimited { reset_epoch_seconds: Some(1_700_000_000), evidence: e.clone() })
    );
    assert_eq!(
        classify_status(429, Some("soon"), e.clone()),
        Some(BookmarkProviderError::RateLimited { reset_epoch_seconds: None, evidence: e.clone() })
    );
    assert_eq!(classify_status(404, None, e.clone()), Some(BookmarkProviderError::DefiniteRefusal { status: 404, evidence: e.clone() }));
    assert_eq!(classify_status(503, None, e.clone()), Some(BookmarkProviderError::Uncertain { status: Some(503), evidence: e }));
}

#[test]
fn integers_parse_like_str_parse() {
    assert_eq!(parse_i64_exec("-9223372036854775808"), Some(i64::MIN));
    assert_eq!(parse_i64_exec("9223372036854775807"), Some(i64::MAX));
    assert_eq!(parse_i64_exec("9223372036854775808"), None);
    assert_eq!(parse_i64_exec("+42"), Some(42));
    assert_eq!(parse_i64_exec("-"), None);
    assert_eq!(parse_i64_exec("4x"), None);
}

#[test]
fn bodies_must_confirm_the_requested_state() {
    let e = BookmarkProviderEvidence::default();
    let body = br#"{"data": {"bookmarked": true}}"#;
    assert_eq!(classify_body(200, body, true, e.clone()), Ok(BookmarkProviderSuccess { evidence: e.clone() }));
    assert_eq!(
        classify_body(200, body, false, e.clone()),
        Err(BookmarkProviderError::Uncertain { status: Some(200), evidence: e.clone() })
    );
    assert_eq!(
        classify_body(201, b"{", true, e.clone()),
        Err(BookmarkProviderError::Uncertain { status: Some(201), evidence: e })
    );
    assert!(body_within_limit(65_000, 536));
    assert!(!body_within_limit(65_000, 537));
}

#[test]
fn write_authority_needs_every_scope_on_both_grants() {
    let scopes = all_scopes();
    assert!(has_required_scopes(&scopes, &scopes));
    let read_only: Vec<String> = scopes[..4].to_vec();
    assert!(!has_required_scopes(&scopes, &read_only));
    assert_eq!(require_write_authority(Some(&scopes), Some(("active", &scopes))), Ok(()));
    assert_eq!(
        require_write_authority(Some(&scopes), Some(("active", &read_only))),
        Err(BookmarkWritebackError::WriteScopeRequired)
    );
    assert_eq!(
        require_write_authority(Some(&scopes), Some(("revoked", &scopes))),
        Err(BookmarkWritebackError::WriteAuthorizationRequired)
    );
    assert_eq!(require_write_authority(None, Some(("active", &scopes))), Err(BookmarkWritebackError::WriteAuthorizationRequired));
    assert_eq!(credential_scopes_ok(Some((&scopes, &scopes))), Ok(()));
    assert_eq!(credential_scopes_ok(None), Err(BookmarkProviderError::CredentialUnavailable));
    assert_eq!(credential_scopes_ok(Some((&read_only, &scopes))), Err(BookmarkProviderError::CredentialScopeRequired));
}

#[test]
fn request_fingerprint_frames_the_request() {
    assert_eq!(
        request_fingerprint(1, 2, BookmarkAction::Add, "123", 3, "live"),
        "8897e7e4d5c4adcfa5bee48a67f65fc029c8d3d054f4b7ca34827d3591d5d4fe"
    );
    assert_ne!(
        request_fingerprint(1, 2, BookmarkAction::Remove, "123", 3, "live"),
        request_fingerprint(1, 2, BookmarkAction::Add, "123", 3, "live")
    );
    // Each field is framed by its length: changing how bytes split across fields changes the fingerprint.
    assert_ne!(
        request_fingerprint(1, 2, BookmarkAction::Add, "12", 3, "live"),
        request_fingerprint(1, 2, BookmarkAction::Add, "123", 3, "ive")
    );
}

#[test]
fn consent_lifetime_must_be_positive() {
    assert_eq!(consent_lifetime(600), Ok(600));
    assert_eq!(consent_lifetime(0), Err(BookmarkWritebackError::InvalidApprovalInstant));
    assert_eq!(consent_lifetime(i64::MAX), Err(BookmarkWritebackError::InvalidApprovalInstant));
}

#[test]
fn consent_window_expires_after_the_lifetime() {
    let approved = ts(1_000);
    assert_eq!(consent_window("123", Some("connected"), approved, ts(1_100), 600), Ok(ts(1_600)));
    assert_eq!(
        consent_window("123", Some("connected"), approved, ts(1_600), 600),
        Err(BookmarkWritebackError::InvalidApprovalInstant)
    );
    assert_eq!(
        consent_window("123", Some("connected"), approved, ts(999), 600),
        Err(BookmarkWritebackError::InvalidApprovalInstant)
    );
    assert_eq!(consent_window("123", Some("paused"), approved, ts(1_100), 600), Err(BookmarkWritebackError::ConnectionInactive));
    assert_eq!(consent_window("123", None, approved, ts(1_100), 600), Err(BookmarkWritebackError::OwnershipMismatch));
    assert_eq!(consent_window("x", Some("connected"), approved, ts(1_100), 600), Err(BookmarkWritebackError::InvalidTarget));
}

fn facts(authority: Result<(), BookmarkWritebackError>, consent_live: bool) -> AdmissionFacts {
    AdmissionFacts {
        account_state: Some("connected".to_string()),
        authority,
        consent_live,
        observation: None,
        budget: (true, ts(5_000)),
    }
}

#[test]
fn local_admission_checks_gates_in_order() {
    assert_eq!(
        evaluate_local(BookmarkAction::Add, facts(Ok(()), true)),
        Ok(LocalAdmission::Admitted { budget_reset_at: ts(5_000) })
    );
    assert_eq!(
        evaluate_local(BookmarkAction::Add, facts(Err(BookmarkWritebackError::WriteScopeRequired), false)),
        Ok(LocalAdmission::Refused { class: BookmarkAdmissionRefusal::WriteScopeRequired, reset_at: None })
    );
    assert_eq!(
        evaluate_local(BookmarkAction::Add, facts(Err(BookmarkWritebackError::Query), true)),
        Err(BookmarkWritebackError::Query)
    );
    assert_eq!(
        evaluate_local(BookmarkAction::Add, facts(Ok(()), false)),
        Ok(LocalAdmission::Refused { class: BookmarkAdmissionRefusal::ConsentRequired, reset_at: None })
    );
    let mut saved = facts(Ok(()), true);
    saved.observation = Some((ts(7), None));
    assert_eq!(evaluate_local(BookmarkAction::Add, saved), Ok(LocalAdmission::AlreadySatisfied { observed_at: ts(7) }));
    let mut removed = facts(Ok(()), true);
    removed.observation = Some((ts(7), None));
    assert_eq!(
        evaluate_local(BookmarkAction::Remove, removed),
        Ok(LocalAdmission::Admitted { budget_reset_at: ts(5_000) })
    );
    let mut spent = facts(Ok(()), true);
    spent.budget = (false, ts(9_000));
    assert_eq!(
        evaluate_local(BookmarkAction::Add, spent),
        Ok(LocalAdmission::Refused { class: BookmarkAdmissionRefusal::BudgetExhausted, reset_at: Some(ts(9_000)) })
    );
    let mut foreign = facts(Ok(()), true);
    foreign.account_state = None;
    assert_eq!(
        evaluate_local(BookmarkAction::Add, foreign),
        Ok(LocalAdmission::Refused { class: BookmarkAdmissionRefusal::OwnershipMismatch, reset_at: None })
    );
}

#[test]
fn dry_runs_are_advisory() {
    let result = dry_run_result(BookmarkAction::Add, LocalAdmission::Admitted { budget_reset_at: ts(9) }, ts(3));
    assert_eq!(result.outcome, BookmarkDryRunOutcome::WouldSubmit(BookmarkAction::Add));
    assert_eq!(result.budget_reset_at, Some(ts(9)));
    assert!(result.advisory);
}
