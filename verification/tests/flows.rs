use x_sync::snapshot::{
    finalization_allowed, page_item_count, reconciliation_statistics, resume_run, run_step,
    snapshot_outcome, BookmarkSourceError, PageFailure, PagedRun, ReconciliationStatistics,
    RunAction, RunEvent, RunOutcome, RunPhase, SnapshotError, SnapshotOutcome,
};
use x_sync::time::Timestamp;
use x_sync::writeback::{
    BookmarkAction, BookmarkAdmissionRefusal, BookmarkProviderError, BookmarkProviderEvidence,
    BookmarkProviderSuccess, BookmarkWriteResult, BookmarkWriteStatus, BookmarkWritebackError,
    BudgetError, LocalAdmission,
};
use x_sync::writeback_flow::{
    after_refund, claim_outcome, confirmed_completion, confirmed_tokens, consent_next,
    dry_run_operation, execute_step, validate_write_request, wait_next, ClaimAudit, ConsentNext,
    ConsentStep, ExecuteAction, ExecuteEvent, ExecutePhase, OperationClaim, WaitNext, MAX_POLLS,
};

fn ts(seconds: i64) -> Timestamp {
    Timestamp { seconds, nanos: 0 }
}

#[test]
fn write_requests_are_validated_target_first() {
    assert_eq!(validate_write_request("12", "key"), Ok(()));
    assert_eq!(validate_write_request("x", ""), Err(BookmarkWritebackError::InvalidTarget));
    assert_eq!(validate_write_request("12", ""), Err(BookmarkWritebackError::InvalidIdempotencyKey));
}

#[test]
fn claims_execute_replay_or_conflict() {
    let (claim, audit) = claim_outcome(Some(7), None, "fp");
    assert_eq!(claim, Ok(OperationClaim::Execute(7)));
    assert_eq!(audit, Some(ClaimAudit::RequestReceived(7)));
    assert_eq!(audit.unwrap().event(), (7, "request_received"));

    let (claim, audit) = claim_outcome(None, Some((7, "other", "succeeded")), "fp");
    assert_eq!(claim, Err(BookmarkWritebackError::IdempotencyConflict));
    assert_eq!(audit.unwrap().event(), (7, "idempotency_conflict"));

    let (claim, audit) = claim_outcome(None, Some((7, "fp", "uncertain")), "fp");
    assert_eq!(
        claim,
        Ok(OperationClaim::Replay(BookmarkWriteResult { operation_id: 7, status: BookmarkWriteStatus::Uncertain }))
    );
    assert_eq!(audit, Some(ClaimAudit::IdempotentReplay(7)));

    let (claim, audit) = claim_outcome(None, Some((7, "fp", "provider_in_flight")), "fp");
    assert_eq!(claim, Ok(OperationClaim::InProgress(7)));
    assert_eq!(audit, None);

    assert_eq!(claim_outcome(None, None, "fp").0, Err(BookmarkWritebackError::Query));
    assert_eq!(dry_run_operation(OperationClaim::InProgress(7)), Err(BookmarkWritebackError::OperationInProgress));
    assert_eq!(dry_run_operation(OperationClaim::Execute(8)), Ok(8));
}

#[test]
fn waiting_polls_a_bounded_number_of_times() {
    assert_eq!(MAX_POLLS, 500);
    assert_eq!(wait_next(3, 0, Some("received")), WaitNext::PollAgain);
    assert_eq!(wait_next(3, 498, None), WaitNext::PollAgain);
    assert_eq!(wait_next(3, 499, None), WaitNext::GiveUp);
    assert_eq!(
        wait_next(3, 499, Some("succeeded")),
        WaitNext::Replay(BookmarkWriteResult { operation_id: 3, status: BookmarkWriteStatus::Succeeded })
    );
}

#[test]
fn consent_consumption_refunds_every_failure() {
    assert!(matches!(consent_next(ConsentStep::Begin, Ok(true)), ConsentNext::Continue(ConsentStep::Lock)));
    assert!(matches!(
        consent_next(ConsentStep::Lock, Ok(false)),
        ConsentNext::RefundThenFail(BookmarkWritebackError::ConsentRequired)
    ));
    assert!(matches!(
        consent_next(ConsentStep::MarkInFlight, Err(())),
        ConsentNext::RefundThenFail(BookmarkWritebackError::Query)
    ));
    assert!(matches!(consent_next(ConsentStep::Commit, Ok(true)), ConsentNext::Consumed));
    assert_eq!(after_refund(BookmarkWritebackError::ConsentRequired, Ok(())), BookmarkWritebackError::ConsentRequired);
    assert_eq!(
        after_refund(BookmarkWritebackError::ConsentRequired, Err(BudgetError::Unavailable)),
        BookmarkWritebackError::Budget(BudgetError::Unavailable)
    );
}

#[test]
fn confirmed_completion_depends_on_the_projection() {
    let done = confirmed_completion(true, ts(4));
    assert_eq!(done.status, BookmarkWriteStatus::Succeeded);
    assert_eq!(done.projection_observed_at, Some(ts(4)));
    let pending = confirmed_completion(false, ts(4));
    assert_eq!(pending.status, BookmarkWriteStatus::ProjectionPending);
    assert_eq!(pending.projection_observed_at, None);
    assert_eq!(confirmed_tokens(BookmarkWriteStatus::Succeeded), ("succeeded", "updated"));
    assert_eq!(confirmed_tokens(BookmarkWriteStatus::ProjectionPending), ("projection_pending", "pending"));
}

#[test]
fn execution_calls_the_provider_only_after_consent() {
    let action = BookmarkAction::Add;
    let (phase, next) = execute_step(ExecutePhase::Claiming, action, ExecuteEvent::Claimed(Ok(OperationClaim::Execute(5)))).unwrap();
    assert!(matches!(next, ExecuteAction::EvaluateLocal { operation_id: 5 }));
    let (phase, next) = execute_step(
        phase,
        action,
        ExecuteEvent::Admission(Ok(LocalAdmission::Admitted { budget_reset_at: ts(1) })),
    )
    .unwrap();
    assert!(matches!(next, ExecuteAction::ReserveBudget));
    // Answering the wrong step is refused.
    assert!(execute_step(ExecutePhase::Reserving { operation_id: 5 }, action, ExecuteEvent::Recorded(Ok(()))).is_none());
    let (phase, next) = execute_step(phase, action, ExecuteEvent::Reserved(Ok(()))).unwrap();
    assert!(matches!(next, ExecuteAction::ConsumeConsent { operation_id: 5 }));
    let (phase, next) = execute_step(phase, action, ExecuteEvent::ConsentConsumed(Ok(()))).unwrap();
    assert!(matches!(next, ExecuteAction::CallProvider { action: BookmarkAction::Add }));
    let success = BookmarkProviderSuccess { evidence: BookmarkProviderEvidence { request_id: Some("r".to_string()) } };
    let (phase, next) = execute_step(phase, action, ExecuteEvent::ProviderReturned(Ok(success))).unwrap();
    assert!(matches!(next, ExecuteAction::CompleteConfirmed { operation_id: 5, .. }));
    let (_, next) = execute_step(phase, action, ExecuteEvent::Confirmed(Ok(BookmarkWriteStatus::Succeeded))).unwrap();
    match next {
        ExecuteAction::Finish(result) => {
            assert_eq!(result, Ok(BookmarkWriteResult { operation_id: 5, status: BookmarkWriteStatus::Succeeded }))
        }
        _ => panic!("expected the result"),
    }
}

#[test]
fn refusals_are_recorded_then_reported() {
    let action = BookmarkAction::Remove;
    let (phase, next) = execute_step(
        ExecutePhase::Admitting { operation_id: 9 },
        action,
        ExecuteEvent::Admission(Ok(LocalAdmission::Refused {
            class: BookmarkAdmissionRefusal::ConsentRequired,
            reset_at: None,
        })),
    )
    .unwrap();
    assert!(matches!(
        next,
        ExecuteAction::RefuseOperation { operation_id: 9, class: BookmarkAdmissionRefusal::ConsentRequired, reset_at: None }
    ));
    let (_, next) = execute_step(phase, action, ExecuteEvent::Recorded(Ok(()))).unwrap();
    match next {
        ExecuteAction::Finish(result) => assert_eq!(result, Err(BookmarkWritebackError::ConsentRequired)),
        _ => panic!("expected the refusal"),
    }
}

#[test]
fn spent_budgets_are_recorded_as_refusals() {
    let (phase, next) = execute_step(
        ExecutePhase::Reserving { operation_id: 2 },
        BookmarkAction::Add,
        ExecuteEvent::Reserved(Err(BudgetError::Exhausted { reset_at: ts(60) })),
    )
    .unwrap();
    assert!(matches!(
        next,
        ExecuteAction::RefuseOperation { class: BookmarkAdmissionRefusal::BudgetExhausted, reset_at: Some(_), .. }
    ));
    let (_, next) = execute_step(phase, BookmarkAction::Add, ExecuteEvent::Recorded(Ok(()))).unwrap();
    match next {
        ExecuteAction::Finish(result) => {
            assert_eq!(result, Err(BookmarkWritebackError::Budget(BudgetError::Exhausted { reset_at: ts(60) })))
        }
        _ => panic!("expected the budget error"),
    }
}

#[test]
fn provider_failures_are_recorded_with_the_error() {
    let failure = BookmarkProviderError::DefiniteRefusal { status: 404, evidence: BookmarkProviderEvidence::default() };
    let (phase, next) = execute_step(
        ExecutePhase::AwaitingProvider { operation_id: 4 },
        BookmarkAction::Add,
        ExecuteEvent::ProviderReturned(Err(failure.clone())),
    )
    .unwrap();
    match next {
        ExecuteAction::CompleteProviderFailure { operation_id, error } => {
            assert_eq!(operation_id, 4);
            assert_eq!(error, failure);
        }
        _ => panic!("expected the failure record"),
    }
    let (_, next) = execute_step(phase, BookmarkAction::Add, ExecuteEvent::Recorded(Ok(()))).unwrap();
    match next {
        ExecuteAction::Finish(result) => assert_eq!(result, Err(BookmarkWritebackError::Provider(failure))),
        _ => panic!("expected the provider error"),
    }
    let uncertain = BookmarkProviderError::Uncertain { status: None, evidence: BookmarkProviderEvidence::default() };
    let (_, next) = execute_step(
        ExecutePhase::AwaitingProvider { operation_id: 4 },
        BookmarkAction::Add,
        ExecuteEvent::ProviderReturned(Err(uncertain)),
    )
    .unwrap();
    assert!(matches!(next, ExecuteAction::CompleteUncertain { operation_id: 4, .. }));
}

#[test]
fn replays_return_the_stored_result() {
    let stored = BookmarkWriteResult { operation_id: 1, status: BookmarkWriteStatus::ProjectionPending };
    let (_, next) = execute_step(
        ExecutePhase::Claiming,
        BookmarkAction::Add,
        ExecuteEvent::Claimed(Ok(OperationClaim::Replay(stored))),
    )
    .unwrap();
    match next {
        ExecuteAction::Finish(result) => assert_eq!(result, Ok(stored)),
        _ => panic!("expected the replay"),
    }
}

#[test]
fn snapshot_runs_complete_only_after_the_last_page() {
    let mut run = PagedRun { run_id: 1, snapshot_id: 2, checkpoint: None };
    let (phase, action) = run_step(&mut run, RunPhase::Reserving, RunEvent::Reserved(Ok(()))).unwrap();
    assert!(matches!(action, RunAction::FetchPage { continuation: None }));
    let (phase, action) = run_step(&mut run, phase, RunEvent::Fetched(Ok(Some("next".to_string())))).unwrap();
    assert!(matches!(action, RunAction::StagePage));
    let (phase, action) = run_step(&mut run, phase, RunEvent::Staged(Ok(()))).unwrap();
    assert!(matches!(action, RunAction::ReserveBudget));
    assert_eq!(run.checkpoint.as_deref(), Some("next"));
    let (phase, action) = run_step(&mut run, phase, RunEvent::Reserved(Ok(()))).unwrap();
    match action {
        RunAction::FetchPage { continuation } => assert_eq!(continuation.as_deref(), Some("next")),
        _ => panic!("expected a fetch"),
    }
    let (phase, _) = run_step(&mut run, phase, RunEvent::Fetched(Ok(None))).unwrap();
    let (phase, action) = run_step(&mut run, phase, RunEvent::Staged(Ok(()))).unwrap();
    assert!(matches!(action, RunAction::CompleteRun));
    let (_, action) = run_step(&mut run, phase, RunEvent::Completed(Ok(()))).unwrap();
    match action {
        RunAction::Finish(Ok(outcome)) => {
            assert_eq!(outcome, RunOutcome::Completed { run_id: 1, snapshot_id: 2 });
            assert_eq!(snapshot_outcome(outcome), SnapshotOutcome::Completed { run_id: 1, snapshot_id: 2 });
        }
        _ => panic!("expected completion"),
    }
}

#[test]
fn snapshot_runs_stay_incomplete_when_the_budget_is_spent() {
    let mut run = PagedRun { run_id: 1, snapshot_id: 2, checkpoint: Some("cp".to_string()) };
    let (phase, action) = run_step(
        &mut run,
        RunPhase::Reserving,
        RunEvent::Reserved(Err(BudgetError::Exhausted { reset_at: ts(1) })),
    )
    .unwrap();
    assert!(matches!(action, RunAction::MarkFailed));
    let (_, action) = run_step(&mut run, phase, RunEvent::MarkedFailed(Ok(()))).unwrap();
    assert!(matches!(action, RunAction::Finish(Ok(RunOutcome::Incomplete { run_id: 1 }))));
    assert_eq!(run.checkpoint.as_deref(), Some("cp"));
    let (phase, _) = run_step(&mut run, RunPhase::Fetching, RunEvent::Fetched(Err(PageFailure::Unavailable))).unwrap();
    let (_, action) = run_step(&mut run, phase, RunEvent::MarkedFailed(Err(SnapshotError::Query))).unwrap();
    assert!(matches!(action, RunAction::Finish(Err(SnapshotError::Query))));
}

#[test]
fn snapshot_support_rules() {
    assert_eq!(finalization_allowed(Some((false, "running"))), Ok(()));
    assert_eq!(finalization_allowed(Some((true, "running"))), Err(SnapshotError::RunUnavailable));
    assert_eq!(finalization_allowed(Some((false, "failed"))), Err(SnapshotError::RunUnavailable));
    assert_eq!(finalization_allowed(None), Err(SnapshotError::RunUnavailable));
    assert_eq!(
        reconciliation_statistics(1, 2, 3),
        Ok(ReconciliationStatistics { added: 1, retained: 2, removed: 3 })
    );
    assert_eq!(reconciliation_statistics(1, 2, 1 << 31), Err(SnapshotError::StatisticsOverflow));
    assert_eq!(reconciliation_statistics(i64::from(i32::MAX) + 1, 0, 0), Err(SnapshotError::StatisticsOverflow));
    assert_eq!(page_item_count(7), Ok(7));
    assert_eq!(page_item_count(1 << 31), Err(SnapshotError::StatisticsOverflow));
    assert!(resume_run(1, None).is_err());
    let run = resume_run(1, Some((2, Some("cp".to_string())))).unwrap();
    assert_eq!((run.run_id, run.snapshot_id, run.checkpoint.as_deref()), (1, 2, Some("cp")));
    assert_eq!(BookmarkSourceError::Unavailable.message(), "the bookmark provider did not return a page");
}
