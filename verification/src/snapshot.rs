//! Complete bookmark snapshots: the page loop that stages official pages under
//! the durable budget, and the rules that turn a finished snapshot into
//! account authority.

use vstd::prelude::*;
use crate::writeback::BudgetError;
use crate::json::str_eq;

verus! {

/// A non-sensitive source failure that leaves the snapshot resumable.
#[derive(Debug, Clone, Copy, PartialEq, Eq, Structural)]
pub enum BookmarkSourceError {
    /// The provider did not return the requested page.
    Unavailable,
}

impl BookmarkSourceError {
    /// The error's display text.
    pub fn message(&self) -> (r: &'static str)
        ensures
            r@ == "the bookmark provider did not return a page"@,
    {
        "the bookmark provider did not return a page"
    }
}

/// The terminal result of one snapshot attempt.
#[derive(Debug, Clone, Copy, PartialEq, Eq, Structural)]
pub enum SnapshotOutcome {
    /// The run has a durable checkpoint but is not authoritative.
    Incomplete { run_id: u128 },
    /// A complete snapshot atomically became current account authority.
    Completed { run_id: u128, snapshot_id: u128 },
}

/// Failures that prevent the snapshot runner from recording an outcome.
#[derive(Debug, Clone, Copy, PartialEq, Eq, Structural)]
pub enum SnapshotError {
    /// The source run is not resumable for the supplied account.
    RunUnavailable,
    /// A durable budget operation failed unexpectedly.
    Budget(BudgetError),
    /// The official provider payload could not be normalized.
    Normalize,
    /// A database query failed.
    Query,
    /// A normalized post did not have its required normalized author row.
    PersistedAuthorMissing,
    /// A database count cannot fit in the schema's bounded integer statistics fields.
    StatisticsOverflow,
    /// A shared contract document could not be built.
    Contract,
}

// ---------------------------------------------------------------------------
// The paged run.
// ---------------------------------------------------------------------------

/// A provider capability a folder source can lack.
#[derive(Debug, Clone, Copy, PartialEq, Eq, Structural)]
pub enum FolderCapability {
    /// The provider cannot enumerate native bookmark folders.
    Listing,
    /// The provider cannot enumerate a native folder's post membership.
    Membership,
}

/// Why a page source returned no page.
#[derive(Debug, Clone, Copy, PartialEq, Eq, Structural)]
pub enum PageFailure {
    /// The provider did not return the requested page; the run stays resumable.
    Unavailable,
    /// The provider does not expose the capability.
    CapabilityLimited(FolderCapability),
}

/// A run that stages provider pages under a snapshot.
pub struct PagedRun {
    pub run_id: u128,
    pub snapshot_id: u128,
    /// The continuation of the next page; `None` before the first page.
    pub checkpoint: Option<String>,
}

/// How a paged run ended.
#[derive(Debug, Clone, Copy, PartialEq, Eq, Structural)]
pub enum RunOutcome {
    /// The run keeps its checkpoint and has no authority.
    Incomplete { run_id: u128 },
    /// The complete snapshot became current authority.
    Completed { run_id: u128, snapshot_id: u128 },
    /// A provider capability limit ended the run; authority is unchanged.
    CapabilityLimited { run_id: u128, capability: FolderCapability },
}

/// Where a paged run stands.
pub enum RunPhase {
    /// Waiting for one budget unit.
    Reserving,
    /// Waiting for the page named by the checkpoint.
    Fetching,
    /// Waiting for the fetched page to be staged; its continuation.
    Staging { next_token: Option<String> },
    /// Waiting for the complete snapshot to become authority.
    Completing,
    /// Waiting for the run to be marked failed (or capability-limited); then the result.
    Failing { result: Result<RunOutcome, SnapshotError> },
    Done,
}

/// What the service learned from its step.
pub enum RunEvent {
    Reserved(Result<(), BudgetError>),
    /// The page's continuation, or why no page came.
    Fetched(Result<Option<String>, PageFailure>),
    Staged(Result<(), SnapshotError>),
    Completed(Result<(), SnapshotError>),
    MarkedFailed(Result<(), SnapshotError>),
}

/// The step the service performs next.
pub enum RunAction {
    ReserveBudget,
    /// Fetch the page named by the continuation, passed through unchanged.
    FetchPage { continuation: Option<String> },
    StagePage,
    /// Reconcile the staged snapshot and make it authority.
    CompleteRun,
    MarkFailed,
    MarkCapabilityLimited { capability: FolderCapability },
    Finish(Result<RunOutcome, SnapshotError>),
}

pub open spec fn opt_text(o: Option<String>) -> Option<Seq<char>> {
    match o {
        Some(s) => Some(s@),
        None => None,
    }
}

/// The paged-run rule. Each page costs one budget unit reserved before it is
/// fetched; a spent budget or a missing page leaves the run incomplete and
/// resumable; a staged page's continuation becomes the checkpoint, and the run
/// completes, gaining authority, only after a page with no continuation.
/// Failures mark the run failed before they are reported. The new checkpoint,
/// phase and action; `None` when the event does not answer the phase.
pub open spec fn run_transition(run_id: u128, snapshot_id: u128, checkpoint: Option<String>, phase: RunPhase, event: RunEvent)
    -> Option<(Option<String>, RunPhase, RunAction)>
{
    match (phase, event) {
        (RunPhase::Reserving, RunEvent::Reserved(reserved)) => Some(match reserved {
            Ok(()) => (checkpoint, RunPhase::Fetching, RunAction::FetchPage { continuation: checkpoint }),
            Err(BudgetError::Exhausted { .. }) => (checkpoint, RunPhase::Failing { result: Ok(RunOutcome::Incomplete { run_id }) }, RunAction::MarkFailed),
            Err(e) => (checkpoint, RunPhase::Failing { result: Err(SnapshotError::Budget(e)) }, RunAction::MarkFailed),
        }),
        (RunPhase::Fetching, RunEvent::Fetched(fetched)) => Some(match fetched {
            Ok(next_token) => (checkpoint, RunPhase::Staging { next_token }, RunAction::StagePage),
            Err(PageFailure::Unavailable) => (checkpoint, RunPhase::Failing { result: Ok(RunOutcome::Incomplete { run_id }) }, RunAction::MarkFailed),
            Err(PageFailure::CapabilityLimited(capability)) => (
                checkpoint,
                RunPhase::Failing { result: Ok(RunOutcome::CapabilityLimited { run_id, capability }) },
                RunAction::MarkCapabilityLimited { capability },
            ),
        }),
        (RunPhase::Staging { next_token }, RunEvent::Staged(staged)) => Some(match staged {
            Err(e) => (checkpoint, RunPhase::Failing { result: Err(e) }, RunAction::MarkFailed),
            Ok(()) => match next_token {
                None => (None, RunPhase::Completing, RunAction::CompleteRun),
                Some(t) => (Some(t), RunPhase::Reserving, RunAction::ReserveBudget),
            },
        }),
        (RunPhase::Completing, RunEvent::Completed(completed)) => Some(match completed {
            Ok(()) => (checkpoint, RunPhase::Done, RunAction::Finish(Ok(RunOutcome::Completed { run_id, snapshot_id }))),
            Err(e) => (checkpoint, RunPhase::Done, RunAction::Finish(Err(e))),
        }),
        (RunPhase::Failing { result }, RunEvent::MarkedFailed(marked)) => Some(match marked {
            Ok(()) => (checkpoint, RunPhase::Done, RunAction::Finish(result)),
            Err(e) => (checkpoint, RunPhase::Done, RunAction::Finish(Err(e))),
        }),
        _ => None,
    }
}

/// Advances a paged run by the event that answers its pending step; a
/// reservation that was granted leads to fetching the checkpoint's page.
pub fn run_step(run: &mut PagedRun, phase: RunPhase, event: RunEvent) -> (r: Option<(RunPhase, RunAction)>)
    ensures
        match run_transition(old(run).run_id, old(run).snapshot_id, old(run).checkpoint, phase, event) {
            None => r is None && final(run).checkpoint == old(run).checkpoint,
            Some((checkpoint, next, action)) => r == Some((next, action)) && final(run).checkpoint == checkpoint,
        },
        final(run).run_id == old(run).run_id,
        final(run).snapshot_id == old(run).snapshot_id,
{
    let run_id = run.run_id;
    let snapshot_id = run.snapshot_id;
    match (phase, event) {
        (RunPhase::Reserving, RunEvent::Reserved(reserved)) => Some(match reserved {
            Ok(()) => {
                let continuation = match &run.checkpoint {
                    Some(t) => Some(t.clone()),
                    None => None,
                };
                (RunPhase::Fetching, RunAction::FetchPage { continuation })
            },
            Err(BudgetError::Exhausted { .. }) => (RunPhase::Failing { result: Ok(RunOutcome::Incomplete { run_id }) }, RunAction::MarkFailed),
            Err(e) => (RunPhase::Failing { result: Err(SnapshotError::Budget(e)) }, RunAction::MarkFailed),
        }),
        (RunPhase::Fetching, RunEvent::Fetched(fetched)) => Some(match fetched {
            Ok(next_token) => (RunPhase::Staging { next_token }, RunAction::StagePage),
            Err(PageFailure::Unavailable) => (RunPhase::Failing { result: Ok(RunOutcome::Incomplete { run_id }) }, RunAction::MarkFailed),
            Err(PageFailure::CapabilityLimited(capability)) => (
                RunPhase::Failing { result: Ok(RunOutcome::CapabilityLimited { run_id, capability }) },
                RunAction::MarkCapabilityLimited { capability },
            ),
        }),
        (RunPhase::Staging { next_token }, RunEvent::Staged(staged)) => Some(match staged {
            Err(e) => (RunPhase::Failing { result: Err(e) }, RunAction::MarkFailed),
            Ok(()) => {
                let done = next_token.is_none();
                run.checkpoint = next_token;
                if done {
                    (RunPhase::Completing, RunAction::CompleteRun)
                } else {
                    (RunPhase::Reserving, RunAction::ReserveBudget)
                }
            },
        }),
        (RunPhase::Completing, RunEvent::Completed(completed)) => Some(match completed {
            Ok(()) => (RunPhase::Done, RunAction::Finish(Ok(RunOutcome::Completed { run_id, snapshot_id }))),
            Err(e) => (RunPhase::Done, RunAction::Finish(Err(e))),
        }),
        (RunPhase::Failing { result }, RunEvent::MarkedFailed(marked)) => Some(match marked {
            Ok(()) => (RunPhase::Done, RunAction::Finish(result)),
            Err(e) => (RunPhase::Done, RunAction::Finish(Err(e))),
        }),
        _ => None,
    }
}

/// The phases a run can reach: a failing run never carries a completion.
pub open spec fn phase_wf(phase: RunPhase) -> bool {
    !(phase matches RunPhase::Failing { result: Ok(RunOutcome::Completed { .. }) })
}

/// A run gains authority only by completing after a staged page that had no
/// continuation, and fetches a page only after reserving its budget unit.
pub proof fn lemma_authority_only_when_complete(
    run_id: u128,
    snapshot_id: u128,
    checkpoint: Option<String>,
    phase: RunPhase,
    event: RunEvent,
)
    requires
        phase_wf(phase),
    ensures
        run_transition(run_id, snapshot_id, checkpoint, phase, event) matches Some((_, next, _)) ==> phase_wf(next),
        run_transition(run_id, snapshot_id, checkpoint, phase, event) matches Some((_, _, RunAction::CompleteRun))
            ==> phase matches RunPhase::Staging { next_token: None } && event matches RunEvent::Staged(Ok(())),
        run_transition(run_id, snapshot_id, checkpoint, phase, event) matches Some((_, RunPhase::Fetching, _))
            ==> phase is Reserving && event matches RunEvent::Reserved(Ok(())),
        run_transition(run_id, snapshot_id, checkpoint, phase, event) matches Some((_, _, RunAction::Finish(Ok(RunOutcome::Completed { .. }))))
            ==> phase is Completing && event matches RunEvent::Completed(Ok(())),
{
}

/// A staged page's continuation is what the next fetch asks for, unchanged.
pub proof fn lemma_checkpoint_carries_continuation(run_id: u128, snapshot_id: u128, checkpoint: Option<String>, token: String)
    ensures
        run_transition(run_id, snapshot_id, checkpoint, RunPhase::Staging { next_token: Some(token) }, RunEvent::Staged(Ok(())))
            == Some((Some(token), RunPhase::Reserving, RunAction::ReserveBudget)),
        run_transition(run_id, snapshot_id, Some(token), RunPhase::Reserving, RunEvent::Reserved(Ok(())))
            == Some((Some(token), RunPhase::Fetching, RunAction::FetchPage { continuation: Some(token) })),
{
}

/// The bookmark snapshot result of a paged run; a bookmark source has no
/// capability limit, so such an outcome cannot arise.
pub open spec fn snapshot_outcome_of(outcome: RunOutcome) -> SnapshotOutcome {
    match outcome {
        RunOutcome::Completed { run_id, snapshot_id } => SnapshotOutcome::Completed { run_id, snapshot_id },
        RunOutcome::Incomplete { run_id } => SnapshotOutcome::Incomplete { run_id },
        RunOutcome::CapabilityLimited { run_id, .. } => SnapshotOutcome::Incomplete { run_id },
    }
}

pub fn snapshot_outcome(outcome: RunOutcome) -> (r: SnapshotOutcome)
    ensures
        r == snapshot_outcome_of(outcome),
{
    match outcome {
        RunOutcome::Completed { run_id, snapshot_id } => SnapshotOutcome::Completed { run_id, snapshot_id },
        RunOutcome::Incomplete { run_id } => SnapshotOutcome::Incomplete { run_id },
        RunOutcome::CapabilityLimited { run_id, .. } => SnapshotOutcome::Incomplete { run_id },
    }
}

/// A bookmark source failure as a page failure.
pub fn bookmark_page_failure(error: BookmarkSourceError) -> (r: PageFailure)
    ensures
        r == PageFailure::Unavailable,
{
    match error {
        BookmarkSourceError::Unavailable => PageFailure::Unavailable,
    }
}

/// Resuming a run needs its snapshot and checkpoint; the row exists only for a
/// running or failed run of the account.
pub fn resume_run(run_id: u128, row: Option<(u128, Option<String>)>) -> (r: Result<PagedRun, SnapshotError>)
    ensures
        match row {
            None => r == Err::<PagedRun, SnapshotError>(SnapshotError::RunUnavailable),
            Some((snapshot_id, checkpoint)) => r matches Ok(run) && run.run_id == run_id
                && run.snapshot_id == snapshot_id && run.checkpoint == checkpoint,
        },
{
    match row {
        None => Err(SnapshotError::RunUnavailable),
        Some((snapshot_id, checkpoint)) => Ok(PagedRun { run_id, snapshot_id, checkpoint }),
    }
}

// ---------------------------------------------------------------------------
// Finalization.
// ---------------------------------------------------------------------------

/// Only an incomplete snapshot of a running run may be finalized.
pub fn finalization_allowed(current: Option<(bool, &str)>) -> (r: Result<(), SnapshotError>)
    ensures
        r == if current matches Some((complete, state)) && !complete && state@ == "running"@ {
            Ok::<(), SnapshotError>(())
        } else {
            Err(SnapshotError::RunUnavailable)
        },
{
    match current {
        Some((complete, state)) => if !complete && str_eq(state, "running") {
            Ok(())
        } else {
            Err(SnapshotError::RunUnavailable)
        },
        None => Err(SnapshotError::RunUnavailable),
    }
}

/// The reconciliation counts stored with a completed run.
#[derive(Debug, Clone, Copy, PartialEq, Eq, Structural)]
pub struct ReconciliationStatistics {
    pub added: i32,
    pub retained: i32,
    pub removed: i32,
}

pub open spec fn fits_i32(n: int) -> bool {
    i32::MIN <= n <= i32::MAX
}

/// The stored counts, each of which must fit the schema's 32-bit fields.
pub fn reconciliation_statistics(added: i64, retained: i64, removed: u64) -> (r: Result<ReconciliationStatistics, SnapshotError>)
    ensures
        fits_i32(added as int) && fits_i32(retained as int) && fits_i32(removed as int) ==> r == Ok::<ReconciliationStatistics, SnapshotError>(
            ReconciliationStatistics { added: added as i32, retained: retained as i32, removed: removed as i32 },
        ),
        !(fits_i32(added as int) && fits_i32(retained as int) && fits_i32(removed as int)) ==> r == Err::<ReconciliationStatistics, SnapshotError>(
            SnapshotError::StatisticsOverflow,
        ),
{
    if added < -2147483648i64 || added > 2147483647i64 {
        return Err(SnapshotError::StatisticsOverflow);
    }
    if retained < -2147483648i64 || retained > 2147483647i64 {
        return Err(SnapshotError::StatisticsOverflow);
    }
    if removed > 2147483647u64 {
        return Err(SnapshotError::StatisticsOverflow);
    }
    Ok(ReconciliationStatistics { added: added as i32, retained: retained as i32, removed: removed as i32 })
}

/// A page's item count as the schema's 32-bit counter.
pub fn page_item_count(count: usize) -> (r: Result<i32, SnapshotError>)
    ensures
        count <= i32::MAX ==> r == Ok::<i32, SnapshotError>(count as i32),
        count > i32::MAX ==> r == Err::<i32, SnapshotError>(SnapshotError::StatisticsOverflow),
{
    if count > 2147483647usize {
        Err(SnapshotError::StatisticsOverflow)
    } else {
        Ok(count as i32)
    }
}

// ---------------------------------------------------------------------------
// Stored vocabulary of normalized records.
// ---------------------------------------------------------------------------

/// A normalized post's availability.
#[derive(Debug, Clone, Copy, PartialEq, Eq, Structural)]
pub enum Availability {
    Active,
    Deleted,
    Protected,
    AuthorSuspended,
    Unavailable,
    Unknown,
}

/// A normalized relation between posts.
#[derive(Debug, Clone, Copy, PartialEq, Eq, Structural)]
pub enum Relation {
    Reply,
    Quote,
    Repost,
}

/// A normalized media item's kind.
#[derive(Debug, Clone, Copy, PartialEq, Eq, Structural)]
pub enum MediaKind {
    Photo,
    Video,
    AnimatedGif,
}

pub fn availability_name(availability: Availability) -> (r: &'static str)
    ensures
        r@ == match availability {
            Availability::Active => "active"@,
            Availability::Deleted => "deleted"@,
            Availability::Protected => "protected"@,
            Availability::AuthorSuspended => "author_suspended"@,
            Availability::Unavailable => "unavailable"@,
            Availability::Unknown => "unknown"@,
        },
{
    match availability {
        Availability::Active => "active",
        Availability::Deleted => "deleted",
        Availability::Protected => "protected",
        Availability::AuthorSuspended => "author_suspended",
        Availability::Unavailable => "unavailable",
        Availability::Unknown => "unknown",
    }
}

pub fn relation_name(relation: Relation) -> (r: &'static str)
    ensures
        r@ == match relation {
            Relation::Reply => "reply"@,
            Relation::Quote => "quote"@,
            Relation::Repost => "repost"@,
        },
{
    match relation {
        Relation::Reply => "reply",
        Relation::Quote => "quote",
        Relation::Repost => "repost",
    }
}

pub fn media_kind_name(kind: MediaKind) -> (r: &'static str)
    ensures
        r@ == match kind {
            MediaKind::Photo => "photo"@,
            MediaKind::Video => "video"@,
            MediaKind::AnimatedGif => "animated_gif"@,
        },
{
    match kind {
        MediaKind::Photo => "photo",
        MediaKind::Video => "video",
        MediaKind::AnimatedGif => "animated_gif",
    }
}

/// The display text of a snapshot error.
pub open spec fn snapshot_error_text(e: SnapshotError) -> Seq<char> {
    match e {
        SnapshotError::RunUnavailable => "the requested bookmark snapshot run is unavailable"@,
        SnapshotError::Budget(BudgetError::Exhausted { .. }) => "the write budget window is exhausted"@,
        SnapshotError::Budget(BudgetError::Unavailable) => "the write budget is unavailable"@,
        SnapshotError::Normalize => "the provider payload could not be normalized"@,
        SnapshotError::Query => "a bookmark snapshot database query failed"@,
        SnapshotError::PersistedAuthorMissing => "a normalized post had no persisted author row"@,
        SnapshotError::StatisticsOverflow => "bookmark snapshot statistics exceed the supported range"@,
        SnapshotError::Contract => "a shared contract document could not be built"@,
    }
}

impl SnapshotError {
    /// The error's display text.
    pub fn message(&self) -> (r: &'static str)
        ensures
            r@ == snapshot_error_text(*self),
    {
        match self {
            SnapshotError::RunUnavailable => "the requested bookmark snapshot run is unavailable",
            SnapshotError::Budget(b) => b.message(),
            SnapshotError::Normalize => "the provider payload could not be normalized",
            SnapshotError::Query => "a bookmark snapshot database query failed",
            SnapshotError::PersistedAuthorMissing => "a normalized post had no persisted author row",
            SnapshotError::StatisticsOverflow => "bookmark snapshot statistics exceed the supported range",
            SnapshotError::Contract => "a shared contract document could not be built",
        }
    }
}

} // verus!
