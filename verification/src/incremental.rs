//! Safe, bounded incremental bookmark observations: a scan pages back from the
//! newest bookmark until it reaches the prior watermark, within a page cap and
//! a request cap, and never acquires absence authority.

use vstd::prelude::*;
use crate::json::{str_eq, string_views};
use crate::writeback::BudgetError;
use crate::snapshot::SnapshotError;
use crate::order::views;

verus! {

/// The command type carried by the platform scheduler before it adds `cmd.`.
pub const SCHEDULED_BOOKMARK_SCAN_COMMAND: &'static str = "x.bookmarks.scan_requested.v1";

/// The locally selected operation for a platform-scheduled bookmark command.
#[derive(Debug, Clone, Copy, PartialEq, Eq, Structural)]
pub enum ScheduledScan {
    /// Start an observation-only bounded scan.
    Incremental,
    /// Start a complete authoritative snapshot.
    FullSnapshot,
}

/// Whether a command type is the scheduled bookmark scan.
pub fn is_scheduled_scan_command(command_type: &str) -> (r: bool)
    ensures
        r == (command_type@ == SCHEDULED_BOOKMARK_SCAN_COMMAND@),
{
    str_eq(command_type, SCHEDULED_BOOKMARK_SCAN_COMMAND)
}

/// Selects safe work for one platform-scheduler command: only the scheduled
/// scan command is accepted, and an account whose last scan found a gap gets a
/// full snapshot. `requires_full_snapshot` is the account's stored flag, read
/// only once the command is accepted.
pub fn scheduled_scan(command_type: &str, requires_full_snapshot: bool) -> (r: Result<ScheduledScan, SnapshotError>)
    ensures
        command_type@ != SCHEDULED_BOOKMARK_SCAN_COMMAND@ ==> r == Err::<ScheduledScan, SnapshotError>(SnapshotError::RunUnavailable),
        command_type@ == SCHEDULED_BOOKMARK_SCAN_COMMAND@ ==> r == Ok::<ScheduledScan, SnapshotError>(
            if requires_full_snapshot { ScheduledScan::FullSnapshot } else { ScheduledScan::Incremental },
        ),
{
    if !is_scheduled_scan_command(command_type) {
        return Err(SnapshotError::RunUnavailable);
    }
    Ok(if requires_full_snapshot { ScheduledScan::FullSnapshot } else { ScheduledScan::Incremental })
}

/// The terminal result of one incremental bookmark scan.
#[derive(Debug, Clone, PartialEq, Eq)]
pub enum IncrementalOutcome {
    /// The scan reached its prior watermark and persisted a newer one.
    Completed { run_id: u128, watermark_provider_post_id: Option<String> },
    /// A bounded scan could not reach its prior watermark and needs full authority.
    RequiresFullSnapshot { run_id: u128 },
    /// The scan stopped without reaching the watermark and remains non-authoritative.
    Incomplete { run_id: u128 },
}

/// One running scan.
pub struct IncrementalScan {
    pub run_id: u128,
    /// The watermark the scan must reach; with none, the first page completes it.
    pub watermark: Option<String>,
    /// The continuation for the next page.
    pub continuation: Option<String>,
    /// The newest provider post identity observed so far.
    pub newest: Option<String>,
    pub pages_fetched: u32,
    pub requests_made: u32,
    pub page_cap: u32,
    pub request_cap: u32,
}

/// A scan never makes more requests than its cap, never fetches more pages
/// than its cap, and fetches at most one page per request.
pub open spec fn scan_within_caps(s: IncrementalScan) -> bool {
    &&& s.pages_fetched <= s.page_cap
    &&& s.requests_made <= s.request_cap
    &&& s.pages_fetched <= s.requests_made
}

/// A scan may start only while the account does not need a full snapshot.
pub fn start_incremental_scan(
    run_id: u128,
    watermark: Option<String>,
    requires_full_snapshot: bool,
    page_cap: u32,
    request_cap: u32,
) -> (r: Result<IncrementalScan, SnapshotError>)
    ensures
        requires_full_snapshot ==> r == Err::<IncrementalScan, SnapshotError>(SnapshotError::RunUnavailable),
        !requires_full_snapshot ==> (r matches Ok(s) && {
            &&& s.run_id == run_id
            &&& s.watermark == watermark
            &&& s.continuation is None
            &&& s.newest is None
            &&& s.pages_fetched == 0
            &&& s.requests_made == 0
            &&& s.page_cap == page_cap
            &&& s.request_cap == request_cap
            &&& scan_within_caps(s)
        }),
{
    if requires_full_snapshot {
        return Err(SnapshotError::RunUnavailable);
    }
    Ok(IncrementalScan {
        run_id,
        watermark,
        continuation: None,
        newest: None,
        pages_fetched: 0,
        requests_made: 0,
        page_cap,
        request_cap,
    })
}

/// What a scan does before each request.
#[derive(Debug, Clone, Copy, PartialEq, Eq, Structural)]
pub enum ScanGate {
    /// The page cap is spent without reaching the watermark: record the gap.
    Gap,
    /// The request cap is spent: stop the run as `request_cap`.
    RequestCap,
    /// Reserve one budget unit for the next page.
    Reserve,
}

/// The cap rule: the page cap is checked before the request cap.
pub open spec fn gate_of(s: IncrementalScan) -> ScanGate {
    if s.pages_fetched >= s.page_cap {
        ScanGate::Gap
    } else if s.requests_made >= s.request_cap {
        ScanGate::RequestCap
    } else {
        ScanGate::Reserve
    }
}

pub fn scan_gate(scan: &IncrementalScan) -> (r: ScanGate)
    ensures
        r == gate_of(*scan),
        r == ScanGate::Reserve ==> scan.pages_fetched < scan.page_cap && scan.requests_made < scan.request_cap,
{
    if scan.pages_fetched >= scan.page_cap {
        ScanGate::Gap
    } else if scan.requests_made >= scan.request_cap {
        ScanGate::RequestCap
    } else {
        ScanGate::Reserve
    }
}

/// What follows a budget reservation.
#[derive(Debug, Clone, Copy, PartialEq, Eq, Structural)]
pub enum ScanReservation {
    /// Fetch the page named by the continuation.
    Fetch,
    /// The budget window is spent: stop the run as `budget_exhausted`.
    BudgetExhausted,
    /// Mark the run failed and return the error.
    Fail(SnapshotError),
}

/// Records a reservation: a granted one counts as a request.
pub fn scan_reserved(scan: &mut IncrementalScan, reserved: Result<(), BudgetError>) -> (r: ScanReservation)
    requires
        gate_of(*old(scan)) == ScanGate::Reserve,
        scan_within_caps(*old(scan)),
    ensures
        r == match reserved {
            Ok(()) => ScanReservation::Fetch,
            Err(BudgetError::Exhausted { .. }) => ScanReservation::BudgetExhausted,
            Err(e) => ScanReservation::Fail(SnapshotError::Budget(e)),
        },
        final(scan).requests_made == old(scan).requests_made + if reserved is Ok { 1int } else { 0int },
        final(scan).pages_fetched == old(scan).pages_fetched,
        final(scan).run_id == old(scan).run_id,
        final(scan).watermark == old(scan).watermark,
        final(scan).continuation == old(scan).continuation,
        final(scan).newest == old(scan).newest,
        final(scan).page_cap == old(scan).page_cap,
        final(scan).request_cap == old(scan).request_cap,
        scan_within_caps(*final(scan)),
{
    match reserved {
        Ok(()) => {
            scan.requests_made = scan.requests_made + 1;
            ScanReservation::Fetch
        },
        Err(BudgetError::Exhausted { .. }) => ScanReservation::BudgetExhausted,
        Err(e) => ScanReservation::Fail(SnapshotError::Budget(e)),
    }
}

/// What one observed page gives: the first identity of the first page that
/// has any becomes the newest; the watermark is reached when the page holds it.
pub open spec fn observed_newest(newest: Option<Seq<char>>, ids: Seq<Seq<char>>) -> Option<Seq<char>> {
    match newest {
        Some(n) => Some(n),
        None => if ids.len() > 0 { Some(ids[0]) } else { None },
    }
}

pub open spec fn page_reaches(watermark: Option<Seq<char>>, ids: Seq<Seq<char>>) -> bool {
    match watermark {
        Some(w) => ids.contains(w),
        None => false,
    }
}

pub open spec fn opt_view(o: Option<String>) -> Option<Seq<char>> {
    match o {
        Some(s) => Some(s@),
        None => None,
    }
}

/// The newest identity after observing a scan's pages in order.
pub open spec fn newest_after(pages: Seq<Seq<Seq<char>>>) -> Option<Seq<char>>
    decreases pages.len(),
{
    if pages.len() == 0 {
        None
    } else {
        observed_newest(newest_after(pages.drop_last()), pages.last())
    }
}

/// The watermark a scan records is the first identity of its first non-empty
/// page: later pages never replace it, and a scan whose pages are all empty
/// has none.
pub proof fn lemma_watermark_is_first_page_head(pages: Seq<Seq<Seq<char>>>)
    ensures
        (forall|p: int| 0 <= p < pages.len() ==> (#[trigger] pages[p]).len() == 0) ==> newest_after(pages) is None,
        forall|k: int| 0 <= k < pages.len() && pages[k].len() > 0
            && (forall|p: int| 0 <= p < k ==> (#[trigger] pages[p]).len() == 0)
            ==> newest_after(pages) == Some(#[trigger] pages[k][0]),
    decreases pages.len(),
{
    if pages.len() > 0 {
        let init = pages.drop_last();
        lemma_watermark_is_first_page_head(init);
        assert forall|k: int| 0 <= k < pages.len() && pages[k].len() > 0
            && (forall|p: int| 0 <= p < k ==> (#[trigger] pages[p]).len() == 0)
            implies newest_after(pages) == Some(#[trigger] pages[k][0]) by {
            if k < init.len() {
                assert(init[k] == pages[k]);
                assert(forall|p: int| 0 <= p < k ==> (#[trigger] init[p]).len() == 0 || init[p] != pages[p]);
                assert forall|p: int| 0 <= p < k implies (#[trigger] init[p]).len() == 0 by {
                    assert(init[p] == pages[p]);
                }
            } else {
                assert forall|p: int| 0 <= p < init.len() implies (#[trigger] init[p]).len() == 0 by {
                    assert(init[p] == pages[p]);
                }
                assert(pages.last() == pages[k]);
            }
        }
        if forall|p: int| 0 <= p < pages.len() ==> (#[trigger] pages[p]).len() == 0 {
            assert forall|p: int| 0 <= p < init.len() implies (#[trigger] init[p]).len() == 0 by {
                assert(init[p] == pages[p]);
            }
            assert(pages[pages.len() - 1].len() == 0);
        }
    }
}

/// Observes the provider post identities of one normalized page, in page
/// order; whether the page holds the prior watermark.
pub fn observe_page_ids(newest: &mut Option<String>, ids: &Vec<String>, prior_watermark: &Option<String>) -> (r: bool)
    ensures
        opt_view(*final(newest)) == observed_newest(opt_view(*old(newest)), string_views(ids@)),
        *old(newest) is Some ==> opt_view(*final(newest)) == opt_view(*old(newest)),
        *old(newest) is None && ids.len() > 0 ==> opt_view(*final(newest)) == Some(ids@[0]@),
        *old(newest) is None && ids.len() == 0 ==> *final(newest) is None,
        r == page_reaches(opt_view(*prior_watermark), string_views(ids@)),
{
    let reached = match prior_watermark {
        None => false,
        Some(w) => contains_text(ids, w.as_str()),
    };
    if newest.is_none() && ids.len() > 0 {
        *newest = Some(ids[0].clone());
        assert(string_views(ids@)[0] == ids@[0]@);
    }
    reached
}

/// Whether a list of texts holds a given one.
fn contains_text(ids: &Vec<String>, w: &str) -> (r: bool)
    ensures
        r == string_views(ids@).contains(w@),
{
    let ghost id_views = string_views(ids@);
    let mut i: usize = 0;
    while i < ids.len()
        invariant
            i <= ids.len(),
            id_views == string_views(ids@),
            forall|k: int| 0 <= k < i ==> id_views[k] != w@,
        decreases ids.len() - i,
    {
        if str_eq(ids[i].as_str(), w) {
            assert(id_views[i as int] == w@);
            return true;
        }
        i += 1;
    }
    assert(!id_views.contains(w@));
    false
}

/// What follows an observed page.
pub enum ScanPage {
    /// Complete the run with the newest identity as the new watermark.
    Complete(Option<String>),
    /// Check the caps again for the next page.
    Continue,
    /// The pages ended before the watermark: mark the run failed.
    Fail(SnapshotError),
}

/// Records an observed page: it counts, its continuation is kept, and the
/// scan completes when it reached the watermark (or has none to reach).
pub fn scan_page(scan: &mut IncrementalScan, reached: bool, next_token: Option<String>) -> (r: ScanPage)
    requires
        old(scan).pages_fetched < old(scan).requests_made,
        old(scan).pages_fetched < old(scan).page_cap,
        scan_within_caps(*old(scan)),
    ensures
        final(scan).pages_fetched == old(scan).pages_fetched + 1,
        final(scan).requests_made == old(scan).requests_made,
        opt_view(final(scan).continuation) == opt_view(next_token),
        final(scan).run_id == old(scan).run_id,
        final(scan).watermark == old(scan).watermark,
        final(scan).newest == old(scan).newest,
        final(scan).page_cap == old(scan).page_cap,
        final(scan).request_cap == old(scan).request_cap,
        scan_within_caps(*final(scan)),
        reached || old(scan).watermark is None ==> (r matches ScanPage::Complete(w) && opt_view(w) == opt_view(old(scan).newest)),
        !(reached || old(scan).watermark is None) && next_token is None ==> r matches ScanPage::Fail(SnapshotError::RunUnavailable),
        !(reached || old(scan).watermark is None) && next_token is Some ==> r is Continue,
{
    let complete = reached || scan.watermark.is_none();
    scan.pages_fetched = scan.pages_fetched + 1;
    let ended = next_token.is_none();
    scan.continuation = next_token;
    if complete {
        let watermark = match &scan.newest {
            Some(n) => Some(n.clone()),
            None => None,
        };
        return ScanPage::Complete(watermark);
    }
    if ended {
        return ScanPage::Fail(SnapshotError::RunUnavailable);
    }
    ScanPage::Continue
}

/// Every request a scan makes is admitted by the cap check: the caps hold in every
/// state, so a scan ends after at most `request_cap` requests, and it reports
/// a gap only once its page cap is spent.
pub proof fn lemma_scan_bounded(s: IncrementalScan)
    requires
        scan_within_caps(s),
    ensures
        gate_of(s) == ScanGate::Reserve ==> s.requests_made < s.request_cap,
        gate_of(s) == ScanGate::Gap ==> s.pages_fetched == s.page_cap,
        gate_of(s) == ScanGate::RequestCap ==> s.requests_made == s.request_cap,
{
}

} // verus!
