//! Native folder membership snapshots: folder identities, capability limits,
//! and the paged run that gives a complete membership snapshot authority.

use vstd::prelude::*;
use crate::snapshot::{FolderCapability, PageFailure, RunOutcome};

verus! {

/// A native X bookmark folder observed by provider identity.
#[derive(Debug, Clone, PartialEq, Eq)]
pub struct NativeFolder {
    provider_id: String,
    name: Option<String>,
}

impl NativeFolder {
    pub closed spec fn provider_id_view(&self) -> Seq<char> {
        self.provider_id@
    }

    pub closed spec fn name_view(&self) -> Option<Seq<char>> {
        match self.name {
            Some(n) => Some(n@),
            None => None,
        }
    }

    /// Creates a provider folder identity and its observed display name.
    pub fn new(provider_id: String, name: Option<String>) -> (r: Self)
        ensures
            r.provider_id_view() == provider_id@,
            r.name_view() == match name { Some(n) => Some(n@), None => None },
    {
        NativeFolder { provider_id, name }
    }

    /// Returns the opaque provider identity required by the membership endpoint.
    pub fn provider_id(&self) -> (r: &str)
        ensures
            r@ == self.provider_id_view(),
    {
        self.provider_id.as_str()
    }

    /// Returns the observed display name.
    pub fn name(&self) -> (r: Option<&str>)
        ensures
            match r { Some(n) => Some(n@), None => None } == self.name_view(),
    {
        match &self.name {
            Some(n) => Some(n.as_str()),
            None => None,
        }
    }
}

/// A non-sensitive provider result for one folder membership request.
#[derive(Debug, Clone, Copy, PartialEq, Eq, Structural)]
pub enum FolderMembershipSourceError {
    /// The provider did not return the requested page.
    Unavailable,
    /// The provider does not expose this folder operation to the account.
    CapabilityLimited { capability: FolderCapability },
}

impl FolderMembershipSourceError {
    /// The error's display text.
    pub fn message(&self) -> (r: &'static str)
        ensures
            r@ == match *self {
                FolderMembershipSourceError::Unavailable => "the folder membership provider did not return a page"@,
                FolderMembershipSourceError::CapabilityLimited { .. } => "the provider does not expose the requested folder capability"@,
            },
    {
        match self {
            FolderMembershipSourceError::Unavailable => "the folder membership provider did not return a page",
            FolderMembershipSourceError::CapabilityLimited { .. } => "the provider does not expose the requested folder capability",
        }
    }
}

/// A folder source failure as a page failure of the paged run.
pub fn folder_page_failure(error: FolderMembershipSourceError) -> (r: PageFailure)
    ensures
        r == match error {
            FolderMembershipSourceError::Unavailable => PageFailure::Unavailable,
            FolderMembershipSourceError::CapabilityLimited { capability } => PageFailure::CapabilityLimited(capability),
        },
{
    match error {
        FolderMembershipSourceError::Unavailable => PageFailure::Unavailable,
        FolderMembershipSourceError::CapabilityLimited { capability } => PageFailure::CapabilityLimited(capability),
    }
}

/// The terminal result of one folder-membership snapshot attempt.
#[derive(Debug, Clone, Copy, PartialEq, Eq, Structural)]
pub enum FolderSnapshotOutcome {
    /// The run is incomplete and did not gain absence authority.
    Incomplete { run_id: u128 },
    /// A complete membership snapshot became current authority for its folder.
    Completed { run_id: u128, snapshot_id: u128 },
    /// A provider capability limit left current authority unchanged.
    CapabilityLimited { run_id: u128, capability: FolderCapability },
}

/// The folder result of a paged run.
pub fn folder_outcome(outcome: RunOutcome) -> (r: FolderSnapshotOutcome)
    ensures
        r == match outcome {
            RunOutcome::Incomplete { run_id } => FolderSnapshotOutcome::Incomplete { run_id },
            RunOutcome::Completed { run_id, snapshot_id } => FolderSnapshotOutcome::Completed { run_id, snapshot_id },
            RunOutcome::CapabilityLimited { run_id, capability } => FolderSnapshotOutcome::CapabilityLimited { run_id, capability },
        },
{
    match outcome {
        RunOutcome::Incomplete { run_id } => FolderSnapshotOutcome::Incomplete { run_id },
        RunOutcome::Completed { run_id, snapshot_id } => FolderSnapshotOutcome::Completed { run_id, snapshot_id },
        RunOutcome::CapabilityLimited { run_id, capability } => FolderSnapshotOutcome::CapabilityLimited { run_id, capability },
    }
}

/// The stored name of a folder capability.
pub fn folder_capability_name(capability: FolderCapability) -> (r: &'static str)
    ensures
        r@ == match capability {
            FolderCapability::Listing => "listing"@,
            FolderCapability::Membership => "membership"@,
        },
{
    match capability {
        FolderCapability::Listing => "listing",
        FolderCapability::Membership => "membership",
    }
}

/// The run type a capability limit is recorded under.
pub fn folder_run_type(capability: FolderCapability) -> (r: &'static str)
    ensures
        r@ == match capability {
            FolderCapability::Listing => "folder_listing"@,
            FolderCapability::Membership => "folder_membership"@,
        },
{
    match capability {
        FolderCapability::Listing => "folder_listing",
        FolderCapability::Membership => "folder_membership",
    }
}

/// The outcome of recording a capability limit on a fresh run: authority
/// stays unchanged.
pub fn capability_limit_outcome(run_id: u128, capability: FolderCapability) -> (r: FolderSnapshotOutcome)
    ensures
        r == (FolderSnapshotOutcome::CapabilityLimited { run_id, capability }),
{
    FolderSnapshotOutcome::CapabilityLimited { run_id, capability }
}

} // verus!
