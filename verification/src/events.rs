//! Notifications handed back to the caller for the audit trail.

use vstd::prelude::*;
use crate::hash::HashValue;
use crate::identity::Identity;

verus! {

/// Why access was not granted.
#[derive(Clone, Copy, Debug, PartialEq, Eq, Structural)]
pub enum DeniedReason {
    /// The root was never published, or is no longer active.
    RootNotFoundOrInactive,
    /// The root is active but the proof does not lead to it.
    InvalidProof,
}

impl DeniedReason {
    /// The reason in words.
    pub open spec fn text(self) -> Seq<char> {
        match self {
            DeniedReason::RootNotFoundOrInactive => "root not found or inactive"@,
            DeniedReason::InvalidProof => "invalid proof"@,
        }
    }

    /// The reason in words, as carried by denial notifications and failures.
    pub fn message(&self) -> (message: &'static str)
        ensures
            message@ == self.text(),
    {
        match self {
            DeniedReason::RootNotFoundOrInactive => "root not found or inactive",
            DeniedReason::InvalidProof => "invalid proof",
        }
    }
}

/// What an operation reports to the outside for the audit trail.
#[derive(Clone, Copy, Debug, PartialEq, Eq)]
pub enum Notification {
    /// A root was published or republished.
    RootPublished { root: HashValue, publisher: Identity, timestamp: u64 },
    /// A caller proved membership under an active root.
    AccessGranted { root: HashValue, user: Identity, timestamp: u64 },
    /// A caller was turned away.
    AccessDenied { root: HashValue, user: Identity, reason: DeniedReason },
}

} // verus!
