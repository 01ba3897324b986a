//! The registry of published Merkle roots.

use vstd::prelude::*;
use crate::events::Notification;
use crate::hash::HashValue;
use crate::identity::Identity;
use crate::table::{Table, TableKey};

verus! {

/// What is on record for a published root.
#[derive(Clone, Copy, Debug, PartialEq, Eq)]
pub struct RootRecord {
    /// Who published the root last.
    pub publisher: Identity,
    /// When it was published last.
    pub published_at: u64,
    /// Whether proofs against the root are accepted.
    pub active: bool,
}

impl RootRecord {
    /// The record that stands for "nothing on record": the zero identity,
    /// time zero, not active.
    pub open spec fn spec_unknown() -> RootRecord {
        RootRecord { publisher: Identity::spec_zero(), published_at: 0, active: false }
    }

    /// The record reported for a root that was never published.
    #[verifier::when_used_as_spec(spec_unknown)]
    pub fn unknown() -> (record: RootRecord)
        ensures
            record == RootRecord::spec_unknown(),
    {
        RootRecord { publisher: Identity::zero(), published_at: 0, active: false }
    }

    /// The record written by a publication: active from the start.
    pub open spec fn spec_fresh(publisher: Identity, now: u64) -> RootRecord {
        RootRecord { publisher, published_at: now, active: true }
    }

    /// The record written when `publisher` publishes a root at `now`.
    #[verifier::when_used_as_spec(spec_fresh)]
    pub fn fresh(publisher: Identity, now: u64) -> (record: RootRecord)
        ensures
            record == RootRecord::spec_fresh(publisher, now),
    {
        RootRecord { publisher, published_at: now, active: true }
    }
}

impl TableKey for HashValue {
    fn same_key(&self, other: &HashValue) -> (same: bool) {
        *self == *other
    }
}

/// The records after `root` is published by `publisher` at `now`: any earlier
/// record of `root` is overwritten.
pub open spec fn published(
    roots: Map<HashValue, RootRecord>,
    root: HashValue,
    publisher: Identity,
    now: u64,
) -> Map<HashValue, RootRecord> {
    roots.insert(root, RootRecord::spec_fresh(publisher, now))
}

/// Whether `root` is on record and active.
pub open spec fn root_active(roots: Map<HashValue, RootRecord>, root: HashValue) -> bool {
    roots.contains_key(root) && roots[root].active
}

/// The record of `root`, or the zero record where there is none.
pub open spec fn root_info(roots: Map<HashValue, RootRecord>, root: HashValue) -> RootRecord {
    if roots.contains_key(root) {
        roots[root]
    } else {
        RootRecord::spec_unknown()
    }
}

/// Published roots, each with its record.
pub struct RootRegistry {
    records: Table<HashValue, RootRecord>,
}

impl View for RootRegistry {
    type V = Map<HashValue, RootRecord>;

    closed spec fn view(&self) -> Map<HashValue, RootRecord> {
        self.records@
    }
}

impl RootRegistry {
    /// A registry in which no root has been published.
    pub fn new() -> (registry: RootRegistry)
        ensures
            registry@ == Map::<HashValue, RootRecord>::empty(),
    {
        RootRegistry { records: Table::new() }
    }

    /// Publishes `root`: its record becomes `{publisher, now, active}`,
    /// whatever was on record before. Anyone may publish any root.
    pub fn publish(&mut self, root: HashValue, publisher: Identity, now: u64) -> (event:
        Notification)
        ensures
            final(self)@ == published(old(self)@, root, publisher, now),
            event == (Notification::RootPublished { root, publisher, timestamp: now }),
    {
        self.records.insert(root, RootRecord::fresh(publisher, now));
        Notification::RootPublished { root, publisher, timestamp: now }
    }

    /// The record of `root`, if it was ever published.
    pub fn get(&self, root: HashValue) -> (record: Option<RootRecord>)
        ensures
            record == (if self@.contains_key(root) {
                Some(self@[root])
            } else {
                None
            }),
    {
        self.records.get(&root)
    }

    /// Whether `root` is on record and active; false for unknown roots.
    pub fn is_active(&self, root: HashValue) -> (active: bool)
        ensures
            active == root_active(self@, root),
    {
        match self.records.get(&root) {
            Some(record) => record.active,
            None => false,
        }
    }

    /// The record of `root`; for an unknown root the zero record, which
    /// callers read as "not found".
    pub fn describe(&self, root: HashValue) -> (record: RootRecord)
        ensures
            record == root_info(self@, root),
    {
        match self.records.get(&root) {
            Some(record) => record,
            None => RootRecord::unknown(),
        }
    }
}

} // verus!
