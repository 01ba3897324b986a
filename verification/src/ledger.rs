//! The ledger of successful accesses.

use vstd::prelude::*;
use crate::hash::HashValue;
use crate::identity::Identity;
use crate::table::{Table, TableKey};

verus! {

impl TableKey for (HashValue, Identity) {
    fn same_key(&self, other: &(HashValue, Identity)) -> (same: bool) {
        self.0 == other.0 && self.1 == other.1
    }
}

/// The ledger after `caller` is granted access under `root` at `now`.
pub open spec fn recorded(
    ledger: Map<(HashValue, Identity), u64>,
    root: HashValue,
    caller: Identity,
    now: u64,
) -> Map<(HashValue, Identity), u64> {
    ledger.insert((root, caller), now)
}

/// When `caller` was last granted access under `root`; 0 stands for never.
pub open spec fn last_access_of(
    ledger: Map<(HashValue, Identity), u64>,
    root: HashValue,
    caller: Identity,
) -> u64 {
    if ledger.contains_key((root, caller)) {
        ledger[(root, caller)]
    } else {
        0
    }
}

/// For each root and caller, the time of the caller's last successful access.
pub struct AccessLedger {
    records: Table<(HashValue, Identity), u64>,
}

impl View for AccessLedger {
    type V = Map<(HashValue, Identity), u64>;

    closed spec fn view(&self) -> Map<(HashValue, Identity), u64> {
        self.records@
    }
}

impl AccessLedger {
    /// A ledger with no access on record.
    pub fn new() -> (ledger: AccessLedger)
        ensures
            ledger@ == Map::<(HashValue, Identity), u64>::empty(),
    {
        AccessLedger { records: Table::new() }
    }

    /// Records that `caller` was granted access under `root` at `now`, in
    /// place of any earlier time.
    pub fn record_access(&mut self, root: HashValue, caller: Identity, now: u64)
        ensures
            final(self)@ == recorded(old(self)@, root, caller, now),
    {
        self.records.insert((root, caller), now);
    }

    /// When `caller` was last granted access under `root`, or 0 if never.
    pub fn last_access(&self, root: HashValue, caller: Identity) -> (time: u64)
        ensures
            time == last_access_of(self@, root, caller),
    {
        match self.records.get(&(root, caller)) {
            Some(time) => time,
            None => 0,
        }
    }
}

} // verus!
