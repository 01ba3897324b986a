//! The access decision: registry lookup, proof check and ledger update in one
//! call.

use vstd::prelude::*;
use crate::events::{DeniedReason, Notification};
use crate::hash::HashValue;
use crate::identity::Identity;
use crate::ledger::{last_access_of, recorded, AccessLedger};
use crate::merkle::{verifies, verify};
use crate::registry::{published, root_active, root_info, RootRecord, RootRegistry};

verus! {

/// How an access attempt ended, with the notification that goes with it.
#[derive(Clone, Copy, Debug, PartialEq, Eq)]
pub struct AccessOutcome {
    /// `Ok(true)`: granted. `Ok(false)`: denied, the proof does not hold.
    /// `Err`: the call fails, the root is unknown or inactive.
    pub result: Result<bool, DeniedReason>,
    /// The notification to emit.
    pub event: Notification,
}

/// The outcome of an access attempt by `caller` at `now`, given whether the
/// root is active and whether the proof holds.
///
/// Against an inactive root the call fails, whatever the proof. Against an
/// active root the result is whether the proof holds. A grant is notified
/// with its time, anything else as a denial with its reason.
pub open spec fn access_outcome(
    root_is_active: bool,
    proof_is_valid: bool,
    root: HashValue,
    caller: Identity,
    now: u64,
) -> AccessOutcome {
    AccessOutcome {
        result: if root_is_active {
            Ok(proof_is_valid)
        } else {
            Err(DeniedReason::RootNotFoundOrInactive)
        },
        event: if root_is_active && proof_is_valid {
            Notification::AccessGranted { root, user: caller, timestamp: now }
        } else {
            Notification::AccessDenied {
                root,
                user: caller,
                reason: if root_is_active {
                    DeniedReason::InvalidProof
                } else {
                    DeniedReason::RootNotFoundOrInactive
                },
            }
        },
    }
}

/// Decides an access attempt from the two facts it depends on: whether the
/// root is active, and whether the proof leads to it.
pub fn resolve_access(
    root_is_active: bool,
    proof_is_valid: bool,
    root: HashValue,
    caller: Identity,
    now: u64,
) -> (outcome: AccessOutcome)
    ensures
        outcome == access_outcome(root_is_active, proof_is_valid, root, caller, now),
{
    if !root_is_active {
        AccessOutcome {
            result: Err(DeniedReason::RootNotFoundOrInactive),
            event: Notification::AccessDenied {
                root,
                user: caller,
                reason: DeniedReason::RootNotFoundOrInactive,
            },
        }
    } else if proof_is_valid {
        AccessOutcome {
            result: Ok(true),
            event: Notification::AccessGranted { root, user: caller, timestamp: now },
        }
    } else {
        AccessOutcome {
            result: Ok(false),
            event: Notification::AccessDenied {
                root,
                user: caller,
                reason: DeniedReason::InvalidProof,
            },
        }
    }
}

/// The two tables as mathematical maps.
pub struct State {
    /// The record of each published root.
    pub roots: Map<HashValue, RootRecord>,
    /// The time of the last successful access, by root and caller.
    pub last_access: Map<(HashValue, Identity), u64>,
}

impl State {
    /// The state in which nothing was published and nobody was granted access.
    pub open spec fn initial() -> State {
        State { roots: Map::empty(), last_access: Map::empty() }
    }

    /// The state after `publisher` publishes `root` at `now`.
    pub open spec fn publish_root(self, root: HashValue, publisher: Identity, now: u64) -> State {
        State { roots: published(self.roots, root, publisher, now), last_access: self.last_access }
    }

    /// Whether `root` is on record and active.
    pub open spec fn root_exists(self, root: HashValue) -> bool {
        root_active(self.roots, root)
    }

    /// The record of `root`, or the zero record.
    pub open spec fn get_root_info(self, root: HashValue) -> RootRecord {
        root_info(self.roots, root)
    }

    /// When `user` was last granted access under `root`, or 0.
    pub open spec fn get_last_access(self, root: HashValue, user: Identity) -> u64 {
        last_access_of(self.last_access, root, user)
    }

    /// Whether an access attempt with this root, leaf and proof is granted.
    pub open spec fn grants(self, root: HashValue, leaf: HashValue, proof: Seq<Seq<u8>>) -> bool {
        self.root_exists(root) && verifies(root@, leaf@, proof)
    }

    /// What `unlock_access` returns in this state.
    pub open spec fn unlock_outcome(
        self,
        root: HashValue,
        leaf: HashValue,
        proof: Seq<Seq<u8>>,
        caller: Identity,
        now: u64,
    ) -> AccessOutcome {
        access_outcome(self.root_exists(root), verifies(root@, leaf@, proof), root, caller, now)
    }

    /// The state after `unlock_access`: a granted attempt is entered in the
    /// ledger, any other attempt changes nothing.
    pub open spec fn unlock_access(
        self,
        root: HashValue,
        leaf: HashValue,
        proof: Seq<Seq<u8>>,
        caller: Identity,
        now: u64,
    ) -> State {
        if self.grants(root, leaf, proof) {
            State {
                roots: self.roots,
                last_access: recorded(self.last_access, root, caller, now),
            }
        } else {
            self
        }
    }
}

/// Publishing a root twice leaves the record of the second publication and
/// nothing of the first; the root is active after each.
pub proof fn lemma_republish_overwrites(
    state: State,
    root: HashValue,
    first: Identity,
    first_time: u64,
    second: Identity,
    second_time: u64,
)
    ensures
        state.publish_root(root, first, first_time).root_exists(root),
        state.publish_root(root, first, first_time).publish_root(
            root,
            second,
            second_time,
        ) == state.publish_root(root, second, second_time),
        state.publish_root(root, second, second_time).root_exists(root),
        state.publish_root(root, second, second_time).get_root_info(root)
            == RootRecord::spec_fresh(second, second_time),
{
    let once = state.publish_root(root, first, first_time);
    let twice = once.publish_root(root, second, second_time);
    assert(twice.roots =~= state.publish_root(root, second, second_time).roots);
}

/// Publishing one root changes nothing for any other root, nor the ledger.
pub proof fn lemma_publish_is_local(
    state: State,
    root: HashValue,
    publisher: Identity,
    now: u64,
    other: HashValue,
)
    requires
        other != root,
    ensures
        state.publish_root(root, publisher, now).root_exists(other) == state.root_exists(other),
        state.publish_root(root, publisher, now).get_root_info(other) == state.get_root_info(
            other,
        ),
        state.publish_root(root, publisher, now).last_access == state.last_access,
{
}

/// A root that is not on record does not exist for queries, is described by
/// the zero record, and makes an access attempt fail whatever the proof.
pub proof fn lemma_unknown_root(
    state: State,
    root: HashValue,
    leaf: HashValue,
    proof: Seq<Seq<u8>>,
    caller: Identity,
    now: u64,
)
    requires
        !state.roots.contains_key(root),
    ensures
        !state.root_exists(root),
        state.get_root_info(root) == RootRecord::spec_unknown(),
        state.get_root_info(root).publisher.is_zero(),
        state.unlock_outcome(root, leaf, proof, caller, now).result == Err::<bool, DeniedReason>(
            DeniedReason::RootNotFoundOrInactive,
        ),
        state.unlock_access(root, leaf, proof, caller, now) == state,
{
    Identity::lemma_zero(Identity::spec_zero());
}

/// An access attempt that is not granted, be it denied or failed, leaves the
/// whole state as it was; the caller's last access under the root, like
/// everyone's under every root, is what it was before.
pub proof fn lemma_denial_changes_nothing(
    state: State,
    root: HashValue,
    leaf: HashValue,
    proof: Seq<Seq<u8>>,
    caller: Identity,
    now: u64,
)
    requires
        state.unlock_outcome(root, leaf, proof, caller, now).result != Ok::<bool, DeniedReason>(
            true,
        ),
    ensures
        state.unlock_access(root, leaf, proof, caller, now) == state,
        state.unlock_access(root, leaf, proof, caller, now).get_last_access(root, caller)
            == state.get_last_access(root, caller),
{
}

/// An access attempt is granted exactly when the root is active and the proof
/// holds; it is denied exactly when the root is active and the proof does not
/// hold; it fails exactly when the root is not active.
pub proof fn lemma_outcome_cases(
    state: State,
    root: HashValue,
    leaf: HashValue,
    proof: Seq<Seq<u8>>,
    caller: Identity,
    now: u64,
)
    ensures
        ({
            let outcome = state.unlock_outcome(root, leaf, proof, caller, now);
            &&& outcome.result == Ok::<bool, DeniedReason>(true) <==> state.grants(
                root,
                leaf,
                proof,
            )
            &&& outcome.result == Ok::<bool, DeniedReason>(false) <==> state.root_exists(root)
                && !verifies(root@, leaf@, proof)
            &&& outcome.result is Err <==> !state.root_exists(root)
        }),
{
}

/// After a granted access attempt the caller's last access under the root is
/// the time of the attempt; the registry and every other entry of the ledger
/// are what they were.
pub proof fn lemma_grant_is_recorded(
    state: State,
    root: HashValue,
    leaf: HashValue,
    proof: Seq<Seq<u8>>,
    caller: Identity,
    now: u64,
    other_root: HashValue,
    other_caller: Identity,
)
    requires
        state.unlock_outcome(root, leaf, proof, caller, now).result == Ok::<bool, DeniedReason>(
            true,
        ),
    ensures
        state.unlock_access(root, leaf, proof, caller, now).get_last_access(root, caller) == now,
        state.unlock_access(root, leaf, proof, caller, now).roots == state.roots,
        (other_root, other_caller) != (root, caller) ==> state.unlock_access(
            root,
            leaf,
            proof,
            caller,
            now,
        ).get_last_access(other_root, other_caller) == state.get_last_access(
            other_root,
            other_caller,
        ),
{
}

/// The registry of roots together with the access ledger.
///
/// The caller's identity and the time of a call are handed in by the
/// execution context with each call; notifications are handed back.
pub struct ZKPJWTVerifier {
    roots: RootRegistry,
    last_access: AccessLedger,
}

impl View for ZKPJWTVerifier {
    type V = State;

    closed spec fn view(&self) -> State {
        State { roots: self.roots@, last_access: self.last_access@ }
    }
}

impl ZKPJWTVerifier {
    /// A verifier with no root published and no access on record.
    pub fn new() -> (verifier: ZKPJWTVerifier)
        ensures
            verifier@ == State::initial(),
    {
        ZKPJWTVerifier { roots: RootRegistry::new(), last_access: AccessLedger::new() }
    }

    /// Publishes `root` for `publisher` at `now` and reports it. Publishing a
    /// root again overwrites its record; the ledger is left alone.
    pub fn publish_root(&mut self, root: HashValue, publisher: Identity, now: u64) -> (event:
        Notification)
        ensures
            final(self)@ == old(self)@.publish_root(root, publisher, now),
            event == (Notification::RootPublished { root, publisher, timestamp: now }),
    {
        self.roots.publish(root, publisher, now)
    }

    /// Checks a Merkle inclusion proof; reads and changes no state.
    pub fn verify_proof(&self, root: HashValue, leaf: HashValue, proof: Vec<HashValue>) -> (valid:
        bool)
        ensures
            valid == verifies(root@, leaf@, proof.deep_view()),
    {
        verify(root, leaf, &proof)
    }

    /// Applies the decision that follows from the two facts the caller has
    /// established: a grant is entered in the ledger for `caller` at `now`,
    /// anything else leaves the state as it is. Returns the outcome.
    pub fn settle_access(
        &mut self,
        root_is_active: bool,
        proof_is_valid: bool,
        root: HashValue,
        caller: Identity,
        now: u64,
    ) -> (outcome: AccessOutcome)
        ensures
            outcome == access_outcome(root_is_active, proof_is_valid, root, caller, now),
            final(self)@.roots == old(self)@.roots,
            final(self)@.last_access == (if root_is_active && proof_is_valid {
                recorded(old(self)@.last_access, root, caller, now)
            } else {
                old(self)@.last_access
            }),
    {
        let outcome = resolve_access(root_is_active, proof_is_valid, root, caller, now);
        if root_is_active && proof_is_valid {
            self.last_access.record_access(root, caller, now);
        }
        outcome
    }

    /// Unlocks access for `caller` at `now` by a proof that `leaf` belongs to
    /// the tree under `root`.
    ///
    /// Against an unknown or inactive root the call fails. Against an active
    /// root the result says whether the proof holds; only then, and only if
    /// it holds, is the access entered in the ledger.
    pub fn unlock_access(
        &mut self,
        root: HashValue,
        leaf: HashValue,
        proof: Vec<HashValue>,
        caller: Identity,
        now: u64,
    ) -> (outcome: AccessOutcome)
        ensures
            outcome == old(self)@.unlock_outcome(root, leaf, proof.deep_view(), caller, now),
            final(self)@ == old(self)@.unlock_access(root, leaf, proof.deep_view(), caller, now),
    {
        let root_is_active = self.roots.is_active(root);
        let proof_is_valid = root_is_active && verify(root, leaf, &proof);
        self.settle_access(root_is_active, proof_is_valid, root, caller, now)
    }

    /// Whether `root` is on record and active.
    pub fn root_exists(&self, root: HashValue) -> (active: bool)
        ensures
            active == self@.root_exists(root),
    {
        self.roots.is_active(root)
    }

    /// The publisher, publication time and active flag of `root`; the zero
    /// identity, 0 and false for a root that is not on record.
    pub fn get_root_info(&self, root: HashValue) -> (info: (Identity, u64, bool))
        ensures
            info.0 == self@.get_root_info(root).publisher,
            info.1 == self@.get_root_info(root).published_at,
            info.2 == self@.get_root_info(root).active,
    {
        let record = self.roots.describe(root);
        (record.publisher, record.published_at, record.active)
    }

    /// When `user` was last granted access under `root`; 0 if never.
    pub fn get_last_access(&self, root: HashValue, user: Identity) -> (time: u64)
        ensures
            time == self@.get_last_access(root, user),
    {
        self.last_access.last_access(root, user)
    }
}

} // verus!
