//! States reached by sequences of calls, and what stays true of all of them.

use vstd::prelude::*;
use crate::access::{lemma_unknown_root, State};
use crate::events::DeniedReason;
use crate::hash::HashValue;
use crate::identity::Identity;
use crate::registry::RootRecord;

verus! {

/// A call that can change the state.
pub enum Operation {
    /// `publisher` publishes `root` at `now`.
    PublishRoot { root: HashValue, publisher: Identity, now: u64 },
    /// `caller` attempts access under `root` at `now`.
    UnlockAccess {
        root: HashValue,
        leaf: HashValue,
        proof: Seq<Seq<u8>>,
        caller: Identity,
        now: u64,
    },
}

impl State {
    /// The state after one call.
    pub open spec fn apply(self, operation: Operation) -> State {
        match operation {
            Operation::PublishRoot { root, publisher, now } => self.publish_root(
                root,
                publisher,
                now,
            ),
            Operation::UnlockAccess { root, leaf, proof, caller, now } => self.unlock_access(
                root,
                leaf,
                proof,
                caller,
                now,
            ),
        }
    }

    /// The state after the calls of `history`, made in order from the initial
    /// state.
    pub open spec fn after(history: Seq<Operation>) -> State
        decreases history.len(),
    {
        if history.len() == 0 {
            State::initial()
        } else {
            State::after(history.drop_last()).apply(history.last())
        }
    }
}

/// Whether `operation` publishes `root`.
pub open spec fn publishes(operation: Operation, root: HashValue) -> bool {
    operation matches Operation::PublishRoot { root: published, .. } && published == root
}

/// Whether some call of `history` publishes `root`.
pub open spec fn was_published(history: Seq<Operation>, root: HashValue) -> bool {
    exists|i: int| 0 <= i < history.len() && publishes(#[trigger] history[i], root)
}

/// Whether the call at `at` is an access attempt by `caller` under `root`
/// that is granted in the state it is made in.
pub open spec fn granted_at(
    history: Seq<Operation>,
    at: int,
    root: HashValue,
    caller: Identity,
) -> bool {
    &&& 0 <= at < history.len()
    &&& history[at] matches Operation::UnlockAccess {
        root: asked,
        leaf,
        proof,
        caller: asking,
        now,
    }
    &&& asked == root
    &&& asking == caller
    &&& State::after(history.take(at)).grants(asked, leaf, proof)
}

/// Whether some call of `history` grants `caller` access under `root`.
pub open spec fn was_granted(history: Seq<Operation>, root: HashValue, caller: Identity) -> bool {
    exists|at: int| #[trigger] granted_at(history, at, root, caller)
}

/// A root is on record exactly when it was published at least once, and
/// every root on record is active.
pub proof fn lemma_on_record_iff_published(history: Seq<Operation>, root: HashValue)
    ensures
        State::after(history).roots.contains_key(root) == was_published(history, root),
        State::after(history).root_exists(root) == was_published(history, root),
    decreases history.len(),
{
    if history.len() > 0 {
        let earlier = history.drop_last();
        let last = history.last();
        lemma_on_record_iff_published(earlier, root);
        if was_published(earlier, root) {
            let i = choose|i: int| 0 <= i < earlier.len() && publishes(#[trigger] earlier[i], root);
            assert(publishes(history[i], root));
        }
        if publishes(last, root) {
            assert(publishes(history[history.len() - 1], root));
        }
        if was_published(history, root) {
            let i = choose|i: int| 0 <= i < history.len() && publishes(#[trigger] history[i], root);
            if i < earlier.len() {
                assert(publishes(earlier[i], root));
            }
        }
    }
}

/// A root that was never published does not exist for queries, is described
/// by the zero record, and makes every access attempt fail.
pub proof fn lemma_never_published_root(
    history: Seq<Operation>,
    root: HashValue,
    leaf: HashValue,
    proof: Seq<Seq<u8>>,
    caller: Identity,
    now: u64,
)
    requires
        !was_published(history, root),
    ensures
        !State::after(history).root_exists(root),
        State::after(history).get_root_info(root) == RootRecord::spec_unknown(),
        State::after(history).unlock_outcome(root, leaf, proof, caller, now).result == Err::<
            bool,
            DeniedReason,
        >(DeniedReason::RootNotFoundOrInactive),
{
    lemma_on_record_iff_published(history, root);
    lemma_unknown_root(State::after(history), root, leaf, proof, caller, now);
}

/// The ledger has an entry for a caller under a root exactly when some
/// attempt of that caller under that root was granted; entries are made by
/// nothing else and are never removed.
pub proof fn lemma_in_ledger_iff_granted(
    history: Seq<Operation>,
    root: HashValue,
    caller: Identity,
)
    ensures
        State::after(history).last_access.contains_key((root, caller)) == was_granted(
            history,
            root,
            caller,
        ),
        !was_granted(history, root, caller) ==> State::after(history).get_last_access(
            root,
            caller,
        ) == 0,
    decreases history.len(),
{
    if history.len() > 0 {
        let earlier = history.drop_last();
        let last_at = history.len() - 1;
        lemma_in_ledger_iff_granted(earlier, root, caller);
        assert(history.take(last_at) =~= earlier);
        if was_granted(earlier, root, caller) {
            let at = choose|at: int| #[trigger] granted_at(earlier, at, root, caller);
            assert(earlier.take(at) =~= history.take(at));
            assert(granted_at(history, at, root, caller));
        }
        if was_granted(history, root, caller) {
            let at = choose|at: int| #[trigger] granted_at(history, at, root, caller);
            if at < last_at {
                assert(earlier.take(at) =~= history.take(at));
                assert(granted_at(earlier, at, root, caller));
            }
        }
        if State::after(history).last_access.contains_key((root, caller)) && !State::after(
            earlier,
        ).last_access.contains_key((root, caller)) {
            assert(granted_at(history, last_at, root, caller));
        }
    }
}

/// The time at which `operation` is made.
pub open spec fn time_of(operation: Operation) -> u64 {
    match operation {
        Operation::PublishRoot { now, .. } => now,
        Operation::UnlockAccess { now, .. } => now,
    }
}

/// Whether the clock never runs backwards from one call of `history` to a
/// later one.
pub open spec fn in_time_order(history: Seq<Operation>) -> bool {
    forall|i: int, j: int|
        0 <= i <= j < history.len() ==> time_of(#[trigger] history[i]) <= time_of(
            #[trigger] history[j],
        )
}

/// With a clock that never runs backwards, no time on record lies after the
/// time of the latest call.
pub proof fn lemma_records_are_not_ahead(
    history: Seq<Operation>,
    root: HashValue,
    caller: Identity,
)
    requires
        in_time_order(history),
        history.len() > 0,
    ensures
        State::after(history).get_root_info(root).published_at <= time_of(history.last()),
        State::after(history).get_last_access(root, caller) <= time_of(history.last()),
    decreases history.len(),
{
    let earlier = history.drop_last();
    let before = State::after(earlier);
    assert(State::after(history) == before.apply(history.last()));
    if earlier.len() == 0 {
        assert(before == State::initial());
    } else {
        assert(in_time_order(earlier)) by {
            assert forall|i: int, j: int| 0 <= i <= j < earlier.len() implies time_of(
                #[trigger] earlier[i],
            ) <= time_of(#[trigger] earlier[j]) by {
                assert(time_of(history[i]) <= time_of(history[j]));
            }
        }
        lemma_records_are_not_ahead(earlier, root, caller);
        assert(earlier.last() == history[earlier.len() - 1]);
        assert(time_of(history[earlier.len() - 1]) <= time_of(history[history.len() - 1]));
    }
}

} // verus!
