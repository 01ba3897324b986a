//! What a changed leaf or a changed proof element does to verification.

use vstd::prelude::*;
use crate::bytes::be_value;
use crate::hash_pair::{combined, keccak256, lemma_ordered_pair_symmetric, ordered_pair};
use crate::merkle::{climb, verifies, well_sized};

verus! {

/// Whether `x` and `y` are different inputs with one Keccak-256 digest.
pub open spec fn keccak_collision(x: Seq<u8>, y: Seq<u8>) -> bool {
    x != y && keccak256(x) == keccak256(y)
}

/// Whether any two different inputs have one Keccak-256 digest.
pub open spec fn collision_exists() -> bool {
    exists|x: Seq<u8>, y: Seq<u8>| keccak_collision(x, y)
}

/// Equal concatenations whose first parts have one length have equal parts.
pub proof fn lemma_concat_parts(a: Seq<u8>, b: Seq<u8>, c: Seq<u8>, d: Seq<u8>)
    requires
        a.len() == c.len(),
        a + b == c + d,
    ensures
        a == c,
        b == d,
{
    assert((a + b).len() == (c + d).len());
    assert(a =~= (a + b).subrange(0, a.len() as int));
    assert(c =~= (c + d).subrange(0, c.len() as int));
    assert(b =~= (a + b).subrange(a.len() as int, (a + b).len() as int));
    assert(d =~= (c + d).subrange(c.len() as int, (c + d).len() as int));
}

/// Two different hashes, each paired with one and the same sibling, are
/// hashed from different bytes.
pub proof fn lemma_ordered_pair_injective(x: Seq<u8>, y: Seq<u8>, sibling: Seq<u8>)
    requires
        x.len() == sibling.len(),
        y.len() == sibling.len(),
        x != y,
    ensures
        ordered_pair(x, sibling) != ordered_pair(y, sibling),
{
    if ordered_pair(x, sibling) == ordered_pair(y, sibling) {
        if be_value(x) <= be_value(sibling) {
            if be_value(y) <= be_value(sibling) {
                lemma_concat_parts(x, sibling, y, sibling);
            } else {
                lemma_concat_parts(x, sibling, sibling, y);
            }
        } else {
            if be_value(y) <= be_value(sibling) {
                lemma_concat_parts(sibling, x, y, sibling);
            } else {
                lemma_concat_parts(sibling, x, sibling, y);
            }
        }
    }
}

/// The hash reached at the top of a well-sized climb is 32 bytes wide.
pub proof fn lemma_climb_sized(leaf: Seq<u8>, proof: Seq<Seq<u8>>)
    requires
        well_sized(leaf, proof),
    ensures
        climb(leaf, proof).len() == 32,
{
}

/// Two hashes that differ and are combined with one sibling give different
/// hashes, short of a collision.
proof fn lemma_step_keeps_apart(x: Seq<u8>, y: Seq<u8>, sibling: Seq<u8>)
    requires
        x.len() == 32,
        y.len() == 32,
        sibling.len() == 32,
        x != y,
    ensures
        combined(x, sibling) != combined(y, sibling) || collision_exists(),
{
    lemma_ordered_pair_injective(x, y, sibling);
    if combined(x, sibling) == combined(y, sibling) {
        assert(keccak_collision(ordered_pair(x, sibling), ordered_pair(y, sibling)));
    }
}

/// Climbing from two different leaves along one proof ends at different
/// hashes, short of a collision.
pub proof fn lemma_leaves_stay_apart(leaf: Seq<u8>, other: Seq<u8>, proof: Seq<Seq<u8>>)
    requires
        leaf != other,
        well_sized(leaf, proof),
        well_sized(other, proof),
    ensures
        climb(leaf, proof) != climb(other, proof) || collision_exists(),
    decreases proof.len(),
{
    if proof.len() > 0 {
        let below = proof.drop_last();
        lemma_leaves_stay_apart(leaf, other, below);
        lemma_climb_sized(leaf, below);
        lemma_climb_sized(other, below);
        if !collision_exists() {
            lemma_step_keeps_apart(climb(leaf, below), climb(other, below), proof.last());
        }
    }
}

/// Climbing from one leaf along two proofs that differ in the element at
/// `at` ends at different hashes, short of a collision.
pub proof fn lemma_proofs_stay_apart(
    leaf: Seq<u8>,
    proof: Seq<Seq<u8>>,
    at: int,
    changed: Seq<u8>,
)
    requires
        0 <= at < proof.len(),
        changed != proof[at],
        well_sized(leaf, proof),
        well_sized(leaf, proof.update(at, changed)),
    ensures
        climb(leaf, proof) != climb(leaf, proof.update(at, changed)) || collision_exists(),
    decreases proof.len(),
{
    let other = proof.update(at, changed);
    let below = proof.drop_last();
    lemma_climb_sized(leaf, below);
    if at == proof.len() - 1 {
        assert(other.drop_last() =~= below);
        let reached = climb(leaf, below);
        lemma_ordered_pair_symmetric(reached, proof.last());
        lemma_ordered_pair_symmetric(reached, changed);
        lemma_ordered_pair_injective(proof.last(), changed, reached);
        if climb(leaf, proof) == climb(leaf, other) {
            assert(keccak_collision(
                ordered_pair(reached, proof.last()),
                ordered_pair(reached, changed),
            ));
        }
    } else {
        assert(other.drop_last() =~= below.update(at, changed));
        assert(other.last() == proof.last());
        lemma_proofs_stay_apart(leaf, below, at, changed);
        lemma_climb_sized(leaf, other.drop_last());
        if !collision_exists() {
            lemma_step_keeps_apart(
                climb(leaf, below),
                climb(leaf, other.drop_last()),
                proof.last(),
            );
        }
    }
}

/// A proof that verifies for a leaf does not verify for any other leaf,
/// unless two different inputs have one Keccak-256 digest.
pub proof fn lemma_changed_leaf_rejected(
    root: Seq<u8>,
    leaf: Seq<u8>,
    changed: Seq<u8>,
    proof: Seq<Seq<u8>>,
)
    requires
        verifies(root, leaf, proof),
        changed != leaf,
        well_sized(leaf, proof),
        well_sized(changed, proof),
    ensures
        !verifies(root, changed, proof) || collision_exists(),
{
    lemma_leaves_stay_apart(leaf, changed, proof);
}

/// A proof that verifies no longer does once one of its elements is changed,
/// unless two different inputs have one Keccak-256 digest.
pub proof fn lemma_changed_sibling_rejected(
    root: Seq<u8>,
    leaf: Seq<u8>,
    proof: Seq<Seq<u8>>,
    at: int,
    changed: Seq<u8>,
)
    requires
        verifies(root, leaf, proof),
        0 <= at < proof.len(),
        changed != proof[at],
        well_sized(leaf, proof),
        well_sized(leaf, proof.update(at, changed)),
    ensures
        !verifies(root, leaf, proof.update(at, changed)) || collision_exists(),
{
    lemma_proofs_stay_apart(leaf, proof, at, changed);
}

} // verus!
