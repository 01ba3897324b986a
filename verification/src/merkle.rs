//! Verification of Merkle inclusion proofs.

use vstd::prelude::*;
use crate::hash::HashValue;
use crate::hash_pair::{combine, combined};

verus! {

/// The hash reached by climbing from `leaf` along `proof`: each sibling in
/// turn is combined with the hash reached so far.
pub open spec fn climb(leaf: Seq<u8>, proof: Seq<Seq<u8>>) -> Seq<u8>
    decreases proof.len(),
{
    if proof.len() == 0 {
        leaf
    } else {
        combined(climb(leaf, proof.drop_last()), proof.last())
    }
}

/// Whether `proof` leads from `leaf` to `root`.
pub open spec fn verifies(root: Seq<u8>, leaf: Seq<u8>, proof: Seq<Seq<u8>>) -> bool {
    climb(leaf, proof) == root
}

/// Whether the leaf, every sibling of `proof` and every hash reached on the
/// way up are 32 bytes wide.
pub open spec fn well_sized(leaf: Seq<u8>, proof: Seq<Seq<u8>>) -> bool
    decreases proof.len(),
{
    if proof.len() == 0 {
        leaf.len() == 32
    } else {
        &&& well_sized(leaf, proof.drop_last())
        &&& proof.last().len() == 32
        &&& climb(leaf, proof).len() == 32
    }
}

/// Checks a Merkle inclusion proof: true exactly when climbing from `leaf`
/// along `proof` ends at `root`. A proof that is too short, too long or
/// otherwise wrong is not an error; it does not verify.
///
/// Every hash computed on the way is a 32-byte value, which is what the laws
/// on changed leaves and changed siblings ask of a climb.
pub fn verify(root: HashValue, leaf: HashValue, proof: &Vec<HashValue>) -> (valid: bool)
    ensures
        valid == verifies(root@, leaf@, proof.deep_view()),
        well_sized(leaf@, proof.deep_view()),
{
    let ghost path = proof.deep_view();
    let mut current = leaf;
    let mut i: usize = 0;
    while i < proof.len()
        invariant
            i <= proof.len(),
            path == proof.deep_view(),
            current@ == climb(leaf@, path.take(i as int)),
            well_sized(leaf@, path.take(i as int)),
        decreases proof.len() - i,
    {
        proof {
            let next = path.take(i + 1);
            assert(next.drop_last() =~= path.take(i as int));
            assert(next.last() == proof@[i as int]@);
        }
        current = combine(current, proof[i]);
        i += 1;
    }
    proof {
        assert(path.take(i as int) =~= path);
        HashValue::lemma_equality(current, root);
    }
    current == root
}

/// With an empty proof the leaf must itself be the root.
pub proof fn lemma_empty_proof(root: HashValue, leaf: HashValue)
    ensures
        verifies(root@, leaf@, Seq::empty()) == (leaf == root),
{
    HashValue::lemma_equality(leaf, root);
}

} // verus!
