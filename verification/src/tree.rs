//! Merkle trees as mathematical objects, and the proofs they give rise to.

use vstd::prelude::*;
use crate::hash_pair::{combined, lemma_ordered_pair_symmetric};
use crate::merkle::verifies;

verus! {

/// A binary tree of hashes: leaves carry a hash, an inner node carries the
/// combination of its two children.
pub enum MerkleTree {
    /// A leaf with its hash.
    Leaf { hash: Seq<u8> },
    /// An inner node with its two subtrees.
    Node { left: Box<MerkleTree>, right: Box<MerkleTree> },
}

/// A turn on the way from a node down to a leaf.
pub enum Turn {
    /// Into the left subtree.
    Left,
    /// Into the right subtree.
    Right,
}

impl MerkleTree {
    /// The hash at the top of the tree.
    pub open spec fn root(self) -> Seq<u8>
        decreases self,
    {
        match self {
            MerkleTree::Leaf { hash } => hash,
            MerkleTree::Node { left, right } => combined(left.root(), right.root()),
        }
    }

    /// Whether every hash in the tree, at the leaves and above, is 32 bytes
    /// wide.
    pub open spec fn well_sized(self) -> bool
        decreases self,
    {
        &&& self.root().len() == 32
        &&& match self {
            MerkleTree::Leaf { hash } => true,
            MerkleTree::Node { left, right } => left.well_sized() && right.well_sized(),
        }
    }

    /// The leaf that `path` leads to from the top, if it leads to one.
    pub open spec fn leaf_at(self, path: Seq<Turn>) -> Option<Seq<u8>>
        decreases self,
    {
        match self {
            MerkleTree::Leaf { hash } => if path.len() == 0 {
                Some(hash)
            } else {
                None
            },
            MerkleTree::Node { left, right } => if path.len() == 0 {
                None
            } else {
                match path.first() {
                    Turn::Left => left.leaf_at(path.drop_first()),
                    Turn::Right => right.leaf_at(path.drop_first()),
                }
            },
        }
    }

    /// The inclusion proof for the leaf at `path`: the hashes of the subtrees
    /// passed by on the way, from the leaf upwards.
    pub open spec fn proof_for(self, path: Seq<Turn>) -> Seq<Seq<u8>>
        decreases self,
    {
        match self {
            MerkleTree::Leaf { hash } => Seq::empty(),
            MerkleTree::Node { left, right } => if path.len() == 0 {
                Seq::empty()
            } else {
                match path.first() {
                    Turn::Left => left.proof_for(path.drop_first()).push(right.root()),
                    Turn::Right => right.proof_for(path.drop_first()).push(left.root()),
                }
            },
        }
    }

    /// For every leaf of a tree built with `combine`, the proof derived from
    /// the tree verifies against the tree's root.
    pub proof fn lemma_derived_proof_verifies(self, path: Seq<Turn>)
        requires
            self.well_sized(),
            self.leaf_at(path) is Some,
        ensures
            verifies(self.root(), self.leaf_at(path).unwrap(), self.proof_for(path)),
        decreases self,
    {
        match self {
            MerkleTree::Leaf { hash } => {},
            MerkleTree::Node { left, right } => {
                let rest = path.drop_first();
                let leaf = self.leaf_at(path).unwrap();
                match path.first() {
                    Turn::Left => {
                        left.lemma_derived_proof_verifies(rest);
                        let below = left.proof_for(rest);
                        assert(below.push(right.root()).drop_last() =~= below);
                    },
                    Turn::Right => {
                        right.lemma_derived_proof_verifies(rest);
                        let below = right.proof_for(rest);
                        assert(below.push(left.root()).drop_last() =~= below);
                        assert(left.well_sized() && right.well_sized());
                        lemma_ordered_pair_symmetric(left.root(), right.root());
                    },
                }
            },
        }
    }
}

} // verus!
