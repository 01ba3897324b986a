//! Order-independent combination of two hash values into one.

use vstd::prelude::*;
use crate::bytes::{be_value, lemma_be_value_injective};
use crate::hash::HashValue;

verus! {

/// The Keccak-256 digest of `data`, as `stylus_sdk::crypto::keccak` computes
/// it. Nothing is said here of what the digest of given bytes is.
pub uninterp spec fn keccak256(data: Seq<u8>) -> Seq<u8>;

/// Hashes a 64-byte buffer with `stylus_sdk::crypto::keccak`, which hands the
/// bytes on to `alloy_primitives::keccak256`.
///
/// Not proved, but taken from that function: the 32 bytes returned depend on
/// the bytes of the buffer alone, so equal buffers have equal digests
/// wherever and whenever they are hashed.
#[verifier::external_body]
fn keccak(data: &[u8; 64]) -> (digest: [u8; 32])
    ensures
        digest@ == keccak256(data@),
{
    stylus_sdk::crypto::keccak(data).0
}

/// The 64 bytes that are hashed for the pair: the smaller value first, then
/// the larger.
pub open spec fn ordered_pair(a: Seq<u8>, b: Seq<u8>) -> Seq<u8> {
    if be_value(a) <= be_value(b) {
        a + b
    } else {
        b + a
    }
}

/// The combination of `a` and `b`: the digest of the two in ascending order.
pub open spec fn combined(a: Seq<u8>, b: Seq<u8>) -> Seq<u8> {
    keccak256(ordered_pair(a, b))
}

/// The 64 bytes of `first` followed by `second`.
pub fn concat_pair(first: HashValue, second: HashValue) -> (data: [u8; 64])
    ensures
        data@ == first@ + second@,
{
    let mut data = [0u8; 64];
    let mut i: usize = 0;
    while i < 32
        invariant
            i <= 32,
            forall|j: int| 0 <= j < i ==> data@[j] == first@[j],
            forall|j: int| 0 <= j < i ==> data@[32 + j] == second@[j],
        decreases 32 - i,
    {
        data[i] = first.0[i];
        data[32 + i] = second.0[i];
        i += 1;
    }
    assert(data@ =~= first@ + second@);
    data
}

/// The digest of `first` followed by `second`.
pub fn keccak256_pair(first: HashValue, second: HashValue) -> (digest: HashValue)
    ensures
        digest@ == keccak256(first@ + second@),
{
    let data = concat_pair(first, second);
    HashValue(keccak(&data))
}

/// Combines two hash values into one, whichever way round they are given.
pub fn combine(a: HashValue, b: HashValue) -> (parent: HashValue)
    ensures
        parent@ == combined(a@, b@),
{
    if a.at_most(&b) {
        keccak256_pair(a, b)
    } else {
        keccak256_pair(b, a)
    }
}

/// Byte strings of one length are hashed in the same order whichever is
/// named first.
pub proof fn lemma_ordered_pair_symmetric(a: Seq<u8>, b: Seq<u8>)
    requires
        a.len() == b.len(),
    ensures
        ordered_pair(a, b) == ordered_pair(b, a),
{
    if be_value(a) == be_value(b) {
        lemma_be_value_injective(a, b);
    }
}

/// Combining is symmetric: `combine(a, b)` and `combine(b, a)` are the same
/// hash value.
pub proof fn lemma_combine_symmetric(a: HashValue, b: HashValue)
    ensures
        combined(a@, b@) == combined(b@, a@),
{
    lemma_ordered_pair_symmetric(a@, b@);
}

} // verus!
