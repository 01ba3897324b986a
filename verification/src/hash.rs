//! 256-bit hash values.

use vstd::prelude::*;
use vstd::std_specs::cmp::PartialEqSpecImpl;
use crate::bytes::{be_value, bytes_at_most, bytes_equal, lemma_be_value_injective};

verus! {

/// A 256-bit hash: a leaf, a sibling on a proof path, or a Merkle root.
///
/// Two hash values are the same value exactly when their bytes are the same.
/// They are ordered as unsigned big-endian numbers.
#[derive(Clone, Copy, Debug)]
pub struct HashValue(pub [u8; 32]);

impl View for HashValue {
    type V = Seq<u8>;

    open spec fn view(&self) -> Seq<u8> {
        self.0@
    }
}

impl DeepView for HashValue {
    type V = Seq<u8>;

    open spec fn deep_view(&self) -> Seq<u8> {
        self.0@
    }
}

impl HashValue {
    /// The hash read as an unsigned big-endian number.
    pub open spec fn value(self) -> nat {
        be_value(self@)
    }

    /// Wraps 32 bytes as a hash value.
    pub fn new(bytes: [u8; 32]) -> (hash: HashValue)
        ensures
            hash@ == bytes@,
            hash == HashValue(bytes),
    {
        HashValue(bytes)
    }

    /// The 32 bytes of the hash.
    pub fn to_bytes(&self) -> (bytes: [u8; 32])
        ensures
            bytes@ == self@,
            bytes == self.0,
    {
        self.0
    }

    /// Whether `self` comes before or with `other` in the numeric order.
    pub fn at_most(&self, other: &HashValue) -> (at_most: bool)
        ensures
            at_most == (self.value() <= other.value()),
    {
        bytes_at_most(&self.0, &other.0)
    }

    /// Hash values are equal exactly when their bytes are, and exactly when
    /// their numbers are.
    pub proof fn lemma_equality(a: HashValue, b: HashValue)
        ensures
            (a == b) == (a@ == b@),
            (a == b) == (a.value() == b.value()),
    {
        if a@ == b@ {
            assert(a.0 =~= b.0);
        }
        if a.value() == b.value() {
            lemma_be_value_injective(a@, b@);
        }
    }
}

impl PartialEq for HashValue {
    fn eq(&self, other: &HashValue) -> (same: bool) {
        proof {
            HashValue::lemma_equality(*self, *other);
        }
        bytes_equal(&self.0, &other.0)
    }
}

impl PartialEqSpecImpl for HashValue {
    open spec fn obeys_eq_spec() -> bool {
        true
    }

    open spec fn eq_spec(&self, other: &HashValue) -> bool {
        *self == *other
    }
}

impl Eq for HashValue {}

} // verus!
