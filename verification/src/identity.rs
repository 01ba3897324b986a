//! Caller identities.

use vstd::prelude::*;
use vstd::std_specs::cmp::PartialEqSpecImpl;
use crate::bytes::bytes_equal;

verus! {

/// Who made a call: a 20-byte identifier handed in by the execution context.
///
/// Nothing inside an identity is interpreted; identities are only compared.
#[derive(Clone, Copy, Debug)]
pub struct Identity(pub [u8; 20]);

impl View for Identity {
    type V = Seq<u8>;

    open spec fn view(&self) -> Seq<u8> {
        self.0@
    }
}

impl Identity {
    /// Whether every byte of the identity is zero.
    pub open spec fn is_zero(self) -> bool {
        forall|i: int| 0 <= i < 20 ==> self@[i] == 0
    }

    /// The identity whose bytes are all zero.
    pub closed spec fn spec_zero() -> Identity {
        Identity(vstd::array::spec_array_fill_for_copy_type::<u8, 20>(0u8))
    }

    /// The identity whose bytes are all zero, reported where no identity is
    /// on record.
    #[verifier::when_used_as_spec(spec_zero)]
    pub fn zero() -> (id: Identity)
        ensures
            id == Identity::spec_zero(),
            id.is_zero(),
    {
        Identity([0u8; 20])
    }

    /// Wraps 20 bytes as an identity.
    pub fn new(bytes: [u8; 20]) -> (id: Identity)
        ensures
            id == Identity(bytes),
    {
        Identity(bytes)
    }

    /// The 20 bytes of the identity.
    pub fn to_bytes(&self) -> (bytes: [u8; 20])
        ensures
            bytes == self.0,
    {
        self.0
    }

    /// Identities are equal exactly when their bytes are.
    pub proof fn lemma_equality(a: Identity, b: Identity)
        ensures
            (a == b) == (a@ == b@),
    {
        if a@ == b@ {
            assert(a.0 =~= b.0);
        }
    }

    /// The zero identity is the one identity whose bytes are all zero.
    pub proof fn lemma_zero(id: Identity)
        ensures
            id.is_zero() == (id == Identity::spec_zero()),
    {
        let zero = Identity::spec_zero();
        assert(zero.is_zero());
        if id.is_zero() {
            assert forall|i: int| 0 <= i < 20 implies id.0[i] == zero.0[i] by {
                assert(id@[i] == 0 && zero@[i] == 0);
            }
            assert(id.0 =~= zero.0);
        }
    }
}

impl PartialEq for Identity {
    fn eq(&self, other: &Identity) -> (same: bool) {
        proof {
            Identity::lemma_equality(*self, *other);
        }
        bytes_equal(&self.0, &other.0)
    }
}

impl PartialEqSpecImpl for Identity {
    open spec fn obeys_eq_spec() -> bool {
        true
    }

    open spec fn eq_spec(&self, other: &Identity) -> bool {
        *self == *other
    }
}

impl Eq for Identity {}

} // verus!
