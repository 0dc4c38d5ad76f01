//! Identities: the principals that own tokens and call the registry.

use vstd::prelude::*;

verus! {

/// An identity, given by 32 bytes. The registry never looks inside an
/// identity; it only asks whether two of them are the same.
#[derive(Clone, Copy, Debug, Eq, Hash)]
pub struct AccountId {
    pub bytes: [u8; 32],
}

impl AccountId {
    /// The bytes that make up this identity.
    pub fn as_bytes(&self) -> (bytes: &[u8; 32])
        ensures
            *bytes == self.bytes,
    {
        &self.bytes
    }

    /// Two identities with the same bytes are the same identity.
    pub proof fn lemma_same_bytes_same_identity(self, other: AccountId)
        ensures
            (self == other) <==> (forall|i: int| 0 <= i < 32 ==> self.bytes[i] == other.bytes[i]),
    {
        if forall|i: int| 0 <= i < 32 ==> self.bytes[i] == other.bytes[i] {
            assert(self.bytes =~= other.bytes);
        }
    }
}

impl PartialEq for AccountId {
    fn eq(&self, other: &Self) -> (same: bool) {
        let mut i: usize = 0;
        while i < 32
            invariant
                i <= 32,
                forall|j: int| 0 <= j < i ==> self.bytes[j] == other.bytes[j],
            decreases 32 - i,
        {
            if self.bytes[i] != other.bytes[i] {
                return false;
            }
            i += 1;
        }
        proof {
            self.lemma_same_bytes_same_identity(*other);
        }
        true
    }
}

impl vstd::std_specs::cmp::PartialEqSpecImpl for AccountId {
    open spec fn obeys_eq_spec() -> bool {
        true
    }

    open spec fn eq_spec(&self, other: &Self) -> bool {
        *self == *other
    }
}

impl From<[u8; 32]> for AccountId {
    fn from(bytes: [u8; 32]) -> (id: Self) {
        AccountId { bytes }
    }
}

impl vstd::std_specs::convert::FromSpecImpl<[u8; 32]> for AccountId {
    open spec fn obeys_from_spec() -> bool {
        true
    }

    open spec fn from_spec(bytes: [u8; 32]) -> Self {
        AccountId { bytes }
    }
}

} // verus!
