use vstd::prelude::*;

verus! {

/// An account or contract on the ledger, identified by its 32-byte public key.
#[derive(Clone, Copy, Debug, PartialEq, Eq)]
pub struct Address {
    pub key: [u8; 32],
}

impl Address {
    /// The account whose public key is `key`.
    pub fn from_public_key(key: [u8; 32]) -> (a: Address)
        ensures
            a.key == key,
    {
        Address { key }
    }

    /// Whether `self` and `other` are the same account.
    pub fn same_as(&self, other: &Address) -> (r: bool)
        ensures
            r == (*self == *other),
    {
        let mut i: usize = 0;
        while i < 32
            invariant
                0 <= i <= 32,
                forall|j: int| 0 <= j < i ==> self.key[j] == other.key[j],
            decreases 32 - i,
        {
            if self.key[i] != other.key[i] {
                return false;
            }
            i = i + 1;
        }
        assert(self.key =~= other.key);
        true
    }
}

} // verus!
