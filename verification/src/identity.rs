use vstd::prelude::*;

verus! {

/// Who a party, a payer or an asset is on the ledger: an account or a
/// contract, known by its 32-byte key.
#[derive(Copy, Clone, Debug)]
pub struct Identity {
    /// Whether the key names a contract rather than an account.
    pub contract: bool,
    /// The public key of the account, or the hash that names the contract.
    pub key: [u8; 32],
}

impl Identity {
    /// The identity of the account with the given public key.
    pub fn account(key: [u8; 32]) -> (id: Identity)
        ensures
            !id.contract,
            id.key@ == key@,
    {
        Identity { contract: false, key }
    }

    /// The identity of the contract with the given hash.
    pub fn of_contract(key: [u8; 32]) -> (id: Identity)
        ensures
            id.contract,
            id.key@ == key@,
    {
        Identity { contract: true, key }
    }

    /// Two identities are the same when they are of one kind and have one key.
    pub open spec fn same(self, other: Identity) -> bool {
        self.contract == other.contract && self.key@ == other.key@
    }

    /// Whether `self` and `other` name the same account or contract.
    pub fn equals(&self, other: &Identity) -> (equal: bool)
        ensures
            equal == self.same(*other),
    {
        if self.contract != other.contract {
            return false;
        }
        let mut i: usize = 0;
        while i < 32
            invariant
                i <= 32,
                forall|j: int| 0 <= j < i ==> self.key@[j] == other.key@[j],
            decreases 32 - i,
        {
            if self.key[i] != other.key[i] {
                return false;
            }
            i += 1;
        }
        assert(self.key@ =~= other.key@);
        true
    }
}

} // verus!
