use crate::errors::Error;
use crate::identity::Identity;
use vstd::prelude::*;

verus! {

/// What the validation of an escrow reads of it.
pub struct EscrowInfo {
    /// Those who may approve the milestones of the escrow.
    pub validators: Vec<Identity>,
}

/// Whether `who` is among the validators.
pub open spec fn is_validator(validators: Seq<Identity>, who: Identity) -> bool {
    exists|i: int| 0 <= i < validators.len() && (#[trigger] validators[i]).same(who)
}

/// Validate that an address is a validator in the escrow.
pub fn validate_validator(escrow: &EscrowInfo, validator: &Identity) -> (res: Result<(), Error>)
    ensures
        res == if is_validator(escrow.validators@, *validator) {
            Ok::<(), Error>(())
        } else {
            Err::<(), Error>(Error::NotAValidator)
        },
{
    let n: usize = escrow.validators.len();
    let mut i: usize = 0;
    while i < n
        invariant
            n == escrow.validators@.len(),
            i <= n,
            forall|j: int| 0 <= j < i ==> !(#[trigger] escrow.validators@[j]).same(*validator),
        decreases n - i,
    {
        if escrow.validators[i].equals(validator) {
            return Ok(());
        }
        i += 1;
    }
    Err(Error::NotAValidator)
}

} // verus!
