use vstd::prelude::*;

use crate::errors::StakeError;

verus! {

/// The custody-transfer capability every handler goes through: move `amount`
/// from one balance to another, all or nothing. A failure — the source
/// cannot cover `amount` — leaves both balances exactly as they were.
pub fn transfer(from: &mut u64, to: &mut u64, amount: u64) -> (r: Result<(), StakeError>)
    requires
        amount <= *old(from) ==> *old(to) + amount <= u64::MAX,
    ensures
        r is Ok <==> amount <= *old(from),
        r is Ok ==> *final(from) == *old(from) - amount && *final(to) == *old(to) + amount,
        r is Err ==> r == Err::<(), StakeError>(StakeError::InsufficientFunds) && *final(from) == *old(from)
            && *final(to) == *old(to),
        *final(from) + *final(to) == *old(from) + *old(to),
{
    if amount <= *from {
        *from = *from - amount;
        *to = *to + amount;
        Ok(())
    } else {
        Err(StakeError::InsufficientFunds)
    }
}

} // verus!
