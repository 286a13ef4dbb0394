use vstd::prelude::*;

verus! {

/// One per-owner ledger entry: how much of the owner's token balance is
/// currently held in escrow by the program.
#[derive(Clone, Copy, Debug, PartialEq, Eq, Structural)]
pub struct StakeRecord {
    /// Identity entitled to mutate this record; never changes after creation.
    pub owner: u64,
    /// Amount currently escrowed on behalf of `owner`.
    pub staked_amount: u64,
    /// Fast-path guard rejecting a second stake before a full unstake:
    /// true exactly when something is escrowed.
    pub is_staked: bool,
}

impl StakeRecord {
    /// Flag and amount agree: `is_staked` holds exactly when the escrow is
    /// non-empty. Every handler leaves every record in this state.
    pub open spec fn wf(self) -> bool {
        self.is_staked == (self.staked_amount > 0)
    }

    /// Nothing is escrowed; the record can accept a new stake.
    pub open spec fn is_idle(self) -> bool {
        self.staked_amount == 0
    }
}

} // verus!
