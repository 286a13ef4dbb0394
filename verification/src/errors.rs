use vstd::prelude::*;

verus! {

/// The rule violations a handler can report. Every precondition failure
/// aborts the whole operation before any balance or record is touched.
#[derive(Clone, Copy, Debug, PartialEq, Eq, Structural)]
pub enum AppError {
    /// `stake` was invoked while the record already holds an escrow.
    IsStaked,
    /// `unstake` was invoked while the record's escrow is empty.
    NotStaked,
    /// A zero amount was offered; moving nothing is rejected, not a no-op.
    NoToken,
    /// The caller is not the owner of the targeted record.
    NotOwner,
    /// `unstake` asked for more than the record holds in escrow.
    UnstakeMoreThanStaked,
}

/// Everything a handler call can fail with: a ledger-rule violation, a
/// custody-transfer failure, or a host-level account problem.
#[derive(Clone, Copy, Debug, PartialEq, Eq, Structural)]
pub enum StakeError {
    /// One of the ledger or authority rules was violated.
    Rule(AppError),
    /// The custody transfer failed: the source balance cannot cover the
    /// requested amount. Distinct from the ledger rules and, like them,
    /// leaves every balance and record unchanged.
    InsufficientFunds,
    /// `initialize` found a record already created for this owner; the
    /// duplicate creation is rejected by the account-creation semantics.
    AccountExists,
    /// The targeted owner has no record or no wallet in the deployment.
    UnknownAccount,
    /// Funding a wallet would push the total token supply past what a
    /// balance can represent.
    SupplyOverflow,
}

} // verus!
