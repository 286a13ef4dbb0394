//! A verified token-staking ledger.
//!
//! Each owner has a [`record::StakeRecord`] tracking how much of their
//! balance is escrowed. The handlers in [`handlers`] deposit into escrow
//! (`stake`), withdraw from it (`unstake`), and enforce the ledger's
//! invariants, moving tokens only through the all-or-nothing transfer in
//! [`custody`]; [`program`] models the whole deployment — every record,
//! every wallet and the shared vault — and proves that the vault balance
//! always equals the sum of all escrowed amounts. The guarantees that
//! relate several calls to each other are stated and proved in [`laws`].

pub mod custody;
pub mod errors;
pub mod handlers;
pub mod laws;
pub mod program;
pub mod record;
