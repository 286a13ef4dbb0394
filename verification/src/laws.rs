use vstd::prelude::*;

use crate::errors::AppError;
use crate::errors::StakeError;
use crate::handlers::spec_stake;
use crate::handlers::spec_unstake;
use crate::handlers::spec_unstake_full;
use crate::record::StakeRecord;

verus! {

/// No double stake: once a stake has gone through, a second stake against
/// the same record is rejected — with `IsStaked` whenever it offers a
/// positive amount — and the record, wallet and vault keep the state the
/// first stake left them in.
pub proof fn lemma_no_double_stake(
    caller: u64,
    record: StakeRecord,
    wallet: u64,
    vault: u64,
    first: u64,
    second: u64,
)
    requires
        record.wf(),
        spec_stake(caller, record, wallet, vault, first).result is Ok,
    ensures
        ({
            let s1 = spec_stake(caller, record, wallet, vault, first);
            let s2 = spec_stake(caller, s1.record, s1.wallet, s1.vault, second);
            &&& s1.record.staked_amount == first
            &&& s2.result is Err
            &&& second > 0 ==> s2.result == Err::<(), StakeError>(
                StakeError::Rule(AppError::IsStaked),
            )
            &&& s2.record == s1.record
            &&& s2.wallet == s1.wallet
            &&& s2.vault == s1.vault
        }),
{
}

/// Overdraft rejected: once a stake of `first` has gone through, asking
/// back any larger amount fails with `UnstakeMoreThanStaked` and the
/// escrow still holds exactly `first`.
pub proof fn lemma_overdraft_rejected(
    caller: u64,
    record: StakeRecord,
    wallet: u64,
    vault: u64,
    first: u64,
    asked: u64,
)
    requires
        record.wf(),
        spec_stake(caller, record, wallet, vault, first).result is Ok,
        asked > first,
    ensures
        ({
            let s1 = spec_stake(caller, record, wallet, vault, first);
            let s2 = spec_unstake(caller, s1.record, s1.wallet, s1.vault, asked);
            &&& s2.result == Err::<(), StakeError>(StakeError::Rule(AppError::UnstakeMoreThanStaked))
            &&& s2.record == s1.record
            &&& s2.record.staked_amount == first
            &&& s2.wallet == s1.wallet
            &&& s2.vault == s1.vault
        }),
{
}

/// Round trip: staking an amount and then unstaking the same amount
/// succeeds and returns the record to idle with an empty escrow, the
/// owner's wallet to its starting balance, and the vault to its starting
/// balance — a net-zero transfer. The one bound is a machine limit: the
/// vault must be able to hold the deposit.
pub proof fn lemma_stake_unstake_round_trip(
    caller: u64,
    record: StakeRecord,
    wallet: u64,
    vault: u64,
    amount: u64,
)
    requires
        record.wf(),
        spec_stake(caller, record, wallet, vault, amount).result is Ok,
        vault + amount <= u64::MAX,
    ensures
        ({
            let s1 = spec_stake(caller, record, wallet, vault, amount);
            let s2 = spec_unstake(caller, s1.record, s1.wallet, s1.vault, amount);
            &&& s2.result is Ok
            &&& s2.record == record
            &&& s2.record.is_idle()
            &&& s2.wallet == wallet
            &&& s2.vault == vault
        }),
{
}

/// The full-withdrawal policy agrees with the partial one: withdrawing the
/// whole escrow in one call lands exactly where asking for the escrowed
/// amount does.
pub proof fn lemma_unstake_full_agrees(caller: u64, record: StakeRecord, wallet: u64, vault: u64)
    requires
        record.wf(),
    ensures
        spec_unstake_full(caller, record, wallet, vault) == spec_unstake(
            caller,
            record,
            wallet,
            vault,
            record.staked_amount,
        ),
{
}

/// Ownership enforcement: a caller who is not the record's owner gets
/// `NotOwner` from every handler, and the record, wallet and vault are
/// left untouched.
pub proof fn lemma_ownership_enforced(
    caller: u64,
    record: StakeRecord,
    wallet: u64,
    vault: u64,
    amount: u64,
)
    requires
        caller != record.owner,
    ensures
        ({
            let s = spec_stake(caller, record, wallet, vault, amount);
            s.result == Err::<(), StakeError>(StakeError::Rule(AppError::NotOwner)) && s.record
                == record && s.wallet == wallet && s.vault == vault
        }),
        ({
            let s = spec_unstake(caller, record, wallet, vault, amount);
            s.result == Err::<(), StakeError>(StakeError::Rule(AppError::NotOwner)) && s.record
                == record && s.wallet == wallet && s.vault == vault
        }),
        ({
            let s = spec_unstake_full(caller, record, wallet, vault);
            s.result == Err::<(), StakeError>(StakeError::Rule(AppError::NotOwner)) && s.record
                == record && s.wallet == wallet && s.vault == vault
        }),
{
}

} // verus!
