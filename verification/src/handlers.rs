use vstd::prelude::*;

use crate::custody::transfer;
use crate::errors::AppError;
use crate::errors::StakeError;
use crate::record::StakeRecord;

verus! {

/// What one handler call does to everything it touches: the targeted
/// record, the owner's wallet balance, the vault balance, and the result
/// reported to the caller.
pub struct Step {
    pub record: StakeRecord,
    pub wallet: u64,
    pub vault: u64,
    pub result: Result<(), StakeError>,
}

/// A rejected call: the error is reported and nothing moves.
pub open spec fn rejected(record: StakeRecord, wallet: u64, vault: u64, e: StakeError) -> Step {
    Step { record, wallet, vault, result: Err(e) }
}

/// The stake transition. The pipeline is fixed: authority check, then
/// ledger validation (a zero offer, then an escrow already in use), then
/// the custody transfer from the owner's wallet into the vault; only a
/// confirmed transfer commits the record mutation.
pub open spec fn spec_stake(
    caller: u64,
    record: StakeRecord,
    wallet: u64,
    vault: u64,
    amount: u64,
) -> Step {
    if caller != record.owner {
        rejected(record, wallet, vault, StakeError::Rule(AppError::NotOwner))
    } else if amount == 0 {
        rejected(record, wallet, vault, StakeError::Rule(AppError::NoToken))
    } else if record.is_staked {
        rejected(record, wallet, vault, StakeError::Rule(AppError::IsStaked))
    } else if wallet < amount {
        rejected(record, wallet, vault, StakeError::InsufficientFunds)
    } else {
        Step {
            record: StakeRecord { owner: record.owner, staked_amount: amount, is_staked: true },
            wallet: (wallet - amount) as u64,
            vault: (vault + amount) as u64,
            result: Ok(()),
        }
    }
}

/// The unstake transition under the partial-withdrawal policy: any amount
/// up to the escrowed one may be taken back, and the record rests in
/// whichever state the remainder dictates. The pipeline is the same as for
/// staking: authority check, ledger validation (an empty escrow, a zero
/// offer, an overdraft), then the custody transfer out of the vault.
pub open spec fn spec_unstake(
    caller: u64,
    record: StakeRecord,
    wallet: u64,
    vault: u64,
    amount: u64,
) -> Step {
    if caller != record.owner {
        rejected(record, wallet, vault, StakeError::Rule(AppError::NotOwner))
    } else if !record.is_staked {
        rejected(record, wallet, vault, StakeError::Rule(AppError::NotStaked))
    } else if amount == 0 {
        rejected(record, wallet, vault, StakeError::Rule(AppError::NoToken))
    } else if amount > record.staked_amount {
        rejected(record, wallet, vault, StakeError::Rule(AppError::UnstakeMoreThanStaked))
    } else {
        let remaining = (record.staked_amount - amount) as u64;
        Step {
            record: StakeRecord {
                owner: record.owner,
                staked_amount: remaining,
                is_staked: remaining > 0,
            },
            wallet: (wallet + amount) as u64,
            vault: (vault - amount) as u64,
            result: Ok(()),
        }
    }
}

/// The unstake transition under the full-withdrawal policy: no amount is
/// taken, the whole escrow comes back and the record always rests idle.
pub open spec fn spec_unstake_full(
    caller: u64,
    record: StakeRecord,
    wallet: u64,
    vault: u64,
) -> Step {
    if caller != record.owner {
        rejected(record, wallet, vault, StakeError::Rule(AppError::NotOwner))
    } else if !record.is_staked {
        rejected(record, wallet, vault, StakeError::Rule(AppError::NotStaked))
    } else {
        Step {
            record: StakeRecord { owner: record.owner, staked_amount: 0, is_staked: false },
            wallet: (wallet + record.staked_amount) as u64,
            vault: (vault - record.staked_amount) as u64,
            result: Ok(()),
        }
    }
}

/// Creates the owner's ledger record with an empty escrow. Whether a record
/// may be created at all — at most one per owner — is decided by the
/// account-creation semantics of the surrounding deployment.
pub fn initialize(owner: u64) -> (r: StakeRecord)
    ensures
        r == (StakeRecord { owner, staked_amount: 0, is_staked: false }),
        r.wf(),
        r.is_idle(),
{
    StakeRecord { owner, staked_amount: 0, is_staked: false }
}

/// Deposits `amount` from the owner's wallet into the vault's escrow.
///
/// The two arithmetic bounds asked of the caller are machine limits: the
/// wallet and the vault are slices of one token supply, so together they fit
/// a balance (the deployment model in [`crate::program`] maintains this).
pub fn stake(
    caller: u64,
    record: &mut StakeRecord,
    wallet: &mut u64,
    vault: &mut u64,
    amount: u64,
) -> (r: Result<(), StakeError>)
    requires
        old(record).wf(),
        *old(vault) + *old(wallet) <= u64::MAX,
    ensures
        ({
            let step = spec_stake(caller, *old(record), *old(wallet), *old(vault), amount);
            *final(record) == step.record && *final(wallet) == step.wallet
                && *final(vault) == step.vault && r == step.result
        }),
        final(record).wf(),
        final(record).owner == old(record).owner,
        r is Ok <==> caller == old(record).owner && amount > 0 && old(record).is_idle()
            && amount <= *old(wallet),
        caller != old(record).owner ==> r == Err::<(), StakeError>(StakeError::Rule(AppError::NotOwner)),
        caller == old(record).owner && amount == 0 ==> r == Err::<(), StakeError>(
            StakeError::Rule(AppError::NoToken),
        ),
        r is Err ==> *final(record) == *old(record) && *final(wallet) == *old(wallet)
            && *final(vault) == *old(vault),
        r is Ok ==> final(record).staked_amount == amount && final(record).is_staked
            && *final(wallet) == *old(wallet) - amount && *final(vault) == *old(vault) + amount,
        *final(wallet) + *final(vault) == *old(wallet) + *old(vault),
{
    if caller != record.owner {
        return Err(StakeError::Rule(AppError::NotOwner));
    }
    if amount == 0 {
        return Err(StakeError::Rule(AppError::NoToken));
    }
    if record.is_staked {
        return Err(StakeError::Rule(AppError::IsStaked));
    }
    match transfer(wallet, vault, amount) {
        Ok(()) => {
            record.staked_amount = amount;
            record.is_staked = true;
            Ok(())
        },
        Err(e) => Err(e),
    }
}

/// Withdraws `amount` from the vault's escrow back into the owner's wallet
/// (partial-withdrawal policy: see [`spec_unstake`]).
///
/// The bounds asked of the caller are the deployment's standing facts: a
/// record's escrow is backed by the vault, and wallet plus escrow are slices
/// of one token supply, so together they fit a balance.
pub fn unstake(
    caller: u64,
    record: &mut StakeRecord,
    wallet: &mut u64,
    vault: &mut u64,
    amount: u64,
) -> (r: Result<(), StakeError>)
    requires
        old(record).wf(),
        old(record).staked_amount <= *old(vault),
        *old(wallet) + old(record).staked_amount <= u64::MAX,
    ensures
        ({
            let step = spec_unstake(caller, *old(record), *old(wallet), *old(vault), amount);
            *final(record) == step.record && *final(wallet) == step.wallet
                && *final(vault) == step.vault && r == step.result
        }),
        final(record).wf(),
        final(record).owner == old(record).owner,
        r is Ok <==> caller == old(record).owner && old(record).is_staked && 0 < amount
            <= old(record).staked_amount,
        caller != old(record).owner ==> r == Err::<(), StakeError>(StakeError::Rule(AppError::NotOwner)),
        caller == old(record).owner && old(record).is_idle() ==> r == Err::<(), StakeError>(
            StakeError::Rule(AppError::NotStaked),
        ),
        caller == old(record).owner && old(record).is_staked && amount
            > old(record).staked_amount ==> r == Err::<(), StakeError>(
            StakeError::Rule(AppError::UnstakeMoreThanStaked),
        ),
        r is Err ==> *final(record) == *old(record) && *final(wallet) == *old(wallet)
            && *final(vault) == *old(vault),
        r is Ok ==> final(record).staked_amount == old(record).staked_amount - amount
            && *final(wallet) == *old(wallet) + amount && *final(vault) == *old(vault) - amount,
        *final(wallet) + *final(vault) == *old(wallet) + *old(vault),
{
    if caller != record.owner {
        return Err(StakeError::Rule(AppError::NotOwner));
    }
    if !record.is_staked {
        return Err(StakeError::Rule(AppError::NotStaked));
    }
    if amount == 0 {
        return Err(StakeError::Rule(AppError::NoToken));
    }
    if amount > record.staked_amount {
        return Err(StakeError::Rule(AppError::UnstakeMoreThanStaked));
    }
    match transfer(vault, wallet, amount) {
        Ok(()) => {
            let remaining = record.staked_amount - amount;
            record.staked_amount = remaining;
            record.is_staked = remaining > 0;
            Ok(())
        },
        Err(e) => Err(e),
    }
}

/// Withdraws the whole escrow back into the owner's wallet
/// (full-withdrawal policy: see [`spec_unstake_full`]). The record always
/// rests idle on success.
pub fn unstake_full(
    caller: u64,
    record: &mut StakeRecord,
    wallet: &mut u64,
    vault: &mut u64,
) -> (r: Result<(), StakeError>)
    requires
        old(record).wf(),
        old(record).staked_amount <= *old(vault),
        *old(wallet) + old(record).staked_amount <= u64::MAX,
    ensures
        ({
            let step = spec_unstake_full(caller, *old(record), *old(wallet), *old(vault));
            *final(record) == step.record && *final(wallet) == step.wallet
                && *final(vault) == step.vault && r == step.result
        }),
        final(record).wf(),
        final(record).owner == old(record).owner,
        r is Ok <==> caller == old(record).owner && old(record).is_staked,
        r is Ok ==> final(record).is_idle() && *final(wallet) == *old(wallet)
            + old(record).staked_amount && *final(vault) == *old(vault)
            - old(record).staked_amount,
        r is Err ==> *final(record) == *old(record) && *final(wallet) == *old(wallet)
            && *final(vault) == *old(vault),
        *final(wallet) + *final(vault) == *old(wallet) + *old(vault),
{
    if caller != record.owner {
        return Err(StakeError::Rule(AppError::NotOwner));
    }
    if !record.is_staked {
        return Err(StakeError::Rule(AppError::NotStaked));
    }
    let amount = record.staked_amount;
    unstake(caller, record, wallet, vault, amount)
}

} // verus!
