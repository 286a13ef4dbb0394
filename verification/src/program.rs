use vstd::prelude::*;

use crate::errors::StakeError;
use crate::handlers;
use crate::record::StakeRecord;

verus! {

/// One owner's external token balance, held outside the program's custody.
#[derive(Clone, Copy, Debug, PartialEq, Eq, Structural)]
pub struct Wallet {
    pub owner: u64,
    pub balance: u64,
}

/// Total escrowed amount over a sequence of records.
pub open spec fn sum_staked(rs: Seq<StakeRecord>) -> int
    decreases rs.len(),
{
    if rs.len() == 0 {
        0
    } else {
        sum_staked(rs.drop_last()) + rs.last().staked_amount
    }
}

/// Total balance over a sequence of wallets.
pub open spec fn sum_balances(ws: Seq<Wallet>) -> int
    decreases ws.len(),
{
    if ws.len() == 0 {
        0
    } else {
        sum_balances(ws.drop_last()) + ws.last().balance
    }
}

pub proof fn lemma_sum_staked_nonneg(rs: Seq<StakeRecord>)
    ensures
        sum_staked(rs) >= 0,
    decreases rs.len(),
{
    if rs.len() > 0 {
        lemma_sum_staked_nonneg(rs.drop_last());
    }
}

pub proof fn lemma_sum_balances_nonneg(ws: Seq<Wallet>)
    ensures
        sum_balances(ws) >= 0,
    decreases ws.len(),
{
    if ws.len() > 0 {
        lemma_sum_balances_nonneg(ws.drop_last());
    }
}

/// Every single escrow is at most the total escrowed amount.
pub proof fn lemma_sum_staked_bounds_elem(rs: Seq<StakeRecord>, i: int)
    requires
        0 <= i < rs.len(),
    ensures
        rs[i].staked_amount <= sum_staked(rs),
    decreases rs.len(),
{
    if i == rs.len() - 1 {
        lemma_sum_staked_nonneg(rs.drop_last());
    } else {
        lemma_sum_staked_bounds_elem(rs.drop_last(), i);
    }
}

/// Every single wallet balance is at most the total of all balances.
pub proof fn lemma_sum_balances_bounds_elem(ws: Seq<Wallet>, i: int)
    requires
        0 <= i < ws.len(),
    ensures
        ws[i].balance <= sum_balances(ws),
    decreases ws.len(),
{
    if i == ws.len() - 1 {
        lemma_sum_balances_nonneg(ws.drop_last());
    } else {
        lemma_sum_balances_bounds_elem(ws.drop_last(), i);
    }
}

/// Replacing one record moves the total by the difference of the escrows.
pub proof fn lemma_sum_staked_update(rs: Seq<StakeRecord>, i: int, r: StakeRecord)
    requires
        0 <= i < rs.len(),
    ensures
        sum_staked(rs.update(i, r)) == sum_staked(rs) - rs[i].staked_amount + r.staked_amount,
    decreases rs.len(),
{
    if i == rs.len() - 1 {
        assert(rs.update(i, r).drop_last() =~= rs.drop_last());
    } else {
        lemma_sum_staked_update(rs.drop_last(), i, r);
        assert(rs.update(i, r).drop_last() =~= rs.drop_last().update(i, r));
    }
}

/// Replacing one wallet moves the total by the difference of the balances.
pub proof fn lemma_sum_balances_update(ws: Seq<Wallet>, i: int, w: Wallet)
    requires
        0 <= i < ws.len(),
    ensures
        sum_balances(ws.update(i, w)) == sum_balances(ws) - ws[i].balance + w.balance,
    decreases ws.len(),
{
    if i == ws.len() - 1 {
        assert(ws.update(i, w).drop_last() =~= ws.drop_last());
    } else {
        lemma_sum_balances_update(ws.drop_last(), i, w);
        assert(ws.update(i, w).drop_last() =~= ws.drop_last().update(i, w));
    }
}

pub proof fn lemma_sum_staked_push(rs: Seq<StakeRecord>, r: StakeRecord)
    ensures
        sum_staked(rs.push(r)) == sum_staked(rs) + r.staked_amount,
{
    assert(rs.push(r).drop_last() =~= rs);
}

pub proof fn lemma_sum_balances_push(ws: Seq<Wallet>, w: Wallet)
    ensures
        sum_balances(ws.push(w)) == sum_balances(ws) + w.balance,
{
    assert(ws.push(w).drop_last() =~= ws);
}

/// One whole deployment: every stake record, every external wallet, the
/// vault holding the escrowed tokens, and the total supply ever minted into
/// the wallets. The host serializes handler invocations, so each method
/// here is one atomic transaction.
pub struct StakeProgram {
    pub records: Vec<StakeRecord>,
    pub wallets: Vec<Wallet>,
    /// Aggregate custody: the tokens escrowed across all records.
    pub vault: u64,
    /// Everything minted: the vault plus all wallet balances. Since it is
    /// itself a balance, no transfer can overflow one.
    pub supply: u64,
}

impl StakeProgram {
    pub open spec fn has_record(self, owner: u64) -> bool {
        exists|i: int| 0 <= i < self.records@.len() && self.records@[i].owner == owner
    }

    /// The index of `owner`'s record; meaningful whenever `has_record`
    /// holds, and unique under `wf`.
    pub open spec fn record_index(self, owner: u64) -> int {
        choose|i: int| 0 <= i < self.records@.len() && self.records@[i].owner == owner
    }

    pub open spec fn has_wallet(self, owner: u64) -> bool {
        exists|i: int| 0 <= i < self.wallets@.len() && self.wallets@[i].owner == owner
    }

    /// The index of `owner`'s wallet; meaningful whenever `has_wallet`
    /// holds, and unique under `wf`.
    pub open spec fn wallet_index(self, owner: u64) -> int {
        choose|i: int| 0 <= i < self.wallets@.len() && self.wallets@[i].owner == owner
    }

    /// Conservation: the vault holds exactly the sum of all escrows.
    pub open spec fn conserved(self) -> bool {
        self.vault as int == sum_staked(self.records@)
    }

    /// The deployment invariant, established by [`StakeProgram::new`] and
    /// preserved by every operation: at most one record and one wallet per
    /// owner, every record internally consistent and backed by a wallet,
    /// the vault conserved, and the supply accounting for every token.
    pub open spec fn wf(self) -> bool {
        &&& forall|i: int, j: int|
            0 <= i < j < self.records@.len() ==> self.records@[i].owner
                != self.records@[j].owner
        &&& forall|i: int, j: int|
            0 <= i < j < self.wallets@.len() ==> self.wallets@[i].owner
                != self.wallets@[j].owner
        &&& forall|i: int| 0 <= i < self.records@.len() ==> self.records@[i].wf()
        &&& forall|i: int|
            0 <= i < self.records@.len() ==> self.has_wallet(self.records@[i].owner)
        &&& self.conserved()
        &&& self.supply as int == self.vault + sum_balances(self.wallets@)
    }

    /// A fresh deployment: no records, no wallets, an empty vault.
    pub fn new() -> (r: StakeProgram)
        ensures
            r.wf(),
            r.records@.len() == 0,
            r.wallets@.len() == 0,
            r.vault == 0,
            r.supply == 0,
    {
        StakeProgram { records: Vec::new(), wallets: Vec::new(), vault: 0, supply: 0 }
    }

    /// Looks `owner`'s record up; the host does this by address, the model
    /// by scanning.
    fn find_record(&self, owner: u64) -> (r: Option<usize>)
        ensures
            match r {
                Some(i) => i < self.records@.len() && self.records@[i as int].owner == owner,
                None => !self.has_record(owner),
            },
    {
        let n = self.records.len();
        let mut i: usize = 0;
        while i < n
            invariant
                n == self.records@.len(),
                i <= n,
                forall|k: int| 0 <= k < i ==> self.records@[k].owner != owner,
            decreases n - i,
        {
            if self.records[i].owner == owner {
                return Some(i);
            }
            i = i + 1;
        }
        None
    }

    /// Looks `owner`'s wallet up, as [`StakeProgram::find_record`] does.
    fn find_wallet(&self, owner: u64) -> (r: Option<usize>)
        ensures
            match r {
                Some(i) => i < self.wallets@.len() && self.wallets@[i as int].owner == owner,
                None => !self.has_wallet(owner),
            },
    {
        let n = self.wallets.len();
        let mut i: usize = 0;
        while i < n
            invariant
                n == self.wallets@.len(),
                i <= n,
                forall|k: int| 0 <= k < i ==> self.wallets@[k].owner != owner,
            decreases n - i,
        {
            if self.wallets[i].owner == owner {
                return Some(i);
            }
            i = i + 1;
        }
        None
    }
    /// Mints `amount` into `owner`'s wallet, creating the wallet if the
    /// owner has none yet. Rejected if the total supply would no longer fit
    /// a balance.
    pub fn fund(&mut self, owner: u64, amount: u64) -> (r: Result<(), StakeError>)
        requires
            old(self).wf(),
        ensures
            final(self).wf(),
            r is Ok <==> old(self).supply + amount <= u64::MAX,
            r is Err ==> r == Err::<(), StakeError>(StakeError::SupplyOverflow) && same_state(
                *old(self),
                *final(self),
            ),
            r is Ok ==> final(self).records@ == old(self).records@ && final(self).vault == old(
                self,
            ).vault && final(self).supply == old(self).supply + amount,
            r is Ok && old(self).has_wallet(owner) ==> final(self).wallets@ == old(
                self,
            ).wallets@.update(
                old(self).wallet_index(owner),
                (Wallet {
                    owner,
                    balance: (old(self).wallets@[old(self).wallet_index(owner)].balance
                        + amount) as u64,
                }),
            ),
            r is Ok && !old(self).has_wallet(owner) ==> final(self).wallets@ == old(
                self,
            ).wallets@.push((Wallet { owner, balance: amount })),
            r is Ok ==> final(self).has_wallet(owner),
    {
        match self.supply.checked_add(amount) {
            None => Err(StakeError::SupplyOverflow),
            Some(new_supply) => {
                match self.find_wallet(owner) {
                    Some(i) => {
                        let bal = self.wallets[i].balance;
                        proof {
                            lemma_wallet_index_agrees(*self, owner, i as int);
                            lemma_sum_balances_bounds_elem(self.wallets@, i as int);
                            lemma_sum_staked_nonneg(self.records@);
                        }
                        let w = Wallet { owner, balance: bal + amount };
                        self.wallets.set(i, w);
                        self.supply = new_supply;
                        proof {
                            lemma_sum_balances_update(old(self).wallets@, i as int, w);
                            assert forall|k: int|
                                0 <= k < self.records@.len() implies self.has_wallet(
                                self.records@[k].owner,
                            ) by {
                                let o = self.records@[k].owner;
                                assert(old(self).has_wallet(o));
                                let j = choose|j: int|
                                    0 <= j < old(self).wallets@.len() && old(
                                        self,
                                    ).wallets@[j].owner == o;
                                assert(self.wallets@[j].owner == o);
                            }
                            assert(self.wallets@[i as int].owner == owner);
                        }
                        Ok(())
                    },
                    None => {
                        let w = Wallet { owner, balance: amount };
                        self.wallets.push(w);
                        self.supply = new_supply;
                        proof {
                            lemma_sum_balances_push(old(self).wallets@, w);
                            assert forall|k: int|
                                0 <= k < self.wallets@.len() - 1 implies self.wallets@[k].owner
                                != owner by {
                                if self.wallets@[k].owner == owner {
                                    assert(old(self).wallets@[k].owner == owner);
                                    assert(old(self).has_wallet(owner));
                                }
                            }
                            assert forall|k: int|
                                0 <= k < self.records@.len() implies self.has_wallet(
                                self.records@[k].owner,
                            ) by {
                                let o = self.records@[k].owner;
                                assert(old(self).has_wallet(o));
                                let j = choose|j: int|
                                    0 <= j < old(self).wallets@.len() && old(
                                        self,
                                    ).wallets@[j].owner == o;
                                assert(self.wallets@[j].owner == o);
                            }
                            assert(self.wallets@[self.wallets@.len() - 1].owner == owner);
                        }
                        Ok(())
                    },
                }
            },
        }
    }

    /// Creates `caller`'s stake record, idle and empty. At most one record
    /// per owner may ever exist — a duplicate creation is rejected by the
    /// account-creation semantics — and the caller must already hold a
    /// wallet to fund later stakes from.
    pub fn initialize(&mut self, caller: u64) -> (r: Result<(), StakeError>)
        requires
            old(self).wf(),
        ensures
            final(self).wf(),
            initialize_post(*old(self), *final(self), caller, r),
            r is Ok <==> !old(self).has_record(caller) && old(self).has_wallet(caller),
            r is Ok ==> final(self).has_record(caller),
            r is Err ==> same_state(*old(self), *final(self)),
    {
        match self.find_record(caller) {
            Some(i) => {
                proof {
                    assert(self.records@[i as int].owner == caller);
                    assert(self.has_record(caller));
                }
                Err(StakeError::AccountExists)
            },
            None => match self.find_wallet(caller) {
                None => Err(StakeError::UnknownAccount),
                Some(wi) => {
                    proof {
                        assert(self.wallets@[wi as int].owner == caller);
                        assert(self.has_wallet(caller));
                    }
                    let rec = handlers::initialize(caller);
                    self.records.push(rec);
                    proof {
                        lemma_sum_staked_push(old(self).records@, rec);
                        assert forall|k: int|
                            0 <= k < self.records@.len() - 1 implies self.records@[k].owner
                            != caller by {
                            if self.records@[k].owner == caller {
                                assert(old(self).records@[k].owner == caller);
                                assert(old(self).has_record(caller));
                            }
                        }
                        assert forall|k: int|
                            0 <= k < self.records@.len() implies self.has_wallet(
                            self.records@[k].owner,
                        ) by {
                            let o = self.records@[k].owner;
                            if k < self.records@.len() - 1 {
                                assert(old(self).has_wallet(o));
                            } else {
                                assert(old(self).has_wallet(caller));
                            }
                            let j = choose|j: int|
                                0 <= j < old(self).wallets@.len() && old(self).wallets@[j].owner
                                    == o;
                            assert(self.wallets@[j].owner == o);
                        }
                        assert(self.records@[self.records@.len() - 1].owner == caller);
                    }
                    Ok(())
                },
            },
        }
    }
    /// Hands out `owner`'s record, if one was created.
    pub fn record_of(&self, owner: u64) -> (r: Option<StakeRecord>)
        requires
            self.wf(),
        ensures
            match r {
                Some(rec) => self.has_record(owner) && rec == self.records@[self.record_index(
                    owner,
                )],
                None => !self.has_record(owner),
            },
    {
        match self.find_record(owner) {
            None => None,
            Some(i) => {
                proof {
                    lemma_record_index_agrees(*self, owner, i as int);
                }
                Some(self.records[i])
            },
        }
    }

    /// Hands out `owner`'s external balance, if the owner has a wallet.
    pub fn wallet_balance_of(&self, owner: u64) -> (r: Option<u64>)
        requires
            self.wf(),
        ensures
            match r {
                Some(b) => self.has_wallet(owner) && b == self.wallets@[self.wallet_index(
                    owner,
                )].balance,
                None => !self.has_wallet(owner),
            },
    {
        match self.find_wallet(owner) {
            None => None,
            Some(i) => {
                proof {
                    lemma_wallet_index_agrees(*self, owner, i as int);
                }
                Some(self.wallets[i].balance)
            },
        }
    }

    /// The tokens the vault currently holds in custody.
    pub fn vault_balance(&self) -> (r: u64)
        ensures
            r == self.vault,
    {
        self.vault
    }

    /// Everything ever minted into this deployment's wallets.
    pub fn total_supply(&self) -> (r: u64)
        ensures
            r == self.supply,
    {
        self.supply
    }

    /// The stake handler, one atomic transaction: resolve the owner's
    /// record and wallet, run the authority and ledger checks, move the
    /// tokens from the owner's wallet into the vault, and only then commit
    /// the record. Any failure leaves the deployment untouched.
    pub fn stake(&mut self, caller: u64, owner: u64, amount: u64) -> (r: Result<(), StakeError>)
        requires
            old(self).wf(),
        ensures
            final(self).wf(),
            !old(self).has_record(owner) ==> r == Err::<(), StakeError>(
                StakeError::UnknownAccount,
            ),
            r is Err ==> same_state(*old(self), *final(self)),
            old(self).has_record(owner) ==> r == handlers::spec_stake(
                caller,
                old(self).records@[old(self).record_index(owner)],
                old(self).wallets@[old(self).wallet_index(owner)].balance,
                old(self).vault,
                amount,
            ).result,
            old(self).has_record(owner) && caller != owner ==> r == Err::<(), StakeError>(
                StakeError::Rule(crate::errors::AppError::NotOwner),
            ),
            r is Ok ==> ({
                let step = handlers::spec_stake(
                    caller,
                    old(self).records@[old(self).record_index(owner)],
                    old(self).wallets@[old(self).wallet_index(owner)].balance,
                    old(self).vault,
                    amount,
                );
                final(self).records@ == old(self).records@.update(
                    old(self).record_index(owner),
                    step.record,
                ) && final(self).wallets@ == old(self).wallets@.update(
                    old(self).wallet_index(owner),
                    (Wallet { owner, balance: step.wallet }),
                ) && final(self).vault == step.vault && final(self).supply == old(self).supply
            }),
    {
        let ri = match self.find_record(owner) {
            None => {
                return Err(StakeError::UnknownAccount);
            },
            Some(i) => i,
        };
        proof {
            lemma_record_index_agrees(*self, owner, ri as int);
        }
        let wi = match self.find_wallet(owner) {
            None => {
                proof {
                    assert(self.has_wallet(self.records@[ri as int].owner));
                }
                return Err(StakeError::UnknownAccount);
            },
            Some(i) => i,
        };
        proof {
            lemma_wallet_index_agrees(*self, owner, wi as int);
            lemma_sum_balances_bounds_elem(self.wallets@, wi as int);
            assert(self.vault + self.wallets@[wi as int].balance <= u64::MAX);
        }
        let mut rec = self.records[ri];
        let mut wbal = self.wallets[wi].balance;
        let mut vault = self.vault;
        match handlers::stake(caller, &mut rec, &mut wbal, &mut vault, amount) {
            Err(e) => Err(e),
            Ok(()) => {
                let w = Wallet { owner, balance: wbal };
                self.records.set(ri, rec);
                self.wallets.set(wi, w);
                self.vault = vault;
                proof {
                    lemma_sum_staked_update(old(self).records@, ri as int, rec);
                    lemma_sum_balances_update(old(self).wallets@, wi as int, w);
                    assert forall|a: int, b: int|
                        0 <= a < b < self.records@.len() implies self.records@[a].owner
                        != self.records@[b].owner by {
                        assert(old(self).records@[a].owner != old(self).records@[b].owner);
                    }
                    assert forall|a: int, b: int|
                        0 <= a < b < self.wallets@.len() implies self.wallets@[a].owner
                        != self.wallets@[b].owner by {
                        assert(old(self).wallets@[a].owner != old(self).wallets@[b].owner);
                    }
                    assert forall|k: int| 0 <= k < self.records@.len() implies self.records@[k].wf()
                        by {
                        if k != ri as int {
                            assert(old(self).records@[k].wf());
                        }
                    }
                    assert forall|k: int|
                        0 <= k < self.records@.len() implies self.has_wallet(
                        self.records@[k].owner,
                    ) by {
                        let o = self.records@[k].owner;
                        assert(old(self).records@[k].owner == o);
                        assert(old(self).has_wallet(o));
                        let j = choose|j: int|
                            0 <= j < old(self).wallets@.len() && old(self).wallets@[j].owner == o;
                        assert(self.wallets@[j].owner == o);
                    }
                }
                Ok(())
            },
        }
    }
    /// The unstake handler under the partial-withdrawal policy, one atomic
    /// transaction: resolve, check authority and ledger rules, move the
    /// tokens from the vault back into the owner's wallet, commit. Any
    /// failure leaves the deployment untouched.
    pub fn unstake(&mut self, caller: u64, owner: u64, amount: u64) -> (r: Result<(), StakeError>)
        requires
            old(self).wf(),
        ensures
            final(self).wf(),
            !old(self).has_record(owner) ==> r == Err::<(), StakeError>(
                StakeError::UnknownAccount,
            ),
            r is Err ==> same_state(*old(self), *final(self)),
            old(self).has_record(owner) ==> r == handlers::spec_unstake(
                caller,
                old(self).records@[old(self).record_index(owner)],
                old(self).wallets@[old(self).wallet_index(owner)].balance,
                old(self).vault,
                amount,
            ).result,
            old(self).has_record(owner) && caller != owner ==> r == Err::<(), StakeError>(
                StakeError::Rule(crate::errors::AppError::NotOwner),
            ),
            r is Ok ==> ({
                let step = handlers::spec_unstake(
                    caller,
                    old(self).records@[old(self).record_index(owner)],
                    old(self).wallets@[old(self).wallet_index(owner)].balance,
                    old(self).vault,
                    amount,
                );
                final(self).records@ == old(self).records@.update(
                    old(self).record_index(owner),
                    step.record,
                ) && final(self).wallets@ == old(self).wallets@.update(
                    old(self).wallet_index(owner),
                    (Wallet { owner, balance: step.wallet }),
                ) && final(self).vault == step.vault && final(self).supply == old(self).supply
            }),
    {
        let ri = match self.find_record(owner) {
            None => {
                return Err(StakeError::UnknownAccount);
            },
            Some(i) => i,
        };
        proof {
            lemma_record_index_agrees(*self, owner, ri as int);
        }
        let wi = match self.find_wallet(owner) {
            None => {
                proof {
                    assert(self.has_wallet(self.records@[ri as int].owner));
                }
                return Err(StakeError::UnknownAccount);
            },
            Some(i) => i,
        };
        proof {
            lemma_wallet_index_agrees(*self, owner, wi as int);
            lemma_sum_balances_bounds_elem(self.wallets@, wi as int);
            lemma_sum_staked_bounds_elem(self.records@, ri as int);
            assert(self.records@[ri as int].staked_amount <= self.vault);
            assert(self.wallets@[wi as int].balance + self.records@[ri as int].staked_amount
                <= u64::MAX);
        }
        let mut rec = self.records[ri];
        let mut wbal = self.wallets[wi].balance;
        let mut vault = self.vault;
        match handlers::unstake(caller, &mut rec, &mut wbal, &mut vault, amount) {
            Err(e) => Err(e),
            Ok(()) => {
                let w = Wallet { owner, balance: wbal };
                self.records.set(ri, rec);
                self.wallets.set(wi, w);
                self.vault = vault;
                proof {
                    lemma_sum_staked_update(old(self).records@, ri as int, rec);
                    lemma_sum_balances_update(old(self).wallets@, wi as int, w);
                    assert forall|a: int, b: int|
                        0 <= a < b < self.records@.len() implies self.records@[a].owner
                        != self.records@[b].owner by {
                        assert(old(self).records@[a].owner != old(self).records@[b].owner);
                    }
                    assert forall|a: int, b: int|
                        0 <= a < b < self.wallets@.len() implies self.wallets@[a].owner
                        != self.wallets@[b].owner by {
                        assert(old(self).wallets@[a].owner != old(self).wallets@[b].owner);
                    }
                    assert forall|k: int| 0 <= k < self.records@.len() implies self.records@[k].wf()
                        by {
                        if k != ri as int {
                            assert(old(self).records@[k].wf());
                        }
                    }
                    assert forall|k: int|
                        0 <= k < self.records@.len() implies self.has_wallet(
                        self.records@[k].owner,
                    ) by {
                        let o = self.records@[k].owner;
                        assert(old(self).records@[k].owner == o);
                        assert(old(self).has_wallet(o));
                        let j = choose|j: int|
                            0 <= j < old(self).wallets@.len() && old(self).wallets@[j].owner == o;
                        assert(self.wallets@[j].owner == o);
                    }
                }
                Ok(())
            },
        }
    }

    /// The unstake handler under the full-withdrawal policy: no amount is
    /// asked, the whole escrow comes back and the record always rests
    /// idle. One atomic transaction; any failure leaves the deployment
    /// untouched.
    pub fn unstake_full(&mut self, caller: u64, owner: u64) -> (r: Result<(), StakeError>)
        requires
            old(self).wf(),
        ensures
            final(self).wf(),
            !old(self).has_record(owner) ==> r == Err::<(), StakeError>(
                StakeError::UnknownAccount,
            ),
            r is Err ==> same_state(*old(self), *final(self)),
            old(self).has_record(owner) ==> r == handlers::spec_unstake_full(
                caller,
                old(self).records@[old(self).record_index(owner)],
                old(self).wallets@[old(self).wallet_index(owner)].balance,
                old(self).vault,
            ).result,
            old(self).has_record(owner) && caller != owner ==> r == Err::<(), StakeError>(
                StakeError::Rule(crate::errors::AppError::NotOwner),
            ),
            r is Ok ==> ({
                let step = handlers::spec_unstake_full(
                    caller,
                    old(self).records@[old(self).record_index(owner)],
                    old(self).wallets@[old(self).wallet_index(owner)].balance,
                    old(self).vault,
                );
                final(self).records@ == old(self).records@.update(
                    old(self).record_index(owner),
                    step.record,
                ) && final(self).wallets@ == old(self).wallets@.update(
                    old(self).wallet_index(owner),
                    (Wallet { owner, balance: step.wallet }),
                ) && final(self).vault == step.vault && final(self).supply == old(self).supply
            }),
    {
        let ri = match self.find_record(owner) {
            None => {
                return Err(StakeError::UnknownAccount);
            },
            Some(i) => i,
        };
        proof {
            lemma_record_index_agrees(*self, owner, ri as int);
        }
        let wi = match self.find_wallet(owner) {
            None => {
                proof {
                    assert(self.has_wallet(self.records@[ri as int].owner));
                }
                return Err(StakeError::UnknownAccount);
            },
            Some(i) => i,
        };
        proof {
            lemma_wallet_index_agrees(*self, owner, wi as int);
            lemma_sum_balances_bounds_elem(self.wallets@, wi as int);
            lemma_sum_staked_bounds_elem(self.records@, ri as int);
            assert(self.records@[ri as int].staked_amount <= self.vault);
            assert(self.wallets@[wi as int].balance + self.records@[ri as int].staked_amount
                <= u64::MAX);
        }
        let mut rec = self.records[ri];
        let mut wbal = self.wallets[wi].balance;
        let mut vault = self.vault;
        match handlers::unstake_full(caller, &mut rec, &mut wbal, &mut vault) {
            Err(e) => Err(e),
            Ok(()) => {
                let w = Wallet { owner, balance: wbal };
                self.records.set(ri, rec);
                self.wallets.set(wi, w);
                self.vault = vault;
                proof {
                    lemma_sum_staked_update(old(self).records@, ri as int, rec);
                    lemma_sum_balances_update(old(self).wallets@, wi as int, w);
                    assert forall|a: int, b: int|
                        0 <= a < b < self.records@.len() implies self.records@[a].owner
                        != self.records@[b].owner by {
                        assert(old(self).records@[a].owner != old(self).records@[b].owner);
                    }
                    assert forall|a: int, b: int|
                        0 <= a < b < self.wallets@.len() implies self.wallets@[a].owner
                        != self.wallets@[b].owner by {
                        assert(old(self).wallets@[a].owner != old(self).wallets@[b].owner);
                    }
                    assert forall|k: int| 0 <= k < self.records@.len() implies self.records@[k].wf()
                        by {
                        if k != ri as int {
                            assert(old(self).records@[k].wf());
                        }
                    }
                    assert forall|k: int|
                        0 <= k < self.records@.len() implies self.has_wallet(
                        self.records@[k].owner,
                    ) by {
                        let o = self.records@[k].owner;
                        assert(old(self).records@[k].owner == o);
                        assert(old(self).has_wallet(o));
                        let j = choose|j: int|
                            0 <= j < old(self).wallets@.len() && old(self).wallets@[j].owner == o;
                        assert(self.wallets@[j].owner == o);
                    }
                }
                Ok(())
            },
        }
    }
}

/// The two deployments hold the same records, wallets, vault and supply:
/// nothing observable moved.
pub open spec fn same_state(pre: StakeProgram, post: StakeProgram) -> bool {
    &&& post.records@ == pre.records@
    &&& post.wallets@ == pre.wallets@
    &&& post.vault == pre.vault
    &&& post.supply == pre.supply
}

/// Everything [`StakeProgram::initialize`] promises, as one relation
/// between the deployment before the call, the deployment after it, and
/// the result.
pub open spec fn initialize_post(
    pre: StakeProgram,
    post: StakeProgram,
    caller: u64,
    r: Result<(), StakeError>,
) -> bool {
    &&& pre.has_record(caller) ==> r == Err::<(), StakeError>(StakeError::AccountExists)
        && same_state(pre, post)
    &&& !pre.has_record(caller) && !pre.has_wallet(caller) ==> r == Err::<(), StakeError>(
        StakeError::UnknownAccount,
    ) && same_state(pre, post)
    &&& !pre.has_record(caller) && pre.has_wallet(caller) ==> r is Ok && post.records@
        == pre.records@.push(StakeRecord { owner: caller, staked_amount: 0, is_staked: false })
        && post.wallets@ == pre.wallets@ && post.vault == pre.vault && post.supply == pre.supply
}

/// Double creation rejected: once a record creation for `caller` has gone
/// through, any further creation attempt for the same owner fails with
/// `AccountExists` and leaves the deployment exactly as the first creation
/// left it.
pub proof fn lemma_double_initialize_rejected(
    pre: StakeProgram,
    mid: StakeProgram,
    post: StakeProgram,
    caller: u64,
    r1: Result<(), StakeError>,
    r2: Result<(), StakeError>,
)
    requires
        initialize_post(pre, mid, caller, r1),
        r1 is Ok,
        initialize_post(mid, post, caller, r2),
    ensures
        r2 == Err::<(), StakeError>(StakeError::AccountExists),
        same_state(mid, post),
{
    assert(mid.records@[mid.records@.len() - 1].owner == caller);
    assert(mid.has_record(caller));
}

/// Under `wf`, any index whose record carries `owner` is the one
/// `record_index` denotes.
pub proof fn lemma_record_index_agrees(p: StakeProgram, owner: u64, i: int)
    requires
        p.wf(),
        0 <= i < p.records@.len(),
        p.records@[i].owner == owner,
    ensures
        p.has_record(owner),
        p.record_index(owner) == i,
{
    assert(p.has_record(owner));
    let j = p.record_index(owner);
    assert(0 <= j < p.records@.len() && p.records@[j].owner == owner);
    if j < i {
        assert(p.records@[j].owner != p.records@[i].owner);
    } else if i < j {
        assert(p.records@[i].owner != p.records@[j].owner);
    }
}

/// Under `wf`, any index whose wallet carries `owner` is the one
/// `wallet_index` denotes.
pub proof fn lemma_wallet_index_agrees(p: StakeProgram, owner: u64, i: int)
    requires
        p.wf(),
        0 <= i < p.wallets@.len(),
        p.wallets@[i].owner == owner,
    ensures
        p.has_wallet(owner),
        p.wallet_index(owner) == i,
{
    assert(p.has_wallet(owner));
    let j = p.wallet_index(owner);
    assert(0 <= j < p.wallets@.len() && p.wallets@[j].owner == owner);
    if j < i {
        assert(p.wallets@[j].owner != p.wallets@[i].owner);
    } else if i < j {
        assert(p.wallets@[i].owner != p.wallets@[j].owner);
    }
}

} // verus!
