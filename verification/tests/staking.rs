use stake_program::errors::AppError;
use stake_program::errors::StakeError;
use stake_program::handlers;
use stake_program::program::StakeProgram;
use stake_program::record::StakeRecord;

const ALICE: u64 = 11;
const BOB: u64 = 22;
const MALLORY: u64 = 99;

fn deployment_with(owner: u64, balance: u64) -> StakeProgram {
    let mut p = StakeProgram::new();
    assert_eq!(p.fund(owner, balance), Ok(()));
    assert_eq!(p.initialize(owner), Ok(()));
    p
}

fn staked_of(p: &StakeProgram, owner: u64) -> u64 {
    p.record_of(owner).expect("record must exist").staked_amount
}

#[test]
fn initialize_creates_idle_record() {
    let p = deployment_with(ALICE, 1_000);
    let rec = p.record_of(ALICE).expect("record must exist");
    assert_eq!(rec.owner, ALICE);
    assert_eq!(rec.staked_amount, 0);
    assert!(!rec.is_staked);
    assert_eq!(p.vault_balance(), 0);
    assert_eq!(p.wallet_balance_of(ALICE), Some(1_000));
}

#[test]
fn initialize_without_wallet_fails() {
    let mut p = StakeProgram::new();
    assert_eq!(p.initialize(ALICE), Err(StakeError::UnknownAccount));
    assert!(p.record_of(ALICE).is_none());
}

#[test]
fn double_initialize_rejected() {
    let mut p = deployment_with(ALICE, 1_000);
    let first = p.record_of(ALICE);
    assert_eq!(p.initialize(ALICE), Err(StakeError::AccountExists));
    assert_eq!(p.record_of(ALICE), first);
    assert_eq!(p.wallet_balance_of(ALICE), Some(1_000));
    assert_eq!(p.vault_balance(), 0);
}

#[test]
fn stake_zero_fails_with_no_token() {
    let mut p = deployment_with(ALICE, 1_000);
    assert_eq!(p.stake(ALICE, ALICE, 0), Err(StakeError::Rule(AppError::NoToken)));
    assert_eq!(staked_of(&p, ALICE), 0);
    assert_eq!(p.wallet_balance_of(ALICE), Some(1_000));
}

#[test]
fn stake_zero_fails_with_no_token_even_when_staked() {
    let mut p = deployment_with(ALICE, 1_000);
    assert_eq!(p.stake(ALICE, ALICE, 100), Ok(()));
    assert_eq!(p.stake(ALICE, ALICE, 0), Err(StakeError::Rule(AppError::NoToken)));
    assert_eq!(staked_of(&p, ALICE), 100);
}

#[test]
fn double_stake_rejected() {
    let mut p = deployment_with(ALICE, 1_000);
    assert_eq!(p.stake(ALICE, ALICE, 100), Ok(()));
    assert_eq!(p.stake(ALICE, ALICE, 50), Err(StakeError::Rule(AppError::IsStaked)));
    assert_eq!(staked_of(&p, ALICE), 100);
    assert_eq!(p.wallet_balance_of(ALICE), Some(900));
    assert_eq!(p.vault_balance(), 100);
}

#[test]
fn unstake_from_idle_fails_with_not_staked() {
    let mut p = deployment_with(ALICE, 1_000);
    assert_eq!(p.unstake(ALICE, ALICE, 1), Err(StakeError::Rule(AppError::NotStaked)));
    assert_eq!(staked_of(&p, ALICE), 0);
}

#[test]
fn unstake_zero_rejected() {
    let mut p = deployment_with(ALICE, 1_000);
    assert_eq!(p.stake(ALICE, ALICE, 100), Ok(()));
    assert_eq!(p.unstake(ALICE, ALICE, 0), Err(StakeError::Rule(AppError::NoToken)));
    assert_eq!(staked_of(&p, ALICE), 100);
}

#[test]
fn overdraft_rejected() {
    let mut p = deployment_with(ALICE, 1_000);
    assert_eq!(p.stake(ALICE, ALICE, 100), Ok(()));
    assert_eq!(
        p.unstake(ALICE, ALICE, 101),
        Err(StakeError::Rule(AppError::UnstakeMoreThanStaked))
    );
    assert_eq!(staked_of(&p, ALICE), 100);
    assert_eq!(p.vault_balance(), 100);
}

#[test]
fn stake_unstake_round_trip() {
    let mut p = deployment_with(ALICE, 1_000);
    assert_eq!(p.stake(ALICE, ALICE, 100), Ok(()));
    assert_eq!(p.wallet_balance_of(ALICE), Some(900));
    assert_eq!(p.vault_balance(), 100);
    assert_eq!(p.unstake(ALICE, ALICE, 100), Ok(()));
    let rec = p.record_of(ALICE).expect("record must exist");
    assert_eq!(rec.staked_amount, 0);
    assert!(!rec.is_staked);
    assert_eq!(p.wallet_balance_of(ALICE), Some(1_000));
    assert_eq!(p.vault_balance(), 0);
}

#[test]
fn partial_unstake_leaves_staked_remainder() {
    let mut p = deployment_with(ALICE, 1_000);
    assert_eq!(p.stake(ALICE, ALICE, 100), Ok(()));
    assert_eq!(p.unstake(ALICE, ALICE, 40), Ok(()));
    let rec = p.record_of(ALICE).expect("record must exist");
    assert_eq!(rec.staked_amount, 60);
    assert!(rec.is_staked);
    assert_eq!(p.wallet_balance_of(ALICE), Some(940));
    assert_eq!(p.vault_balance(), 60);
}

#[test]
fn unstake_full_returns_everything() {
    let mut p = deployment_with(ALICE, 1_000);
    assert_eq!(p.stake(ALICE, ALICE, 250), Ok(()));
    assert_eq!(p.unstake_full(ALICE, ALICE), Ok(()));
    let rec = p.record_of(ALICE).expect("record must exist");
    assert_eq!(rec.staked_amount, 0);
    assert!(!rec.is_staked);
    assert_eq!(p.wallet_balance_of(ALICE), Some(1_000));
    assert_eq!(p.vault_balance(), 0);
}

#[test]
fn unstake_full_from_idle_fails_with_not_staked() {
    let mut p = deployment_with(ALICE, 1_000);
    assert_eq!(p.unstake_full(ALICE, ALICE), Err(StakeError::Rule(AppError::NotStaked)));
}

#[test]
fn non_owner_rejected_by_every_handler() {
    let mut p = deployment_with(ALICE, 1_000);
    assert_eq!(p.stake(ALICE, ALICE, 100), Ok(()));
    let before_record = p.record_of(ALICE);
    let before_wallet = p.wallet_balance_of(ALICE);
    let before_vault = p.vault_balance();

    assert_eq!(p.stake(MALLORY, ALICE, 5), Err(StakeError::Rule(AppError::NotOwner)));
    assert_eq!(p.unstake(MALLORY, ALICE, 5), Err(StakeError::Rule(AppError::NotOwner)));
    assert_eq!(p.unstake_full(MALLORY, ALICE), Err(StakeError::Rule(AppError::NotOwner)));

    assert_eq!(p.record_of(ALICE), before_record);
    assert_eq!(p.wallet_balance_of(ALICE), before_wallet);
    assert_eq!(p.vault_balance(), before_vault);
}

#[test]
fn stake_more_than_wallet_fails_with_insufficient_funds() {
    let mut p = deployment_with(ALICE, 99);
    assert_eq!(p.stake(ALICE, ALICE, 100), Err(StakeError::InsufficientFunds));
    assert_eq!(staked_of(&p, ALICE), 0);
    assert_eq!(p.wallet_balance_of(ALICE), Some(99));
    assert_eq!(p.vault_balance(), 0);
}

#[test]
fn operations_on_unknown_owner_fail() {
    let mut p = deployment_with(ALICE, 1_000);
    assert_eq!(p.stake(BOB, BOB, 10), Err(StakeError::UnknownAccount));
    assert_eq!(p.unstake(BOB, BOB, 10), Err(StakeError::UnknownAccount));
    assert_eq!(p.unstake_full(BOB, BOB), Err(StakeError::UnknownAccount));
}

#[test]
fn funding_past_the_supply_limit_rejected() {
    let mut p = StakeProgram::new();
    assert_eq!(p.fund(ALICE, u64::MAX), Ok(()));
    assert_eq!(p.fund(BOB, 1), Err(StakeError::SupplyOverflow));
    assert_eq!(p.wallet_balance_of(ALICE), Some(u64::MAX));
    assert_eq!(p.wallet_balance_of(BOB), None);
}

#[test]
fn staking_the_largest_balance_works() {
    let mut p = StakeProgram::new();
    assert_eq!(p.fund(ALICE, u64::MAX), Ok(()));
    assert_eq!(p.initialize(ALICE), Ok(()));
    assert_eq!(p.stake(ALICE, ALICE, u64::MAX), Ok(()));
    assert_eq!(staked_of(&p, ALICE), u64::MAX);
    assert_eq!(p.vault_balance(), u64::MAX);
    assert_eq!(p.unstake(ALICE, ALICE, u64::MAX), Ok(()));
    assert_eq!(p.wallet_balance_of(ALICE), Some(u64::MAX));
    assert_eq!(p.vault_balance(), 0);
}

#[test]
fn conservation_across_records() {
    let mut p = StakeProgram::new();
    assert_eq!(p.fund(ALICE, 1_000), Ok(()));
    assert_eq!(p.fund(BOB, 500), Ok(()));
    assert_eq!(p.initialize(ALICE), Ok(()));
    assert_eq!(p.initialize(BOB), Ok(()));

    let check = |p: &StakeProgram| {
        let total = staked_of(p, ALICE) + staked_of(p, BOB);
        assert_eq!(p.vault_balance(), total);
        assert_eq!(p.total_supply(), 1_500);
    };

    check(&p);
    assert_eq!(p.stake(ALICE, ALICE, 700), Ok(()));
    check(&p);
    assert_eq!(p.stake(BOB, BOB, 500), Ok(()));
    check(&p);
    assert_eq!(p.unstake(ALICE, ALICE, 200), Ok(()));
    check(&p);
    assert_eq!(p.unstake_full(BOB, BOB), Ok(()));
    check(&p);
    assert_eq!(p.unstake(ALICE, ALICE, 500), Ok(()));
    check(&p);
    assert_eq!(p.vault_balance(), 0);
    assert_eq!(p.wallet_balance_of(ALICE), Some(1_000));
    assert_eq!(p.wallet_balance_of(BOB), Some(500));
}

#[test]
fn funding_tops_up_an_existing_wallet() {
    let mut p = StakeProgram::new();
    assert_eq!(p.fund(ALICE, 300), Ok(()));
    assert_eq!(p.fund(ALICE, 200), Ok(()));
    assert_eq!(p.wallet_balance_of(ALICE), Some(500));
    assert_eq!(p.total_supply(), 500);
}

#[test]
fn handler_initialize_returns_idle_record() {
    let rec = handlers::initialize(ALICE);
    assert_eq!(rec, StakeRecord { owner: ALICE, staked_amount: 0, is_staked: false });
}

#[test]
fn handler_stake_moves_the_tokens() {
    let mut rec = handlers::initialize(ALICE);
    let mut wallet: u64 = 150;
    let mut vault: u64 = 0;
    assert_eq!(handlers::stake(ALICE, &mut rec, &mut wallet, &mut vault, 100), Ok(()));
    assert_eq!(rec.staked_amount, 100);
    assert!(rec.is_staked);
    assert_eq!(wallet, 50);
    assert_eq!(vault, 100);
}

#[test]
fn handler_unstake_checks_the_owner_first() {
    let mut rec = handlers::initialize(ALICE);
    let mut wallet: u64 = 150;
    let mut vault: u64 = 0;
    assert_eq!(handlers::stake(ALICE, &mut rec, &mut wallet, &mut vault, 100), Ok(()));
    assert_eq!(
        handlers::unstake(BOB, &mut rec, &mut wallet, &mut vault, 100),
        Err(StakeError::Rule(AppError::NotOwner))
    );
    assert_eq!(rec.staked_amount, 100);
    assert_eq!(wallet, 50);
    assert_eq!(vault, 100);
}

#[test]
fn handler_unstake_full_lands_idle() {
    let mut rec = handlers::initialize(ALICE);
    let mut wallet: u64 = 150;
    let mut vault: u64 = 0;
    assert_eq!(handlers::stake(ALICE, &mut rec, &mut wallet, &mut vault, 150), Ok(()));
    assert_eq!(wallet, 0);
    assert_eq!(handlers::unstake_full(ALICE, &mut rec, &mut wallet, &mut vault), Ok(()));
    assert_eq!(rec.staked_amount, 0);
    assert!(!rec.is_staked);
    assert_eq!(wallet, 150);
    assert_eq!(vault, 0);
}

#[test]
fn transfer_failure_leaves_balances_unchanged() {
    let mut from: u64 = 10;
    let mut to: u64 = 7;
    assert_eq!(
        stake_program::custody::transfer(&mut from, &mut to, 11),
        Err(StakeError::InsufficientFunds)
    );
    assert_eq!(from, 10);
    assert_eq!(to, 7);
    assert_eq!(stake_program::custody::transfer(&mut from, &mut to, 10), Ok(()));
    assert_eq!(from, 0);
    assert_eq!(to, 17);
}
