use stake_ledger::addr::Addr;
use stake_ledger::error::AccessError;
use stake_ledger::ledger::Ledger;
use stake_ledger::state::CentralState;

use solana_pubkey::Pubkey;

fn addr(b: u8) -> Addr {
    Addr::new([b; 32])
}

fn program_id() -> Addr {
    addr(200)
}

/// The deterministic pool address for an owner: derived from the owner's key
/// under the program identity, as the ledger recomputes it.
fn pool_key(owner: Addr) -> Addr {
    let program = Pubkey::new_from_array(program_id().bytes);
    let (key, _) = Pubkey::try_find_program_address(&[&owner.bytes], &program).unwrap();
    Addr::new(key.to_bytes())
}

fn new_pool(l: &mut Ledger, owner: Addr, minimum: u64) {
    l.create_stake_pool(&program_id(), pool_key(owner), owner, minimum).unwrap();
}

fn fresh_ledger(daily_inflation: u64) -> Ledger {
    Ledger::new(CentralState::new(0, daily_inflation, addr(9), addr(8)))
}

#[test]
fn common_stake_limit() {
    let mut l = fresh_ledger(0);
    let pool_owner = addr(2);
    let staker = addr(3);

    new_pool(&mut l, pool_owner, 1000);
    l.activate_stake_pool(0, pool_owner).unwrap();
    l.create_stake_account(0, staker, 0).unwrap();

    // Staking under the stake limit fails.
    let result = l.stake(0, 0, 999, 0);
    assert!(result.is_err());

    // Staking on the stake limit works.
    l.stake(0, 0, 1000, 0).unwrap();

    // Unstaking the full balance works.
    l.unstake(0, 0, 1000, 0).unwrap();

    // A bond claimed in full credits the account without a minimum check.
    l.create_bond(0, staker, pool_owner, pool_owner, 10_000, 0, 1).unwrap();
    l.claim_bond(0, 0, 0, staker, 10_000, 1).unwrap();

    // Staking under the stake limit now works: the account is nonzero.
    l.stake(0, 0, 1, 1).unwrap();

    assert_eq!(l.accounts[0].stake_amount, 10_001);
    assert_eq!(l.pools[0].total_staked, 10_001);
    assert_eq!(l.central.total_staked, 10_001);
}

#[test]
fn first_deposit_below_minimum_is_rejected() {
    let mut l = fresh_ledger(0);
    new_pool(&mut l, addr(2), 1000);
    l.activate_stake_pool(0, addr(2)).unwrap();
    l.create_stake_account(0, addr(3), 0).unwrap();
    assert_eq!(l.stake(0, 0, 999, 0), Err(AccessError::StakeBelowMinimum));
    assert_eq!(l.accounts[0].stake_amount, 0);
    assert_eq!(l.stake(0, 0, 1000, 0), Ok(0));
}

#[test]
fn exit_is_ungated() {
    let mut l = fresh_ledger(0);
    new_pool(&mut l, addr(2), 1000);
    l.activate_stake_pool(0, addr(2)).unwrap();
    l.create_stake_account(0, addr(3), 0).unwrap();
    l.stake(0, 0, 1000, 0).unwrap();

    // Withdrawing below the minimum is allowed; only entry is gated.
    l.unstake(0, 0, 600, 0).unwrap();
    assert_eq!(l.accounts[0].stake_amount, 400);

    // Draining to zero is allowed too.
    l.unstake(0, 0, 400, 0).unwrap();
    assert_eq!(l.accounts[0].stake_amount, 0);
    assert_eq!(l.pools[0].total_staked, 0);
    assert_eq!(l.central.total_staked, 0);
}

#[test]
fn unstake_more_than_balance_fails() {
    let mut l = fresh_ledger(0);
    new_pool(&mut l, addr(2), 10);
    l.activate_stake_pool(0, addr(2)).unwrap();
    l.create_stake_account(0, addr(3), 0).unwrap();
    l.stake(0, 0, 50, 0).unwrap();
    assert_eq!(l.unstake(0, 0, 51, 0), Err(AccessError::InsufficientStake));
    assert_eq!(l.accounts[0].stake_amount, 50);
}

#[test]
fn bond_bypasses_minimum_for_account_creation_credit() {
    let mut l = fresh_ledger(0);
    new_pool(&mut l, addr(2), 1000);
    l.activate_stake_pool(0, addr(2)).unwrap();
    l.create_stake_account(0, addr(3), 0).unwrap();

    l.create_bond(0, addr(3), addr(2), addr(2), 10_000, 0, 1).unwrap();
    l.claim_bond(0, 0, 0, addr(3), 10_000, 5).unwrap();
    assert_eq!(l.accounts[0].stake_amount, 10_000);
    assert_eq!(l.bonds[0].amount_claimed, 10_000);

    // A top-up of 1 succeeds even though 1 < minimum.
    assert_eq!(l.stake(0, 0, 1, 5), Ok(0));
    assert_eq!(l.accounts[0].stake_amount, 10_001);
}

#[test]
fn vesting_bound_is_enforced() {
    let mut l = fresh_ledger(0);
    new_pool(&mut l, addr(2), 1000);
    l.activate_stake_pool(0, addr(2)).unwrap();
    l.create_stake_account(0, addr(3), 0).unwrap();
    l.create_bond(0, addr(3), addr(2), addr(2), 10_000, 0, 100).unwrap();

    // Halfway through the schedule only half has vested.
    assert_eq!(
        l.claim_bond(0, 0, 0, addr(3), 6_000, 50),
        Err(AccessError::InsufficientVestedAmount)
    );
    assert_eq!(l.claim_bond(0, 0, 0, addr(3), 5_000, 50), Ok(0));
    assert_eq!(l.bonds[0].amount_claimed, 5_000);

    // At the end of the schedule the remainder is claimable exactly.
    assert_eq!(l.claim_bond(0, 0, 0, addr(3), 5_000, 100), Ok(0));
    assert_eq!(l.bonds[0].amount_claimed, 10_000);
    assert_eq!(l.accounts[0].stake_amount, 10_000);

    // Nothing is left afterwards.
    assert_eq!(
        l.claim_bond(0, 0, 0, addr(3), 1, 100),
        Err(AccessError::InsufficientVestedAmount)
    );
}

#[test]
fn claim_bond_wrong_signer_fails() {
    let mut l = fresh_ledger(0);
    new_pool(&mut l, addr(2), 10);
    l.create_stake_account(0, addr(3), 0).unwrap();
    l.create_bond(0, addr(3), addr(2), addr(2), 100, 0, 1).unwrap();
    assert_eq!(l.claim_bond(0, 0, 0, addr(4), 100, 5), Err(AccessError::WrongOwner));
}

#[test]
fn settle_pays_the_exact_prorated_share() {
    // Two equal positions split an inflation of two days' worth per day.
    let mut l = fresh_ledger(172_800);
    new_pool(&mut l, addr(2), 1);
    l.activate_stake_pool(0, addr(2)).unwrap();
    l.create_stake_account(0, addr(4), 0).unwrap();
    l.create_stake_account(0, addr(5), 0).unwrap();
    l.stake(0, 0, 500, 0).unwrap();
    l.stake(0, 1, 500, 0).unwrap();

    // Half a day for half the pool: 500/1000 * 172800 * 43200/86400 = 43200.
    assert_eq!(l.settle(0, 0, 43_200), Ok(43_200));
}

#[test]
fn settle_twice_at_same_time_pays_zero() {
    let mut l = fresh_ledger(172_800);
    new_pool(&mut l, addr(2), 1);
    l.activate_stake_pool(0, addr(2)).unwrap();
    l.create_stake_account(0, addr(4), 0).unwrap();
    l.stake(0, 0, 500, 0).unwrap();

    let first = l.settle(0, 0, 43_200).unwrap();
    assert!(first > 0);
    assert_eq!(l.settle(0, 0, 43_200), Ok(0));
}

#[test]
fn settle_before_last_settlement_fails() {
    let mut l = fresh_ledger(100);
    new_pool(&mut l, addr(2), 1);
    l.activate_stake_pool(0, addr(2)).unwrap();
    l.create_stake_account(0, addr(4), 50).unwrap();
    assert_eq!(l.settle(0, 0, 49), Err(AccessError::Underflow));
}

#[test]
fn staking_past_the_representable_total_fails() {
    let mut l = fresh_ledger(0);
    new_pool(&mut l, addr(2), 1000);
    l.activate_stake_pool(0, addr(2)).unwrap();
    l.create_stake_account(0, addr(3), 0).unwrap();
    l.stake(0, 0, u64::MAX, 0).unwrap();
    assert_eq!(l.stake(0, 0, 1, 0), Err(AccessError::Overflow));
    assert_eq!(l.accounts[0].stake_amount, u64::MAX);
    assert_eq!(l.central.total_staked, u64::MAX);
}

#[test]
fn inactive_pool_rejects_stakes() {
    let mut l = fresh_ledger(0);
    new_pool(&mut l, addr(2), 10);
    l.create_stake_account(0, addr(3), 0).unwrap();
    assert_eq!(l.stake(0, 0, 100, 0), Err(AccessError::StakePoolNotActive));
}

#[test]
fn activation_is_owner_gated_and_single_shot() {
    let mut l = fresh_ledger(0);
    new_pool(&mut l, addr(2), 10);
    assert_eq!(l.activate_stake_pool(0, addr(7)), Err(AccessError::WrongOwner));
    assert_eq!(l.activate_stake_pool(0, addr(2)), Ok(()));
    assert_eq!(l.activate_stake_pool(0, addr(2)), Err(AccessError::AlreadyInitialized));
}

#[test]
fn duplicate_pool_address_is_rejected() {
    let mut l = fresh_ledger(0);
    new_pool(&mut l, addr(2), 10);
    assert_eq!(
        l.create_stake_pool(&program_id(), pool_key(addr(2)), addr(2), 20),
        Err(AccessError::AlreadyInitialized)
    );
}

#[test]
fn pool_at_a_non_derived_address_is_rejected() {
    let mut l = fresh_ledger(0);
    assert_eq!(
        l.create_stake_pool(&program_id(), addr(1), addr(2), 10),
        Err(AccessError::AccountNotDeterministic)
    );
    assert_eq!(l.pools.len(), 0);
}

#[test]
fn duplicate_stake_account_is_rejected() {
    let mut l = fresh_ledger(0);
    new_pool(&mut l, addr(2), 10);
    l.create_stake_account(0, addr(3), 0).unwrap();
    assert_eq!(l.create_stake_account(0, addr(3), 0), Err(AccessError::AlreadyInitialized));
}

#[test]
fn malformed_bond_is_rejected() {
    let mut l = fresh_ledger(0);
    new_pool(&mut l, addr(2), 10);
    assert_eq!(
        l.create_bond(0, addr(3), addr(2), addr(2), 0, 0, 100),
        Err(AccessError::DataTypeMismatch)
    );
    assert_eq!(
        l.create_bond(0, addr(3), addr(2), addr(2), 100, 0, 0),
        Err(AccessError::DataTypeMismatch)
    );
}

#[test]
fn bond_creation_is_gated_to_owner_or_seller() {
    let mut l = fresh_ledger(0);
    new_pool(&mut l, addr(2), 10);
    // A stranger may not issue a grant.
    assert_eq!(
        l.create_bond(0, addr(3), addr(5), addr(9), 100, 0, 10),
        Err(AccessError::WrongOwner)
    );
    // The designated seller may.
    assert_eq!(l.create_bond(0, addr(3), addr(5), addr(5), 100, 0, 10), Ok(()));
}

#[test]
fn inflation_change_is_authority_gated() {
    let mut l = fresh_ledger(5);
    assert_eq!(l.change_inflation(addr(7), 10), Err(AccessError::WrongOwner));
    assert_eq!(l.central.daily_inflation, 5);
    assert_eq!(l.change_inflation(addr(8), 10), Ok(()));
    assert_eq!(l.central.daily_inflation, 10);
}

#[test]
fn totals_stay_conserved_across_a_mixed_history() {
    let mut l = fresh_ledger(0);
    new_pool(&mut l, addr(2), 100);
    new_pool(&mut l, addr(12), 1);
    l.activate_stake_pool(0, addr(2)).unwrap();
    l.activate_stake_pool(1, addr(12)).unwrap();
    l.create_stake_account(0, addr(3), 0).unwrap();
    l.create_stake_account(1, addr(3), 0).unwrap();
    l.create_stake_account(0, addr(4), 0).unwrap();

    l.stake(0, 0, 500, 0).unwrap();
    l.stake(1, 1, 40, 0).unwrap();
    l.stake(0, 2, 100, 0).unwrap();
    l.unstake(0, 0, 200, 0).unwrap();
    l.create_bond(1, addr(3), addr(12), addr(12), 60, 0, 1).unwrap();
    l.claim_bond(0, 1, 1, addr(3), 60, 2).unwrap();

    let pool0: u64 = l.accounts.iter().filter(|a| a.stake_pool == l.pools[0].address).map(
        |a| a.stake_amount,
    ).sum();
    let pool1: u64 = l.accounts.iter().filter(|a| a.stake_pool == l.pools[1].address).map(
        |a| a.stake_amount,
    ).sum();
    assert_eq!(l.pools[0].total_staked, pool0);
    assert_eq!(l.pools[1].total_staked, pool1);
    assert_eq!(l.central.total_staked, l.pools[0].total_staked + l.pools[1].total_staked);
    assert_eq!(l.central.total_staked, 500);
}
