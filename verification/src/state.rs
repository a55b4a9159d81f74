//! The persisted entities of the ledger.
//!
//! Each entity starts with a one-byte tag so that a record read back from
//! storage can be checked against the entity kind it is expected to hold.

use vstd::prelude::*;

use crate::addr::Addr;

verus! {

/// Tag byte of a record that has never been written.
pub const TAG_UNINITIALIZED: u8 = 0;
/// Tag byte of a central-state record.
pub const TAG_CENTRAL_STATE: u8 = 1;
/// Tag byte of a stake-pool record.
pub const TAG_STAKE_POOL: u8 = 2;
/// Tag byte of a stake-account record.
pub const TAG_STAKE_ACCOUNT: u8 = 3;
/// Tag byte of a bond-account record.
pub const TAG_BOND_ACCOUNT: u8 = 4;

/// The singleton global ledger record: inflation rate, authority, and the
/// aggregate of everything staked across all pools.
#[derive(Clone, Copy, PartialEq, Eq, Debug)]
pub struct CentralState {
    /// Bump seed of the singleton's derived address.
    pub nonce: u8,
    /// Reward tokens issued per day across all pools.
    pub daily_inflation: u64,
    /// The mint of the staked token.
    pub token_mint: Addr,
    /// The only identity permitted to change global parameters.
    pub authority: Addr,
    /// Sum of `total_staked` over all pools.
    pub total_staked: u64,
}

impl CentralState {
    /// Builds a fresh central state with nothing staked yet.
    pub fn new(nonce: u8, daily_inflation: u64, token_mint: Addr, authority: Addr) -> (r:
        CentralState)
        ensures
            r.nonce == nonce,
            r.daily_inflation == daily_inflation,
            r.token_mint == token_mint,
            r.authority == authority,
            r.total_staked == 0,
    {
        CentralState { nonce, daily_inflation, token_mint, authority, total_staked: 0 }
    }

    /// Length in bytes of a serialized central-state record.
    pub fn serialized_len() -> (r: usize)
        ensures
            r == 82,
    {
        82
    }
}

/// A per-owner collection of staked value.
#[derive(Clone, Copy, PartialEq, Eq, Debug)]
pub struct StakePool {
    /// The pool's own derived address.
    pub address: Addr,
    /// The identity that created the pool.
    pub owner: Addr,
    /// Sum of `stake_amount` over the pool's stake accounts.
    pub total_staked: u64,
    /// Minimum size of the first deposit into a fresh stake account.
    pub minimum_stake_amount: u64,
    /// Whether the pool accepts deposits yet.
    pub is_active: bool,
    /// Bump seed of the pool's derived address.
    pub nonce: u8,
}

impl StakePool {
    /// Length in bytes of a serialized stake-pool record.
    pub fn serialized_len() -> (r: usize)
        ensures
            r == 83,
    {
        83
    }
}

/// One staker's position in one pool.
#[derive(Clone, Copy, PartialEq, Eq, Debug)]
pub struct StakeAccount {
    /// The staker who owns this position.
    pub owner: Addr,
    /// Address of the pool the position belongs to.
    pub stake_pool: Addr,
    /// The staked balance.
    pub stake_amount: u64,
    /// The time up to which rewards have been settled.
    pub last_settled_time: u64,
}

impl StakeAccount {
    /// Length in bytes of a serialized stake-account record.
    pub fn serialized_len() -> (r: usize)
        ensures
            r == 81,
    {
        81
    }
}

/// A vesting grant that unlocks linearly into a stake position.
#[derive(Clone, Copy, PartialEq, Eq, Debug)]
pub struct BondAccount {
    /// The staker the grant vests to.
    pub owner: Addr,
    /// Address of the pool the claimed amounts are staked into.
    pub stake_pool: Addr,
    /// The identity that issued the grant.
    pub seller: Addr,
    /// Total size of the grant.
    pub total_amount: u64,
    /// Time at which vesting begins.
    pub unlock_start: u64,
    /// Length of the vesting schedule in seconds; never zero.
    pub unlock_period: u64,
    /// Amount already claimed out of the grant.
    pub amount_claimed: u64,
}

impl BondAccount {
    /// Length in bytes of a serialized bond-account record.
    pub fn serialized_len() -> (r: usize)
        ensures
            r == 129,
    {
        129
    }
}

/// The amount of a grant unlocked at time `now`: the whole grant once the
/// schedule has run out, otherwise the elapsed fraction of it, rounded down;
/// nothing before the schedule starts.
pub open spec fn spec_vested(total: int, start: int, period: int, now: int) -> int {
    if now <= start {
        0
    } else if now - start >= period {
        total
    } else {
        total * (now - start) / period
    }
}

} // verus!
