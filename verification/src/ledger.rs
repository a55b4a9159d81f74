//! The global ledger and its state transitions.
//!
//! A `Ledger` gathers the singleton central state, every stake pool, every
//! stake account and every bond grant. Each operation is one indivisible
//! validate-then-apply transition: every precondition is checked before any
//! field is written, so a failing operation leaves the ledger untouched.
//!
//! The conservation invariant is `wf`: each pool's `total_staked` equals the
//! sum of its accounts' balances, and the central state's `total_staked`
//! equals the sum of the pools' totals. Every operation preserves it.

use vstd::prelude::*;

use crate::addr::Addr;
use crate::error::AccessError;
use crate::derivation::{derived_key_of, find_derived_key};
use crate::reward::{calc_reward, spec_reward, spec_reward_overflows};
use crate::state::{BondAccount, CentralState, StakeAccount, StakePool, spec_vested};

verus! {

/// Sum of the balances of the accounts that belong to the pool at `pool`.
pub open spec fn sum_stakes_for(accounts: Seq<StakeAccount>, pool: Addr) -> int
    decreases accounts.len(),
{
    if accounts.len() == 0 {
        0
    } else {
        sum_stakes_for(accounts.drop_last(), pool) + if accounts.last().stake_pool == pool {
            accounts.last().stake_amount as int
        } else {
            0
        }
    }
}

/// Sum of `total_staked` over a sequence of pools.
pub open spec fn sum_pool_totals(pools: Seq<StakePool>) -> int
    decreases pools.len(),
{
    if pools.len() == 0 {
        0
    } else {
        sum_pool_totals(pools.drop_last()) + pools.last().total_staked as int
    }
}

/// The part of a grant that may be claimed at time `now`: what has vested so
/// far, less what was already claimed, and never negative.
pub open spec fn spec_claimable(b: BondAccount, now: int) -> int {
    let v = spec_vested(
        b.total_amount as int,
        b.unlock_start as int,
        b.unlock_period as int,
        now,
    );
    if v >= b.amount_claimed as int {
        v - b.amount_claimed as int
    } else {
        0
    }
}

/// Once a grant's schedule has fully run out, exactly the unclaimed
/// remainder is claimable: claiming it all drives `amount_claimed` to
/// `total_amount`.
pub proof fn lemma_fully_vested_claimable(b: BondAccount, now: u64)
    requires
        b.unlock_period >= 1,
        b.amount_claimed <= b.total_amount,
        now >= b.unlock_start + b.unlock_period,
    ensures
        spec_claimable(b, now as int) == b.total_amount - b.amount_claimed,
{
}

/// Whether some pool in `pools` sits at address `addr`.
pub open spec fn pool_exists_for(pools: Seq<StakePool>, addr: Addr) -> bool {
    exists|p: int| 0 <= p < pools.len() && pools[p].address == addr
}

/// The whole ledger: the singleton plus every pool, position and grant.
pub struct Ledger {
    /// The singleton global record.
    pub central: CentralState,
    /// Every stake pool, in creation order.
    pub pools: Vec<StakePool>,
    /// Every stake account, in creation order.
    pub accounts: Vec<StakeAccount>,
    /// Every bond grant, in creation order.
    pub bonds: Vec<BondAccount>,
}

impl Ledger {
    /// Conservation and shape invariant of the ledger.
    pub open spec fn wf(self) -> bool {
        &&& forall|i: int, j: int|
            0 <= i < j < self.pools@.len() ==> self.pools@[i].address != self.pools@[j].address
        &&& forall|i: int|
            0 <= i < self.pools@.len() ==> self.pools@[i].total_staked as int == sum_stakes_for(
                self.accounts@,
                self.pools@[i].address,
            )
        &&& self.central.total_staked as int == sum_pool_totals(self.pools@)
        &&& forall|a: int|
            0 <= a < self.accounts@.len() ==> pool_exists_for(
                self.pools@,
                #[trigger] self.accounts@[a].stake_pool,
            )
        &&& forall|b: int|
            0 <= b < self.bonds@.len() ==> (#[trigger] self.bonds@[b].unlock_period >= 1
                && self.bonds@[b].amount_claimed <= self.bonds@[b].total_amount)
    }

    /// Starts a ledger from a freshly created central state: no pools, no
    /// accounts, no grants, nothing staked.
    pub fn new(central: CentralState) -> (r: Ledger)
        requires
            central.total_staked == 0,
        ensures
            r.wf(),
            r.central == central,
            r.pools@.len() == 0,
            r.accounts@.len() == 0,
            r.bonds@.len() == 0,
    {
        Ledger { central, pools: Vec::new(), accounts: Vec::new(), bonds: Vec::new() }
    }

    /// Creates a stake pool at `address`, owned by `owner`, inactive and
    /// empty. The supplied address must equal the pool address derived from
    /// the owner's key under `program_id` — an address is never taken on
    /// trust — and the pool's bump seed is taken from that derivation. Fails
    /// `AccountNotDeterministic` on an address mismatch and
    /// `AlreadyInitialized` when a pool already sits at that address;
    /// nothing is changed then.
    #[verifier::loop_isolation(false)]
    pub fn create_stake_pool(
        &mut self,
        program_id: &Addr,
        address: Addr,
        owner: Addr,
        minimum_stake_amount: u64,
    ) -> (r: Result<(), AccessError>)
        requires
            old(self).wf(),
        ensures
            final(self).wf(),
            ({
                let derived = derived_key_of(owner.bytes@, program_id.bytes@);
                let fresh = forall|k: int|
                    0 <= k < old(self).pools@.len() ==> old(self).pools@[k].address != address;
                &&& (!(derived matches Some(d) && d.0 == address.bytes@) ==> r is Err && r->Err_0
                    == AccessError::AccountNotDeterministic)
                &&& ((derived matches Some(d) && d.0 == address.bytes@) && !fresh ==> r is Err
                    && r->Err_0 == AccessError::AlreadyInitialized)
                &&& (r is Ok <==> (derived matches Some(d) && d.0 == address.bytes@) && fresh)
                &&& (r is Err ==> *final(self) == *old(self))
                &&& (r is Ok ==> (derived matches Some(d) && final(self).pools@ == old(
                    self,
                ).pools@.push(
                    StakePool {
                        address,
                        owner,
                        total_staked: 0,
                        minimum_stake_amount,
                        is_active: false,
                        nonce: d.1,
                    },
                )))
            }),
            r is Ok ==> final(self).central == old(self).central && final(self).accounts@ == old(
                self,
            ).accounts@ && final(self).bonds@ == old(self).bonds@,
    {
        let (derived_key, nonce) = match find_derived_key(&owner, program_id) {
            Some(p) => p,
            None => {
                return Err(AccessError::AccountNotDeterministic);
            },
        };
        if !address.equals(&derived_key) {
            return Err(AccessError::AccountNotDeterministic);
        }
        let n = self.pools.len();
        let mut i: usize = 0;
        while i < n
            invariant
                n == self.pools@.len(),
                i <= n,
                forall|k: int| 0 <= k < i ==> self.pools@[k].address != address,
            decreases n - i,
        {
            if self.pools[i].address.equals(&address) {
                proof {
                    assert(self.pools@[i as int].address == address);
                }
                return Err(AccessError::AlreadyInitialized);
            }
            i += 1;
        }
        let pool = StakePool {
            address,
            owner,
            total_staked: 0,
            minimum_stake_amount,
            is_active: false,
            nonce,
        };
        proof {
            lemma_sum_pool_totals_push(self.pools@, pool);
            assert forall|k: int| 0 <= k < self.accounts@.len() implies self.accounts@[k].stake_pool
                != address by {
                let p = choose|p: int|
                    0 <= p < self.pools@.len() && self.pools@[p].address
                        == self.accounts@[k].stake_pool;
            }
            lemma_sum_stakes_absent(self.accounts@, address);
        }
        self.pools.push(pool);
        proof {
            assert forall|a: int| 0 <= a < self.accounts@.len() implies pool_exists_for(
                self.pools@,
                #[trigger] self.accounts@[a].stake_pool,
            ) by {
                assert(pool_exists_for(old(self).pools@, self.accounts@[a].stake_pool));
                let p = choose|p: int|
                    0 <= p < old(self).pools@.len() && old(self).pools@[p].address
                        == self.accounts@[a].stake_pool;
                assert(self.pools@[p].address == self.accounts@[a].stake_pool);
            }
        }
        Ok(())
    }

    /// Activates the pool at `pool_idx`. Only the pool's owner may do so;
    /// activating twice is refused. Nothing is changed on failure.
    pub fn activate_stake_pool(&mut self, pool_idx: usize, signer: Addr) -> (r: Result<
        (),
        AccessError,
    >)
        requires
            old(self).wf(),
            pool_idx < old(self).pools@.len(),
        ensures
            final(self).wf(),
            r is Ok <==> (signer == old(self).pools@[pool_idx as int].owner && !old(
                self,
            ).pools@[pool_idx as int].is_active),
            signer != old(self).pools@[pool_idx as int].owner ==> r == Result::<
                (),
                AccessError,
            >::Err(AccessError::WrongOwner),
            signer == old(self).pools@[pool_idx as int].owner && old(
                self,
            ).pools@[pool_idx as int].is_active ==> r == Result::<(), AccessError>::Err(
                AccessError::AlreadyInitialized,
            ),
            r is Err ==> *final(self) == *old(self),
            r is Ok ==> final(self).pools@ == old(self).pools@.update(
                pool_idx as int,
                StakePool { is_active: true, ..old(self).pools@[pool_idx as int] },
            ),
            r is Ok ==> final(self).central == old(self).central && final(self).accounts@ == old(
                self,
            ).accounts@ && final(self).bonds@ == old(self).bonds@,
    {
        let pool = self.pools[pool_idx];
        if !signer.equals(&pool.owner) {
            return Err(AccessError::WrongOwner);
        }
        if pool.is_active {
            return Err(AccessError::AlreadyInitialized);
        }
        let updated = StakePool { is_active: true, ..pool };
        proof {
            lemma_sum_pool_totals_update(self.pools@, pool_idx as int, updated);
        }
        self.pools.set(pool_idx, updated);
        proof {
            assert forall|a: int| 0 <= a < self.accounts@.len() implies pool_exists_for(
                self.pools@,
                #[trigger] self.accounts@[a].stake_pool,
            ) by {
                assert(pool_exists_for(old(self).pools@, self.accounts@[a].stake_pool));
                let p = choose|p: int|
                    0 <= p < old(self).pools@.len() && old(self).pools@[p].address
                        == self.accounts@[a].stake_pool;
                assert(self.pools@[p].address == self.accounts@[a].stake_pool);
            }
        }
        Ok(())
    }

    /// Creates an empty stake account for `owner` in the pool at `pool_idx`,
    /// settled up to `now`. Fails `AlreadyInitialized` when the (pool, owner)
    /// pair already has an account; nothing is changed then. The pool's
    /// minimum plays no part here: it gates the first deposit, not the
    /// account's existence.
    #[verifier::loop_isolation(false)]
    pub fn create_stake_account(&mut self, pool_idx: usize, owner: Addr, now: u64) -> (r: Result<
        (),
        AccessError,
    >)
        requires
            old(self).wf(),
            pool_idx < old(self).pools@.len(),
        ensures
            final(self).wf(),
            r is Ok <==> (forall|k: int|
                0 <= k < old(self).accounts@.len() ==> !(old(self).accounts@[k].stake_pool == old(
                    self,
                ).pools@[pool_idx as int].address && old(self).accounts@[k].owner == owner)),
            r is Err ==> r->Err_0 == AccessError::AlreadyInitialized && *final(self) == *old(self),
            r is Ok ==> final(self).accounts@ == old(self).accounts@.push(
                StakeAccount {
                    owner,
                    stake_pool: old(self).pools@[pool_idx as int].address,
                    stake_amount: 0,
                    last_settled_time: now,
                },
            ),
            r is Ok ==> final(self).central == old(self).central && final(self).pools@ == old(
                self,
            ).pools@ && final(self).bonds@ == old(self).bonds@,
    {
        let pool_address = self.pools[pool_idx].address;
        let n = self.accounts.len();
        let mut i: usize = 0;
        while i < n
            invariant
                n == self.accounts@.len(),
                i <= n,
                forall|k: int| 0 <= k < i ==> !(self.accounts@[k].stake_pool == pool_address
                    && self.accounts@[k].owner == owner),
            decreases n - i,
        {
            let a = &self.accounts[i];
            if a.stake_pool.equals(&pool_address) && a.owner.equals(&owner) {
                proof {
                    assert(self.accounts@[i as int].stake_pool == pool_address
                        && self.accounts@[i as int].owner == owner);
                }
                return Err(AccessError::AlreadyInitialized);
            }
            i += 1;
        }
        let account = StakeAccount {
            owner,
            stake_pool: pool_address,
            stake_amount: 0,
            last_settled_time: now,
        };
        proof {
            assert forall|p: int| 0 <= p < self.pools@.len() implies self.pools@[p].total_staked
                as int == sum_stakes_for(self.accounts@.push(account), self.pools@[p].address) by {
                lemma_sum_stakes_push(self.accounts@, account, self.pools@[p].address);
            }
        }
        self.accounts.push(account);
        proof {
            assert forall|a: int| 0 <= a < self.accounts@.len() implies pool_exists_for(
                self.pools@,
                #[trigger] self.accounts@[a].stake_pool,
            ) by {
                if a < old(self).accounts@.len() {
                    assert(pool_exists_for(old(self).pools@, self.accounts@[a].stake_pool));
                    let p = choose|p: int|
                        0 <= p < old(self).pools@.len() && old(self).pools@[p].address
                            == self.accounts@[a].stake_pool;
                    assert(self.pools@[p].address == self.accounts@[a].stake_pool);
                } else {
                    assert(self.pools@[pool_idx as int].address == self.accounts@[a].stake_pool);
                }
            }
        }
        Ok(())
    }

    /// Settles the pending reward of the account at `account_idx` in the pool
    /// at `pool_idx` up to `now`: returns the accrued reward, to be issued by
    /// the surrounding token custodian, and advances the account's settlement
    /// time. The balance itself does not move. Fails `Underflow` when `now`
    /// lies before the last settlement, `Overflow` when the reward leaves the
    /// representable range; nothing is changed then.
    pub fn settle(&mut self, pool_idx: usize, account_idx: usize, now: u64) -> (r: Result<
        u64,
        AccessError,
    >)
        requires
            old(self).wf(),
            pool_idx < old(self).pools@.len(),
            account_idx < old(self).accounts@.len(),
            old(self).accounts@[account_idx as int].stake_pool == old(
                self,
            ).pools@[pool_idx as int].address,
        ensures
            final(self).wf(),
            ({
                let a = old(self).accounts@[account_idx as int];
                let p = old(self).pools@[pool_idx as int];
                let c = old(self).central;
                &&& (r is Ok <==> now >= a.last_settled_time && !spec_reward_overflows(
                    a.stake_amount as int,
                    p.total_staked as int,
                    c.daily_inflation as int,
                    now - a.last_settled_time,
                ))
                &&& (now < a.last_settled_time ==> r is Err && r->Err_0
                    == AccessError::Underflow)
                &&& (now >= a.last_settled_time && spec_reward_overflows(
                    a.stake_amount as int,
                    p.total_staked as int,
                    c.daily_inflation as int,
                    now - a.last_settled_time,
                ) ==> r is Err && r->Err_0 == AccessError::Overflow)
                &&& (r is Err ==> *final(self) == *old(self))
                &&& (r is Ok ==> r->Ok_0 == spec_reward(
                    a.stake_amount as int,
                    p.total_staked as int,
                    c.daily_inflation as int,
                    now - a.last_settled_time,
                ))
                &&& (r is Ok ==> final(self).accounts@ == old(self).accounts@.update(
                    account_idx as int,
                    StakeAccount { last_settled_time: now, ..a },
                ))
                &&& (r is Ok ==> final(self).pools@ == old(self).pools@ && final(self).central
                    == old(self).central && final(self).bonds@ == old(self).bonds@)
            }),
    {
        let account = self.accounts[account_idx];
        let pool = self.pools[pool_idx];
        let elapsed = match now.checked_sub(account.last_settled_time) {
            Some(e) => e,
            None => {
                return Err(AccessError::Underflow);
            },
        };
        let reward = match calc_reward(
            account.stake_amount,
            pool.total_staked,
            self.central.daily_inflation,
            elapsed,
        ) {
            Ok(x) => x,
            Err(e) => {
                return Err(e);
            },
        };
        let updated = StakeAccount { last_settled_time: now, ..account };
        proof {
            assert forall|p: int| 0 <= p < self.pools@.len() implies self.pools@[p].total_staked
                as int == sum_stakes_for(
                self.accounts@.update(account_idx as int, updated),
                #[trigger] self.pools@[p].address,
            ) by {
                lemma_sum_stakes_update(
                    self.accounts@,
                    account_idx as int,
                    updated,
                    self.pools@[p].address,
                );
            }
            lemma_links_preserved(
                self.pools@,
                self.pools@,
                self.accounts@,
                self.accounts@.update(account_idx as int, updated),
            );
        }
        self.accounts.set(account_idx, updated);
        Ok(reward)
    }

    /// Settlement is idempotent over zero elapsed time: a ledger that
    /// `settle` has just left behind — the account's settlement time equals
    /// `now` — owes nothing on a second settlement at the same `now`. By the
    /// contract of `settle`, that second call is then bound to return
    /// exactly `Ok(0)`.
    pub proof fn lemma_settle_idempotent_at(self, pool_idx: int, account_idx: int, now: u64)
        requires
            self.wf(),
            0 <= pool_idx < self.pools@.len(),
            0 <= account_idx < self.accounts@.len(),
            self.accounts@[account_idx].last_settled_time == now,
        ensures
            !spec_reward_overflows(
                self.accounts@[account_idx].stake_amount as int,
                self.pools@[pool_idx].total_staked as int,
                self.central.daily_inflation as int,
                now - self.accounts@[account_idx].last_settled_time,
            ),
            spec_reward(
                self.accounts@[account_idx].stake_amount as int,
                self.pools@[pool_idx].total_staked as int,
                self.central.daily_inflation as int,
                now - self.accounts@[account_idx].last_settled_time,
            ) == 0,
    {
        crate::reward::lemma_settle_idempotent(
            self.accounts@[account_idx].stake_amount as int,
            self.pools@[pool_idx].total_staked as int,
            self.central.daily_inflation as int,
        );
    }

    /// Stakes `amount` into the account at `account_idx` of the active pool
    /// at `pool_idx`, settling the pending reward first. A deposit into an
    /// empty account must reach the pool's minimum; a top-up of a nonzero
    /// balance is never gated. On success the account's balance, the pool's
    /// total and the global total all grow by `amount`, and the settled
    /// reward is returned for the token custodian to issue. On any failure
    /// nothing is changed.
    pub fn stake(&mut self, pool_idx: usize, account_idx: usize, amount: u64, now: u64) -> (r:
        Result<u64, AccessError>)
        requires
            old(self).wf(),
            pool_idx < old(self).pools@.len(),
            account_idx < old(self).accounts@.len(),
            old(self).accounts@[account_idx as int].stake_pool == old(
                self,
            ).pools@[pool_idx as int].address,
            amount >= 1,
        ensures
            final(self).wf(),
            ({
                let a = old(self).accounts@[account_idx as int];
                let p = old(self).pools@[pool_idx as int];
                let c = old(self).central;
                let overflows = spec_reward_overflows(
                    a.stake_amount as int,
                    p.total_staked as int,
                    c.daily_inflation as int,
                    now - a.last_settled_time,
                );
                &&& (r is Ok <==> p.is_active && now >= a.last_settled_time && !overflows && !(
                a.stake_amount == 0 && amount < p.minimum_stake_amount) && c.total_staked + amount
                    <= u64::MAX)
                &&& (!p.is_active ==> r is Err && r->Err_0 == AccessError::StakePoolNotActive)
                &&& (p.is_active && now < a.last_settled_time ==> r is Err && r->Err_0
                    == AccessError::Underflow)
                &&& (p.is_active && now >= a.last_settled_time && overflows ==> r is Err
                    && r->Err_0 == AccessError::Overflow)
                &&& (p.is_active && now >= a.last_settled_time && !overflows && a.stake_amount == 0
                    && amount < p.minimum_stake_amount ==> r is Err && r->Err_0
                    == AccessError::StakeBelowMinimum)
                &&& (p.is_active && now >= a.last_settled_time && !overflows && !(a.stake_amount
                    == 0 && amount < p.minimum_stake_amount) && c.total_staked + amount > u64::MAX
                    ==> r is Err && r->Err_0 == AccessError::Overflow)
                &&& (r is Err ==> *final(self) == *old(self))
                &&& (r is Ok ==> r->Ok_0 == spec_reward(
                    a.stake_amount as int,
                    p.total_staked as int,
                    c.daily_inflation as int,
                    now - a.last_settled_time,
                ))
                &&& (r is Ok ==> final(self).accounts@ == old(self).accounts@.update(
                    account_idx as int,
                    StakeAccount {
                        stake_amount: (a.stake_amount + amount) as u64,
                        last_settled_time: now,
                        ..a
                    },
                ))
                &&& (r is Ok ==> final(self).pools@ == old(self).pools@.update(
                    pool_idx as int,
                    StakePool { total_staked: (p.total_staked + amount) as u64, ..p },
                ))
                &&& (r is Ok ==> final(self).central == (CentralState {
                    total_staked: (c.total_staked + amount) as u64,
                    ..c
                }) && final(self).bonds@ == old(self).bonds@)
            }),
    {
        let account = self.accounts[account_idx];
        let pool = self.pools[pool_idx];
        if !pool.is_active {
            return Err(AccessError::StakePoolNotActive);
        }
        let elapsed = match now.checked_sub(account.last_settled_time) {
            Some(e) => e,
            None => {
                return Err(AccessError::Underflow);
            },
        };
        let reward = match calc_reward(
            account.stake_amount,
            pool.total_staked,
            self.central.daily_inflation,
            elapsed,
        ) {
            Ok(x) => x,
            Err(e) => {
                return Err(e);
            },
        };
        if account.stake_amount == 0 && amount < pool.minimum_stake_amount {
            return Err(AccessError::StakeBelowMinimum);
        }
        let new_central_total = match self.central.total_staked.checked_add(amount) {
            Some(v) => v,
            None => {
                return Err(AccessError::Overflow);
            },
        };
        proof {
            lemma_sum_stakes_member_bound(
                self.accounts@,
                account_idx as int,
                self.pools@[pool_idx as int].address,
            );
            lemma_sum_pool_totals_member_bound(self.pools@, pool_idx as int);
        }
        let updated_account = StakeAccount {
            stake_amount: account.stake_amount + amount,
            last_settled_time: now,
            ..account
        };
        let updated_pool = StakePool { total_staked: pool.total_staked + amount, ..pool };
        proof {
            let accounts1 = self.accounts@.update(account_idx as int, updated_account);
            assert forall|q: int| 0 <= q < self.pools@.len() implies sum_stakes_for(
                accounts1,
                #[trigger] self.pools@[q].address,
            ) == sum_stakes_for(self.accounts@, self.pools@[q].address) + (if self.pools@[q].address
                == account.stake_pool {
                amount as int
            } else {
                0
            }) by {
                lemma_sum_stakes_update(
                    self.accounts@,
                    account_idx as int,
                    updated_account,
                    self.pools@[q].address,
                );
            }
            lemma_sum_pool_totals_update(self.pools@, pool_idx as int, updated_pool);
            lemma_links_preserved(
                self.pools@,
                self.pools@.update(pool_idx as int, updated_pool),
                self.accounts@,
                accounts1,
            );
        }
        self.accounts.set(account_idx, updated_account);
        self.pools.set(pool_idx, updated_pool);
        self.central.total_staked = new_central_total;
        Ok(reward)
    }

    /// Withdraws `amount` from the account at `account_idx` of the pool at
    /// `pool_idx`, settling the pending reward first. Exit is never gated by
    /// the pool minimum: any amount up to the full balance may leave, the
    /// account may drain to zero. On success the three counters shrink by
    /// `amount` and the settled reward is returned. On any failure nothing is
    /// changed.
    pub fn unstake(&mut self, pool_idx: usize, account_idx: usize, amount: u64, now: u64) -> (r:
        Result<u64, AccessError>)
        requires
            old(self).wf(),
            pool_idx < old(self).pools@.len(),
            account_idx < old(self).accounts@.len(),
            old(self).accounts@[account_idx as int].stake_pool == old(
                self,
            ).pools@[pool_idx as int].address,
        ensures
            final(self).wf(),
            ({
                let a = old(self).accounts@[account_idx as int];
                let p = old(self).pools@[pool_idx as int];
                let c = old(self).central;
                let overflows = spec_reward_overflows(
                    a.stake_amount as int,
                    p.total_staked as int,
                    c.daily_inflation as int,
                    now - a.last_settled_time,
                );
                &&& (r is Ok <==> now >= a.last_settled_time && !overflows && amount
                    <= a.stake_amount)
                &&& (now < a.last_settled_time ==> r is Err && r->Err_0
                    == AccessError::Underflow)
                &&& (now >= a.last_settled_time && overflows ==> r is Err && r->Err_0
                    == AccessError::Overflow)
                &&& (now >= a.last_settled_time && !overflows && amount > a.stake_amount ==> r
                    is Err && r->Err_0 == AccessError::InsufficientStake)
                &&& (r is Err ==> *final(self) == *old(self))
                &&& (r is Ok ==> r->Ok_0 == spec_reward(
                    a.stake_amount as int,
                    p.total_staked as int,
                    c.daily_inflation as int,
                    now - a.last_settled_time,
                ))
                &&& (r is Ok ==> final(self).accounts@ == old(self).accounts@.update(
                    account_idx as int,
                    StakeAccount {
                        stake_amount: (a.stake_amount - amount) as u64,
                        last_settled_time: now,
                        ..a
                    },
                ))
                &&& (r is Ok ==> final(self).pools@ == old(self).pools@.update(
                    pool_idx as int,
                    StakePool { total_staked: (p.total_staked - amount) as u64, ..p },
                ))
                &&& (r is Ok ==> final(self).central == (CentralState {
                    total_staked: (c.total_staked - amount) as u64,
                    ..c
                }) && final(self).bonds@ == old(self).bonds@)
            }),
    {
        let account = self.accounts[account_idx];
        let pool = self.pools[pool_idx];
        let elapsed = match now.checked_sub(account.last_settled_time) {
            Some(e) => e,
            None => {
                return Err(AccessError::Underflow);
            },
        };
        let reward = match calc_reward(
            account.stake_amount,
            pool.total_staked,
            self.central.daily_inflation,
            elapsed,
        ) {
            Ok(x) => x,
            Err(e) => {
                return Err(e);
            },
        };
        if amount > account.stake_amount {
            return Err(AccessError::InsufficientStake);
        }
        proof {
            lemma_sum_stakes_member_bound(
                self.accounts@,
                account_idx as int,
                self.pools@[pool_idx as int].address,
            );
            lemma_sum_pool_totals_member_bound(self.pools@, pool_idx as int);
        }
        let updated_account = StakeAccount {
            stake_amount: account.stake_amount - amount,
            last_settled_time: now,
            ..account
        };
        let updated_pool = StakePool { total_staked: pool.total_staked - amount, ..pool };
        let new_central_total = self.central.total_staked - amount;
        proof {
            let accounts1 = self.accounts@.update(account_idx as int, updated_account);
            assert forall|q: int| 0 <= q < self.pools@.len() implies sum_stakes_for(
                accounts1,
                #[trigger] self.pools@[q].address,
            ) == sum_stakes_for(self.accounts@, self.pools@[q].address) - (if self.pools@[q].address
                == account.stake_pool {
                amount as int
            } else {
                0
            }) by {
                lemma_sum_stakes_update(
                    self.accounts@,
                    account_idx as int,
                    updated_account,
                    self.pools@[q].address,
                );
            }
            lemma_sum_pool_totals_update(self.pools@, pool_idx as int, updated_pool);
            lemma_links_preserved(
                self.pools@,
                self.pools@.update(pool_idx as int, updated_pool),
                self.accounts@,
                accounts1,
            );
        }
        self.accounts.set(account_idx, updated_account);
        self.pools.set(pool_idx, updated_pool);
        self.central.total_staked = new_central_total;
        Ok(reward)
    }

    /// Changes the global daily inflation rate. Only the central state's
    /// authority may do so; anyone else is refused and nothing is changed.
    pub fn change_inflation(&mut self, signer: Addr, daily_inflation: u64) -> (r: Result<
        (),
        AccessError,
    >)
        requires
            old(self).wf(),
        ensures
            final(self).wf(),
            r is Ok <==> signer == old(self).central.authority,
            r is Err ==> r->Err_0 == AccessError::WrongOwner && *final(self) == *old(self),
            r is Ok ==> final(self).central == (CentralState {
                daily_inflation,
                ..old(self).central
            }) && final(self).pools@ == old(self).pools@ && final(self).accounts@ == old(
                self,
            ).accounts@ && final(self).bonds@ == old(self).bonds@,
    {
        if !signer.equals(&self.central.authority) {
            return Err(AccessError::WrongOwner);
        }
        self.central.daily_inflation = daily_inflation;
        Ok(())
    }

    /// Creates a vesting grant of `total_amount` for `owner`, unlocking
    /// linearly over `unlock_period` seconds from `unlock_start` into the
    /// pool at `pool_idx`. Only the pool's owner or the designated seller
    /// may issue a grant. An empty grant or an instantaneous schedule is
    /// malformed and refused. Nothing is changed on failure, and no value
    /// moves at creation: the backing tokens sit with an external escrow
    /// until claimed.
    pub fn create_bond(
        &mut self,
        pool_idx: usize,
        owner: Addr,
        seller: Addr,
        signer: Addr,
        total_amount: u64,
        unlock_start: u64,
        unlock_period: u64,
    ) -> (r: Result<(), AccessError>)
        requires
            old(self).wf(),
            pool_idx < old(self).pools@.len(),
        ensures
            final(self).wf(),
            ({
                let authorized = signer == old(self).pools@[pool_idx as int].owner || signer
                    == seller;
                &&& (r is Ok <==> authorized && total_amount >= 1 && unlock_period >= 1)
                &&& (!authorized ==> r is Err && r->Err_0 == AccessError::WrongOwner)
                &&& (authorized && (total_amount == 0 || unlock_period == 0) ==> r is Err
                    && r->Err_0 == AccessError::DataTypeMismatch)
                &&& (r is Err ==> *final(self) == *old(self))
            }),
            r is Ok ==> final(self).bonds@ == old(self).bonds@.push(
                BondAccount {
                    owner,
                    stake_pool: old(self).pools@[pool_idx as int].address,
                    seller,
                    total_amount,
                    unlock_start,
                    unlock_period,
                    amount_claimed: 0,
                },
            ),
            r is Ok ==> final(self).central == old(self).central && final(self).pools@ == old(
                self,
            ).pools@ && final(self).accounts@ == old(self).accounts@,
    {
        if !signer.equals(&self.pools[pool_idx].owner) && !signer.equals(&seller) {
            return Err(AccessError::WrongOwner);
        }
        if total_amount == 0 || unlock_period == 0 {
            return Err(AccessError::DataTypeMismatch);
        }
        let bond = BondAccount {
            owner,
            stake_pool: self.pools[pool_idx].address,
            seller,
            total_amount,
            unlock_start,
            unlock_period,
            amount_claimed: 0,
        };
        self.bonds.push(bond);
        Ok(())
    }

    /// Claims `requested_amount` out of the grant at `bond_idx`, crediting it
    /// into the stake account at `account_idx` of the pool at `pool_idx`.
    /// A staker without an account yet gets one first through
    /// `create_stake_account`, which is ungated, and then claims into it.
    /// Only the grant's owner may claim, and no more than has vested so far.
    /// The credit bypasses the pool's minimum-entry check entirely, and the
    /// pending reward is settled first. On success the grant's claimed amount
    /// and the three stake counters all grow by `requested_amount`, and the
    /// settled reward is returned. On any failure nothing is changed.
    pub fn claim_bond(
        &mut self,
        bond_idx: usize,
        pool_idx: usize,
        account_idx: usize,
        signer: Addr,
        requested_amount: u64,
        now: u64,
    ) -> (r: Result<u64, AccessError>)
        requires
            old(self).wf(),
            bond_idx < old(self).bonds@.len(),
            pool_idx < old(self).pools@.len(),
            account_idx < old(self).accounts@.len(),
            old(self).accounts@[account_idx as int].stake_pool == old(
                self,
            ).pools@[pool_idx as int].address,
            old(self).bonds@[bond_idx as int].stake_pool == old(
                self,
            ).pools@[pool_idx as int].address,
            old(self).accounts@[account_idx as int].owner == old(
                self,
            ).bonds@[bond_idx as int].owner,
        ensures
            final(self).wf(),
            ({
                let b = old(self).bonds@[bond_idx as int];
                let a = old(self).accounts@[account_idx as int];
                let p = old(self).pools@[pool_idx as int];
                let c = old(self).central;
                let overflows = spec_reward_overflows(
                    a.stake_amount as int,
                    p.total_staked as int,
                    c.daily_inflation as int,
                    now - a.last_settled_time,
                );
                &&& (r is Ok <==> signer == b.owner && now >= a.last_settled_time && !overflows
                    && requested_amount <= spec_claimable(b, now as int) && c.total_staked
                    + requested_amount <= u64::MAX)
                &&& (signer != b.owner ==> r is Err && r->Err_0 == AccessError::WrongOwner)
                &&& (signer == b.owner && now < a.last_settled_time ==> r is Err && r->Err_0
                    == AccessError::Underflow)
                &&& (signer == b.owner && now >= a.last_settled_time && overflows ==> r is Err
                    && r->Err_0 == AccessError::Overflow)
                &&& (signer == b.owner && now >= a.last_settled_time && !overflows
                    && requested_amount > spec_claimable(b, now as int) ==> r is Err && r->Err_0
                    == AccessError::InsufficientVestedAmount)
                &&& (signer == b.owner && now >= a.last_settled_time && !overflows
                    && requested_amount <= spec_claimable(b, now as int) && c.total_staked
                    + requested_amount > u64::MAX ==> r is Err && r->Err_0
                    == AccessError::Overflow)
                &&& (r is Err ==> *final(self) == *old(self))
                &&& (r is Ok ==> r->Ok_0 == spec_reward(
                    a.stake_amount as int,
                    p.total_staked as int,
                    c.daily_inflation as int,
                    now - a.last_settled_time,
                ))
                &&& (r is Ok ==> final(self).bonds@ == old(self).bonds@.update(
                    bond_idx as int,
                    BondAccount { amount_claimed: (b.amount_claimed + requested_amount) as u64, ..b },
                ))
                &&& (r is Ok ==> final(self).accounts@ == old(self).accounts@.update(
                    account_idx as int,
                    StakeAccount {
                        stake_amount: (a.stake_amount + requested_amount) as u64,
                        last_settled_time: now,
                        ..a
                    },
                ))
                &&& (r is Ok ==> final(self).pools@ == old(self).pools@.update(
                    pool_idx as int,
                    StakePool { total_staked: (p.total_staked + requested_amount) as u64, ..p },
                ))
                &&& (r is Ok ==> final(self).central == (CentralState {
                    total_staked: (c.total_staked + requested_amount) as u64,
                    ..c
                }))
            }),
    {
        let bond = self.bonds[bond_idx];
        let account = self.accounts[account_idx];
        let pool = self.pools[pool_idx];
        if !signer.equals(&bond.owner) {
            return Err(AccessError::WrongOwner);
        }
        let elapsed = match now.checked_sub(account.last_settled_time) {
            Some(e) => e,
            None => {
                return Err(AccessError::Underflow);
            },
        };
        let reward = match calc_reward(
            account.stake_amount,
            pool.total_staked,
            self.central.daily_inflation,
            elapsed,
        ) {
            Ok(x) => x,
            Err(e) => {
                return Err(e);
            },
        };
        let vested: u64 = if now <= bond.unlock_start {
            0
        } else {
            let bond_elapsed = now - bond.unlock_start;
            if bond_elapsed >= bond.unlock_period {
                bond.total_amount
            } else {
                proof {
                    let t = bond.total_amount as int;
                    let e = bond_elapsed as int;
                    let per = bond.unlock_period as int;
                    assert(t * e <= t * per) by (nonlinear_arith)
                        requires
                            0 <= t,
                            0 <= e <= per,
                    {
                    }
                    vstd::arithmetic::div_mod::lemma_div_is_ordered(t * e, t * per, per);
                    vstd::arithmetic::div_mod::lemma_div_multiples_vanish(t, per);
                    assert((bond.total_amount as u128) * (bond_elapsed as u128)
                        <= u128::MAX) by (nonlinear_arith)
                        requires
                            bond.total_amount <= u64::MAX,
                            bond_elapsed <= u64::MAX,
                    {
                    }
                }
                (((bond.total_amount as u128) * (bond_elapsed as u128)) / (
                bond.unlock_period as u128)) as u64
            }
        };
        proof {
            assert(vested as int == spec_vested(
                bond.total_amount as int,
                bond.unlock_start as int,
                bond.unlock_period as int,
                now as int,
            ));
        }
        let claimable: u64 = match vested.checked_sub(bond.amount_claimed) {
            Some(c) => c,
            None => 0,
        };
        if requested_amount > claimable {
            return Err(AccessError::InsufficientVestedAmount);
        }
        let new_central_total = match self.central.total_staked.checked_add(requested_amount) {
            Some(v) => v,
            None => {
                return Err(AccessError::Overflow);
            },
        };
        proof {
            lemma_sum_stakes_member_bound(
                self.accounts@,
                account_idx as int,
                self.pools@[pool_idx as int].address,
            );
            lemma_sum_pool_totals_member_bound(self.pools@, pool_idx as int);
        }
        let updated_bond = BondAccount {
            amount_claimed: bond.amount_claimed + requested_amount,
            ..bond
        };
        let updated_account = StakeAccount {
            stake_amount: account.stake_amount + requested_amount,
            last_settled_time: now,
            ..account
        };
        let updated_pool = StakePool { total_staked: pool.total_staked + requested_amount, ..pool };
        proof {
            let accounts1 = self.accounts@.update(account_idx as int, updated_account);
            assert forall|q: int| 0 <= q < self.pools@.len() implies sum_stakes_for(
                accounts1,
                #[trigger] self.pools@[q].address,
            ) == sum_stakes_for(self.accounts@, self.pools@[q].address) + (if self.pools@[q].address
                == account.stake_pool {
                requested_amount as int
            } else {
                0
            }) by {
                lemma_sum_stakes_update(
                    self.accounts@,
                    account_idx as int,
                    updated_account,
                    self.pools@[q].address,
                );
            }
            lemma_sum_pool_totals_update(self.pools@, pool_idx as int, updated_pool);
            lemma_links_preserved(
                self.pools@,
                self.pools@.update(pool_idx as int, updated_pool),
                self.accounts@,
                accounts1,
            );
        }
        self.bonds.set(bond_idx, updated_bond);
        self.accounts.set(account_idx, updated_account);
        self.pools.set(pool_idx, updated_pool);
        self.central.total_staked = new_central_total;
        Ok(reward)
    }
}

/// Re-establishes that every account names an existing pool, after a step
/// that moved no account to another pool and no pool to another address.
proof fn lemma_links_preserved(
    pools0: Seq<StakePool>,
    pools1: Seq<StakePool>,
    accounts0: Seq<StakeAccount>,
    accounts1: Seq<StakeAccount>,
)
    requires
        pools1.len() == pools0.len(),
        forall|p: int| 0 <= p < pools0.len() ==> pools1[p].address == pools0[p].address,
        accounts1.len() == accounts0.len(),
        forall|a: int| 0 <= a < accounts0.len() ==> accounts1[a].stake_pool
            == accounts0[a].stake_pool,
        forall|a: int|
            0 <= a < accounts0.len() ==> pool_exists_for(
                pools0,
                #[trigger] accounts0[a].stake_pool,
            ),
    ensures
        forall|a: int|
            0 <= a < accounts1.len() ==> pool_exists_for(
                pools1,
                #[trigger] accounts1[a].stake_pool,
            ),
{
    assert forall|a: int| 0 <= a < accounts1.len() implies pool_exists_for(
        pools1,
        #[trigger] accounts1[a].stake_pool,
    ) by {
        assert(pool_exists_for(pools0, accounts0[a].stake_pool));
        let p = choose|p: int|
            0 <= p < pools0.len() && pools0[p].address == accounts0[a].stake_pool;
        assert(pools1[p].address == accounts1[a].stake_pool);
    }
}

/// Appending an account adds exactly its contribution to a pool's sum.
proof fn lemma_sum_stakes_push(accounts: Seq<StakeAccount>, a: StakeAccount, pool: Addr)
    ensures
        sum_stakes_for(accounts.push(a), pool) == sum_stakes_for(accounts, pool) + if a.stake_pool
            == pool {
            a.stake_amount as int
        } else {
            0
        },
{
    assert(accounts.push(a).drop_last() =~= accounts);
}

/// Updating one account shifts a pool's sum by the change in that account's
/// contribution.
proof fn lemma_sum_stakes_update(
    accounts: Seq<StakeAccount>,
    i: int,
    a: StakeAccount,
    pool: Addr,
)
    requires
        0 <= i < accounts.len(),
    ensures
        sum_stakes_for(accounts.update(i, a), pool) == sum_stakes_for(accounts, pool) - (if
        accounts[i].stake_pool == pool {
            accounts[i].stake_amount as int
        } else {
            0
        }) + (if a.stake_pool == pool {
            a.stake_amount as int
        } else {
            0
        }),
    decreases accounts.len(),
{
    if i == accounts.len() - 1 {
        assert(accounts.update(i, a).drop_last() =~= accounts.drop_last());
        assert(accounts.update(i, a).last() == a);
    } else {
        assert(accounts.update(i, a).drop_last() =~= accounts.drop_last().update(i, a));
        assert(accounts.update(i, a).last() == accounts.last());
        lemma_sum_stakes_update(accounts.drop_last(), i, a, pool);
    }
}

/// A pool's sum is zero when no account names the pool.
proof fn lemma_sum_stakes_absent(accounts: Seq<StakeAccount>, pool: Addr)
    requires
        forall|k: int| 0 <= k < accounts.len() ==> accounts[k].stake_pool != pool,
    ensures
        sum_stakes_for(accounts, pool) == 0,
    decreases accounts.len(),
{
    if accounts.len() > 0 {
        lemma_sum_stakes_absent(accounts.drop_last(), pool);
    }
}

/// A member account's balance never exceeds its pool's sum, and the sum is
/// never negative.
proof fn lemma_sum_stakes_member_bound(accounts: Seq<StakeAccount>, i: int, pool: Addr)
    requires
        0 <= i < accounts.len(),
        accounts[i].stake_pool == pool,
    ensures
        accounts[i].stake_amount as int <= sum_stakes_for(accounts, pool),
    decreases accounts.len(),
{
    lemma_sum_stakes_nonneg(accounts, pool);
    if i == accounts.len() - 1 {
        lemma_sum_stakes_nonneg(accounts.drop_last(), pool);
    } else {
        lemma_sum_stakes_member_bound(accounts.drop_last(), i, pool);
    }
}

/// A pool's sum of balances is never negative.
proof fn lemma_sum_stakes_nonneg(accounts: Seq<StakeAccount>, pool: Addr)
    ensures
        sum_stakes_for(accounts, pool) >= 0,
    decreases accounts.len(),
{
    if accounts.len() > 0 {
        lemma_sum_stakes_nonneg(accounts.drop_last(), pool);
    }
}

/// Appending a pool adds exactly its total to the aggregate.
proof fn lemma_sum_pool_totals_push(pools: Seq<StakePool>, p: StakePool)
    ensures
        sum_pool_totals(pools.push(p)) == sum_pool_totals(pools) + p.total_staked as int,
{
    assert(pools.push(p).drop_last() =~= pools);
}

/// Updating one pool shifts the aggregate by the change in that pool's total.
proof fn lemma_sum_pool_totals_update(pools: Seq<StakePool>, i: int, p: StakePool)
    requires
        0 <= i < pools.len(),
    ensures
        sum_pool_totals(pools.update(i, p)) == sum_pool_totals(pools) - pools[i].total_staked as int
            + p.total_staked as int,
    decreases pools.len(),
{
    if i == pools.len() - 1 {
        assert(pools.update(i, p).drop_last() =~= pools.drop_last());
    } else {
        assert(pools.update(i, p).drop_last() =~= pools.drop_last().update(i, p));
        lemma_sum_pool_totals_update(pools.drop_last(), i, p);
    }
}

/// A member pool's total never exceeds the aggregate.
proof fn lemma_sum_pool_totals_member_bound(pools: Seq<StakePool>, i: int)
    requires
        0 <= i < pools.len(),
    ensures
        pools[i].total_staked as int <= sum_pool_totals(pools),
    decreases pools.len(),
{
    lemma_sum_pool_totals_nonneg(pools);
    if i == pools.len() - 1 {
        lemma_sum_pool_totals_nonneg(pools.drop_last());
    } else {
        lemma_sum_pool_totals_member_bound(pools.drop_last(), i);
    }
}

/// The aggregate of pool totals is never negative.
proof fn lemma_sum_pool_totals_nonneg(pools: Seq<StakePool>)
    ensures
        sum_pool_totals(pools) >= 0,
    decreases pools.len(),
{
    if pools.len() > 0 {
        lemma_sum_pool_totals_nonneg(pools.drop_last());
    }
}

} // verus!
