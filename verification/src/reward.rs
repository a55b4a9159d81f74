//! Reward settlement arithmetic.
//!
//! A stake position accrues a time-proportional share of the global daily
//! inflation. All arithmetic is integer arithmetic that rounds down, so the
//! ledger can never issue more than the configured inflation.

use vstd::prelude::*;

use crate::error::AccessError;

verus! {

/// Seconds in one day, the unit of the inflation rate.
pub const SECONDS_PER_DAY: u64 = 86400;

/// The reward owed to a position of size `stake` in a pool holding `total`,
/// under `inflation` tokens per day, over `elapsed` seconds: the position's
/// share of the inflation, pro-rated by time, rounded down. An empty pool
/// accrues nothing.
pub open spec fn spec_reward(stake: int, total: int, inflation: int, elapsed: int) -> int {
    if total == 0 {
        0
    } else {
        (stake * inflation * elapsed) / (total * 86400)
    }
}

/// Whether computing the reward must be refused: the three-way product no
/// longer fits the working precision, or the quotient no longer fits a
/// counter.
pub open spec fn spec_reward_overflows(stake: int, total: int, inflation: int, elapsed: int) -> bool {
    total != 0 && (stake * inflation * elapsed > u128::MAX
        || spec_reward(stake, total, inflation, elapsed) > u64::MAX)
}

/// Computes the reward accrued by a stake position over `elapsed` seconds.
///
/// Returns the exact rounded-down share, or `Overflow` when the computation
/// leaves the representable range; nothing is ever wrapped or truncated.
pub fn calc_reward(stake: u64, total: u64, inflation: u64, elapsed: u64) -> (r: Result<
    u64,
    AccessError,
>)
    ensures
        r is Ok <==> !spec_reward_overflows(stake as int, total as int, inflation as int, elapsed as int),
        r is Ok ==> r->Ok_0 == spec_reward(stake as int, total as int, inflation as int, elapsed as int),
        r is Err ==> r->Err_0 == AccessError::Overflow,
{
    if total == 0 {
        return Ok(0);
    }
    let wide_stake: u128 = stake as u128;
    let wide_inflation: u128 = inflation as u128;
    proof {
        assert(wide_stake * wide_inflation <= u128::MAX) by (nonlinear_arith)
            requires
                wide_stake <= u64::MAX,
                wide_inflation <= u64::MAX,
        {
        }
    }
    let pair: u128 = wide_stake * wide_inflation;
    let numerator: u128 = match pair.checked_mul(elapsed as u128) {
        Some(n) => n,
        None => {
            proof {
                assert(pair * (elapsed as u128) == stake as int * inflation as int * elapsed as int);
            }
            return Err(AccessError::Overflow);
        },
    };
    let wide_total: u128 = total as u128;
    proof {
        assert(wide_total * 86400 <= u128::MAX && wide_total * 86400 > 0) by (nonlinear_arith)
            requires
                0 < wide_total <= u64::MAX,
        {
        }
    }
    let denominator: u128 = wide_total * (SECONDS_PER_DAY as u128);
    let quotient: u128 = numerator / denominator;
    if quotient > u64::MAX as u128 {
        Err(AccessError::Overflow)
    } else {
        Ok(quotient as u64)
    }
}

/// Settling over zero elapsed time yields zero reward and can never be
/// refused: a second settlement at the same instant is a no-op.
pub proof fn lemma_settle_idempotent(stake: int, total: int, inflation: int)
    ensures
        spec_reward(stake, total, inflation, 0) == 0,
        !spec_reward_overflows(stake, total, inflation, 0),
{
    if total != 0 {
        assert(stake * inflation * 0 == 0) by (nonlinear_arith);
        assert(total * 86400 != 0) by (nonlinear_arith)
            requires
                total != 0,
        {
        }
    }
}

} // verus!
