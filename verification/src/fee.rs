//! Protocol-fee skimming: minting liquidity tokens to the fee recipient in
//! proportion to reserve growth since the last checkpoint.
//!
//! Growth is measured on the geometric mean of the reserves: with
//! `rootK = isqrt(reserve0 * reserve1)` and `rootKLast = isqrt(kLast)`, the
//! skim grants the protocol `supply * (rootK - rootKLast)` out of
//! `5 * rootK + rootKLast` — about one sixth of the liquidity growth
//! attributable to trading fees — and nothing when there is no checkpoint
//! yet or the reserves did not grow.

use vstd::prelude::*;
use crate::math::{
    isqrt, isqrt_u128, lemma_div_at_most, lemma_div_bounds, lemma_isqrt_below_square,
    lemma_isqrt_is_isqrt, lemma_u64_mul_fits,
};
use crate::state::pool::Pool;

verus! {

/// The liquidity owed to the protocol for reserve growth since the last
/// checkpoint: zero without a checkpoint or without net growth, otherwise
/// `supply * (rootK - rootKLast) / (5 * rootK + rootKLast)`, rounded down.
pub open spec fn fee_liquidity(k_last: int, reserve0: int, reserve1: int, supply: int) -> int {
    if k_last == 0 {
        0
    } else {
        let root_k = isqrt(reserve0 * reserve1);
        let root_k_last = isqrt(k_last);
        if root_k <= root_k_last {
            0
        } else {
            supply * (root_k - root_k_last) / (5 * root_k + root_k_last)
        }
    }
}

/// Computes the protocol-fee liquidity due before a liquidity-changing
/// operation, from the reserves and supply as they stood immediately before
/// it. A zero result means no skim is due; a positive result is an
/// instruction to mint that much liquidity to the fee recipient, after
/// which the supply observed by the operation is larger by the result.
pub fn mint_fee(pool: &Pool, lp_supply: u64) -> (r: u64)
    ensures
        r as int == fee_liquidity(
            pool.k_last as int,
            pool.reserve0 as int,
            pool.reserve1 as int,
            lp_supply as int,
        ),
        r <= lp_supply,
{
    if pool.k_last == 0 {
        return 0;
    }
    proof {
        lemma_u64_mul_fits(pool.reserve0, pool.reserve1);
    }
    let k = (pool.reserve0 as u128) * (pool.reserve1 as u128);
    let root_k = isqrt_u128(k);
    let root_k_last = isqrt_u128(pool.k_last);
    if root_k <= root_k_last {
        return 0;
    }
    proof {
        let two64: int = 0x10000000000000000;
        assert((u64::MAX as int) * (u64::MAX as int) < two64 * two64) by (nonlinear_arith)
            requires two64 == 0x10000000000000000;
        lemma_isqrt_below_square(k as int, two64);
        assert((u128::MAX as int) < two64 * two64) by (nonlinear_arith)
            requires two64 == 0x10000000000000000;
        lemma_isqrt_below_square(pool.k_last as int, two64);
        assert((lp_supply as int) * ((root_k as int) - (root_k_last as int)) <= u128::MAX as int)
            by (nonlinear_arith)
            requires
                (lp_supply as int) < 0x10000000000000000,
                0 <= (root_k_last as int),
                (root_k_last as int) < (root_k as int),
                (root_k as int) < 0x10000000000000000,
                u128::MAX as int == 0xffffffffffffffffffffffffffffffff;
    }
    let numerator = (lp_supply as u128) * (root_k - root_k_last);
    let denominator = root_k * 5 + root_k_last;
    proof {
        assert((numerator as int) <= (lp_supply as int) * (denominator as int)) by (nonlinear_arith)
            requires
                (numerator as int) == (lp_supply as int) * ((root_k as int) - (root_k_last as int)),
                (denominator as int) == (root_k as int) * 5 + (root_k_last as int),
                (root_k_last as int) < (root_k as int),
                0 <= (lp_supply as int);
        lemma_div_at_most(numerator as int, denominator as int, lp_supply as int);
        lemma_div_bounds(numerator as int, denominator as int);
    }
    let liquidity = numerator / denominator;
    liquidity as u64
}

/// The protocol-fee skim is a no-op whenever there is no checkpoint yet or
/// the reserve product did not grow past it; in particular whenever the
/// reserves still multiply out to the checkpointed product.
pub proof fn lemma_mint_fee_noop(k_last: int, reserve0: int, reserve1: int, supply: int)
    requires
        0 <= reserve0,
        0 <= reserve1,
        k_last == 0 || (0 <= k_last && isqrt(reserve0 * reserve1) <= isqrt(k_last)),
    ensures
        fee_liquidity(k_last, reserve0, reserve1, supply) == 0,
{
}

/// The skim never mints on unchanged reserves: with the checkpoint equal to
/// the current reserve product, no fee is due.
pub proof fn lemma_mint_fee_noop_at_checkpoint(reserve0: int, reserve1: int, supply: int)
    requires
        0 <= reserve0,
        0 <= reserve1,
    ensures
        fee_liquidity(reserve0 * reserve1, reserve0, reserve1, supply) == 0,
{
    assert(0 <= reserve0 * reserve1) by (nonlinear_arith)
        requires 0 <= reserve0 && 0 <= reserve1;
    lemma_isqrt_is_isqrt(reserve0 * reserve1);
}

} // verus!
