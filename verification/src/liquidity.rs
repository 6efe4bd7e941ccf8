//! Deposit and redemption arithmetic: matching a deposit to the reserve
//! ratio, issuing liquidity tokens for it, and paying reserves back out for
//! burned liquidity.
//!
//! All products are taken in a widened 128-bit domain before narrowing back
//! to 64 bits, and every narrowing is proved to fit.

use vstd::prelude::*;
use crate::error::ErrorCode;
use crate::fee::{fee_liquidity, lemma_mint_fee_noop_at_checkpoint, mint_fee};
use crate::state::pool::Pool;
use crate::math::{
    is_isqrt, isqrt, isqrt_u128, lemma_div_at_most, lemma_div_below, lemma_div_bounds,
    lemma_isqrt_below_square, lemma_isqrt_is_isqrt, lemma_u64_mul_fits,
};
use vstd::arithmetic::div_mod::lemma_div_multiples_vanish;
use vstd::arithmetic::mul::lemma_mul_is_commutative;

verus! {

/// The amount of the other asset equivalent in value to `amount0`, at the
/// price set by the reserves: `amount0 * reserve1 / reserve0`, rounded down.
pub open spec fn quote_spec(amount0: int, reserve0: int, reserve1: int) -> int {
    amount0 * reserve1 / reserve0
}

/// The deposit actually made for a request, preserving the reserve ratio
/// once the pool is non-empty, or the reason the request is rejected.
///
/// An empty pool takes the desired amounts as they are: the first depositor
/// sets the price. Otherwise the desired first amount is quoted into the
/// second; if the quote overshoots the desired second amount, the second is
/// quoted into the first instead, and the result is checked against the
/// caller's bounds.
pub open spec fn deposit_amounts(
    reserve0: int,
    reserve1: int,
    amount0_desired: int,
    amount1_desired: int,
    amount0_min: int,
    amount1_min: int,
) -> Result<(int, int), ErrorCode> {
    if reserve0 == 0 && reserve1 == 0 {
        Ok((amount0_desired, amount1_desired))
    } else if amount0_desired == 0 {
        Err(ErrorCode::InsufficientAmount)
    } else if reserve0 == 0 || reserve1 == 0 {
        Err(ErrorCode::InsufficientReserves)
    } else {
        let amount1_optimal = quote_spec(amount0_desired, reserve0, reserve1);
        if amount1_optimal <= amount1_desired {
            if amount1_optimal >= amount1_min {
                Ok((amount0_desired, amount1_optimal))
            } else {
                Err(ErrorCode::InsufficientAmount)
            }
        } else if amount1_desired == 0 {
            Err(ErrorCode::InsufficientAmount)
        } else {
            let amount0_optimal = quote_spec(amount1_desired, reserve1, reserve0);
            if amount0_optimal > amount0_desired {
                Err(ErrorCode::InsufficientAmount)
            } else if amount0_optimal < amount0_min {
                Err(ErrorCode::InsufficientAmount)
            } else {
                Ok((amount0_optimal, amount1_desired))
            }
        }
    }
}

/// The liquidity issued for a deposit: the rounded-down square root of the
/// deposit product for the first deposit, and otherwise the smaller of the
/// two relative contributions `amount * supply / reserve`, rounded down.
pub open spec fn issued_liquidity(
    amount0: int,
    amount1: int,
    reserve0: int,
    reserve1: int,
    current_supply: int,
) -> int {
    if current_supply == 0 {
        isqrt(amount0 * amount1)
    } else {
        vstd::math::min(
            amount0 * current_supply / reserve0,
            amount1 * current_supply / reserve1,
        )
    }
}

/// Quotes `amount0` of the first asset into the other, rejecting a zero
/// amount and empty reserves. The quoted value must fit the 64-bit amount
/// width; a wider true value is a fatal precondition violation.
pub fn quote(amount0: u64, reserve0: u64, reserve1: u64) -> (r: Result<u64, ErrorCode>)
    requires
        amount0 > 0 && reserve0 > 0 && reserve1 > 0 ==> quote_spec(
            amount0 as int,
            reserve0 as int,
            reserve1 as int,
        ) <= u64::MAX as int,
    ensures
        amount0 == 0 ==> r == Err::<u64, ErrorCode>(ErrorCode::InsufficientAmount),
        amount0 > 0 && (reserve0 == 0 || reserve1 == 0) ==> r == Err::<u64, ErrorCode>(
            ErrorCode::InsufficientReserves,
        ),
        amount0 > 0 && reserve0 > 0 && reserve1 > 0 ==> r == Ok::<u64, ErrorCode>(
            quote_spec(amount0 as int, reserve0 as int, reserve1 as int) as u64,
        ),
{
    if amount0 == 0 {
        return Err(ErrorCode::InsufficientAmount);
    }
    if reserve0 == 0 || reserve1 == 0 {
        return Err(ErrorCode::InsufficientReserves);
    }
    proof {
        lemma_u64_mul_fits(amount0, reserve1);
        lemma_div_bounds(amount0 as int * reserve1 as int, reserve0 as int);
    }
    let q = (amount0 as u128) * (reserve1 as u128) / (reserve0 as u128);
    Ok(q as u64)
}

/// Picks the deposit amounts for a request against the current reserves, as
/// `deposit_amounts` describes. Comparisons happen in the widened domain, so
/// no precondition is needed: an accepted amount is bounded by a desired
/// amount and fits the 64-bit width.
pub fn calculate_liquidity_amounts(
    reserve0: u64,
    reserve1: u64,
    amount0_desired: u64,
    amount1_desired: u64,
    amount0_min: u64,
    amount1_min: u64,
) -> (r: Result<(u64, u64), ErrorCode>)
    ensures
        match r {
            Ok(p) => deposit_amounts(
                reserve0 as int,
                reserve1 as int,
                amount0_desired as int,
                amount1_desired as int,
                amount0_min as int,
                amount1_min as int,
            ) == Ok::<(int, int), ErrorCode>((p.0 as int, p.1 as int)),
            Err(e) => deposit_amounts(
                reserve0 as int,
                reserve1 as int,
                amount0_desired as int,
                amount1_desired as int,
                amount0_min as int,
                amount1_min as int,
            ) == Err::<(int, int), ErrorCode>(e),
        },
{
    if reserve0 == 0 && reserve1 == 0 {
        return Ok((amount0_desired, amount1_desired));
    }
    if amount0_desired == 0 {
        return Err(ErrorCode::InsufficientAmount);
    }
    if reserve0 == 0 || reserve1 == 0 {
        return Err(ErrorCode::InsufficientReserves);
    }
    proof {
        lemma_u64_mul_fits(amount0_desired, reserve1);
        lemma_div_bounds(amount0_desired as int * reserve1 as int, reserve0 as int);
    }
    let amount1_optimal = (amount0_desired as u128) * (reserve1 as u128) / (reserve0 as u128);
    if amount1_optimal <= amount1_desired as u128 {
        if amount1_optimal >= amount1_min as u128 {
            Ok((amount0_desired, amount1_optimal as u64))
        } else {
            Err(ErrorCode::InsufficientAmount)
        }
    } else if amount1_desired == 0 {
        Err(ErrorCode::InsufficientAmount)
    } else {
        proof {
            lemma_u64_mul_fits(amount1_desired, reserve0);
            lemma_div_bounds(amount1_desired as int * reserve0 as int, reserve1 as int);
        }
        let amount0_optimal = (amount1_desired as u128) * (reserve0 as u128) / (reserve1 as u128);
        if amount0_optimal > amount0_desired as u128 {
            Err(ErrorCode::InsufficientAmount)
        } else if amount0_optimal < amount0_min as u128 {
            Err(ErrorCode::InsufficientAmount)
        } else {
            Ok((amount0_optimal as u64, amount1_desired))
        }
    }
}

/// Issues liquidity for a validated deposit, as `issued_liquidity`
/// describes, rejecting a deposit that would be credited nothing. A pool
/// backing an outstanding supply has positive reserves, and the issued
/// amount must fit the 64-bit width; both are preconditions.
pub fn compute_issued_liquidity(
    amount0: u64,
    amount1: u64,
    reserve0: u64,
    reserve1: u64,
    current_supply: u64,
) -> (r: Result<u64, ErrorCode>)
    requires
        current_supply > 0 ==> reserve0 > 0 && reserve1 > 0,
        current_supply > 0 ==> issued_liquidity(
            amount0 as int,
            amount1 as int,
            reserve0 as int,
            reserve1 as int,
            current_supply as int,
        ) <= u64::MAX as int,
    ensures
        match r {
            Ok(l) => l > 0 && l as int == issued_liquidity(
                amount0 as int,
                amount1 as int,
                reserve0 as int,
                reserve1 as int,
                current_supply as int,
            ),
            Err(e) => e == ErrorCode::InsufficientLiquidityMinted && issued_liquidity(
                amount0 as int,
                amount1 as int,
                reserve0 as int,
                reserve1 as int,
                current_supply as int,
            ) == 0,
        },
{
    let liquidity: u128;
    if current_supply == 0 {
        proof {
            lemma_u64_mul_fits(amount0, amount1);
            assert((u64::MAX as int) * (u64::MAX as int) < 0x10000000000000000 * 0x10000000000000000)
                by (nonlinear_arith);
            lemma_isqrt_below_square(amount0 as int * amount1 as int, 0x10000000000000000);
        }
        liquidity = isqrt_u128((amount0 as u128) * (amount1 as u128));
    } else {
        proof {
            lemma_u64_mul_fits(amount0, current_supply);
            lemma_u64_mul_fits(amount1, current_supply);
            lemma_div_bounds(amount0 as int * current_supply as int, reserve0 as int);
            lemma_div_bounds(amount1 as int * current_supply as int, reserve1 as int);
        }
        let liquidity0 = (amount0 as u128) * (current_supply as u128) / (reserve0 as u128);
        let liquidity1 = (amount1 as u128) * (current_supply as u128) / (reserve1 as u128);
        liquidity = if liquidity0 <= liquidity1 { liquidity0 } else { liquidity1 };
    }
    if liquidity == 0 {
        return Err(ErrorCode::InsufficientLiquidityMinted);
    }
    Ok(liquidity as u64)
}

/// The reserves paid out for burned liquidity, as a rounded-down
/// proportional share of each reserve, or the reason the redemption is
/// rejected. Burning at most the whole supply pays out at most the whole
/// reserves, so both amounts fit the reserve width.
pub fn calculate_removed_amounts(
    liquidity: u64,
    lp_supply: u64,
    reserve0: u64,
    reserve1: u64,
    amount0_min: u64,
    amount1_min: u64,
) -> (r: Result<(u64, u64), ErrorCode>)
    requires
        lp_supply > 0,
        liquidity <= lp_supply,
    ensures
        ({
            let amount0 = liquidity as int * reserve0 as int / lp_supply as int;
            let amount1 = liquidity as int * reserve1 as int / lp_supply as int;
            if amount0 < amount0_min as int || amount1 < amount1_min as int {
                r == Err::<(u64, u64), ErrorCode>(ErrorCode::InsufficientAmount)
            } else if amount0 == 0 || amount1 == 0 {
                r == Err::<(u64, u64), ErrorCode>(ErrorCode::InsufficientLiquidityBurned)
            } else {
                r == Ok::<(u64, u64), ErrorCode>((amount0 as u64, amount1 as u64))
            }
        }),
{
    proof {
        lemma_u64_mul_fits(liquidity, reserve0);
        lemma_u64_mul_fits(liquidity, reserve1);
        lemma_share_of_reserve_fits(liquidity as int, lp_supply as int, reserve0 as int);
        lemma_share_of_reserve_fits(liquidity as int, lp_supply as int, reserve1 as int);
    }
    let amount0 = (liquidity as u128) * (reserve0 as u128) / (lp_supply as u128);
    let amount1 = (liquidity as u128) * (reserve1 as u128) / (lp_supply as u128);
    if amount0 < amount0_min as u128 || amount1 < amount1_min as u128 {
        return Err(ErrorCode::InsufficientAmount);
    }
    if amount0 == 0 || amount1 == 0 {
        return Err(ErrorCode::InsufficientLiquidityBurned);
    }
    Ok((amount0 as u64, amount1 as u64))
}

/// Burning a share of the supply pays out at most the matching reserve:
/// `liquidity * reserve / supply <= reserve` when `liquidity <= supply`.
pub proof fn lemma_share_of_reserve_fits(liquidity: int, supply: int, reserve: int)
    requires
        0 < supply,
        0 <= liquidity <= supply,
        0 <= reserve,
    ensures
        0 <= liquidity * reserve / supply <= reserve,
{
    assert(liquidity * reserve <= reserve * supply) by (nonlinear_arith)
        requires 0 <= liquidity <= supply && 0 <= reserve;
    assert(0 <= liquidity * reserve) by (nonlinear_arith)
        requires 0 <= liquidity && 0 <= reserve;
    lemma_div_bounds(liquidity * reserve, supply);
    lemma_div_at_most(liquidity * reserve, supply, reserve);
}

/// The ledger instructions of an accepted deposit: mint `fee_liquidity` to
/// the fee recipient, mint `liquidity` to the depositor, and move `amount0`
/// and `amount1` from the depositor into the reserves.
#[derive(Clone, Copy, Debug, PartialEq, Eq, Structural)]
pub struct AddLiquidityResult {
    /// Liquidity minted to the protocol-fee recipient before the deposit.
    pub fee_liquidity: u64,
    /// Liquidity minted to the depositor.
    pub liquidity: u64,
    /// First-asset amount the depositor moves into the pool.
    pub amount0: u64,
    /// Second-asset amount the depositor moves into the pool.
    pub amount1: u64,
}

/// The ledger instructions of an accepted redemption: mint `fee_liquidity`
/// to the fee recipient, burn the redeemed liquidity, and pay `amount0` and
/// `amount1` out of the reserves.
#[derive(Clone, Copy, Debug, PartialEq, Eq, Structural)]
pub struct RemoveLiquidityResult {
    /// Liquidity minted to the protocol-fee recipient before the redemption.
    pub fee_liquidity: u64,
    /// First-asset amount paid out of the pool.
    pub amount0: u64,
    /// Second-asset amount paid out of the pool.
    pub amount1: u64,
}

/// The widened intermediate values of a deposit stay inside the 64-bit
/// widths that the pool record and the ledger carry: grown reserves, the
/// supply after the protocol-fee skim, and the issued liquidity all fit.
pub open spec fn add_liquidity_fits(
    pool: Pool,
    lp_supply: int,
    amount0_desired: int,
    amount1_desired: int,
    amount0_min: int,
    amount1_min: int,
) -> bool {
    match deposit_amounts(
        pool.reserve0 as int,
        pool.reserve1 as int,
        amount0_desired,
        amount1_desired,
        amount0_min,
        amount1_min,
    ) {
        Ok(p) => {
            let skimmed = fee_liquidity(
                pool.k_last as int,
                pool.reserve0 as int,
                pool.reserve1 as int,
                lp_supply,
            );
            let new_supply = lp_supply + skimmed;
            &&& pool.reserve0 as int + p.0 <= u64::MAX as int
            &&& pool.reserve1 as int + p.1 <= u64::MAX as int
            &&& new_supply <= u64::MAX as int
            &&& (new_supply > 0 ==> issued_liquidity(
                p.0,
                p.1,
                pool.reserve0 as int,
                pool.reserve1 as int,
                new_supply,
            ) <= u64::MAX as int)
        },
        Err(_) => true,
    }
}

/// Runs a whole deposit against the pool snapshot: skims the protocol fee,
/// matches the deposit to the reserve ratio, issues liquidity against the
/// post-skim supply, grows the reserves and re-checkpoints the product.
/// On any rejection the pool is left untouched and nothing is to be minted
/// or transferred. The supply is the external liquidity-token supply as it
/// stood before the call; a pool backing an outstanding supply has positive
/// reserves.
pub fn add_liquidity(
    pool: &mut Pool,
    lp_supply: u64,
    amount0_desired: u64,
    amount1_desired: u64,
    amount0_min: u64,
    amount1_min: u64,
) -> (r: Result<AddLiquidityResult, ErrorCode>)
    requires
        lp_supply > 0 ==> old(pool).reserve0 > 0 && old(pool).reserve1 > 0,
        add_liquidity_fits(
            *old(pool),
            lp_supply as int,
            amount0_desired as int,
            amount1_desired as int,
            amount0_min as int,
            amount1_min as int,
        ),
    ensures
        ({
            let deposited = deposit_amounts(
                old(pool).reserve0 as int,
                old(pool).reserve1 as int,
                amount0_desired as int,
                amount1_desired as int,
                amount0_min as int,
                amount1_min as int,
            );
            match deposited {
                Err(e) => r == Err::<AddLiquidityResult, ErrorCode>(e) && *final(pool) == *old(
                    pool,
                ),
                Ok(p) => {
                    let skimmed = fee_liquidity(
                        old(pool).k_last as int,
                        old(pool).reserve0 as int,
                        old(pool).reserve1 as int,
                        lp_supply as int,
                    );
                    let new_supply = lp_supply as int + skimmed;
                    let issued = issued_liquidity(
                        p.0,
                        p.1,
                        old(pool).reserve0 as int,
                        old(pool).reserve1 as int,
                        new_supply,
                    );
                    if issued == 0 {
                        r == Err::<AddLiquidityResult, ErrorCode>(
                            ErrorCode::InsufficientLiquidityMinted,
                        ) && *final(pool) == *old(pool)
                    } else {
                        &&& r == Ok::<AddLiquidityResult, ErrorCode>(AddLiquidityResult {
                            fee_liquidity: skimmed as u64,
                            liquidity: issued as u64,
                            amount0: p.0 as u64,
                            amount1: p.1 as u64,
                        })
                        &&& *final(pool) == (Pool {
                            reserve0: (old(pool).reserve0 as int + p.0) as u64,
                            reserve1: (old(pool).reserve1 as int + p.1) as u64,
                            k_last: ((old(pool).reserve0 as int + p.0) * (old(
                                pool,
                            ).reserve1 as int + p.1)) as u128,
                            ..*old(pool)
                        })
                    }
                },
            }
        }),
{
    let amounts = match calculate_liquidity_amounts(
        pool.reserve0,
        pool.reserve1,
        amount0_desired,
        amount1_desired,
        amount0_min,
        amount1_min,
    ) {
        Ok(p) => p,
        Err(e) => {
            return Err(e);
        },
    };
    let fee = mint_fee(pool, lp_supply);
    let new_supply = lp_supply + fee;
    let liquidity = match compute_issued_liquidity(
        amounts.0,
        amounts.1,
        pool.reserve0,
        pool.reserve1,
        new_supply,
    ) {
        Ok(l) => l,
        Err(e) => {
            return Err(e);
        },
    };
    pool.apply_deposit(amounts.0, amounts.1);
    pool.update_k_last();
    Ok(AddLiquidityResult {
        fee_liquidity: fee,
        liquidity,
        amount0: amounts.0,
        amount1: amounts.1,
    })
}

/// Runs a whole redemption against the pool snapshot: skims the protocol
/// fee, prices the burned liquidity against the post-skim supply, shrinks
/// the reserves and re-checkpoints the product. On any rejection the pool
/// is left untouched and nothing is to be burned or transferred. Burned
/// liquidity is bounded by the outstanding supply, and the post-skim supply
/// must fit the 64-bit width.
pub fn remove_liquidity(
    pool: &mut Pool,
    lp_supply: u64,
    liquidity: u64,
    amount0_min: u64,
    amount1_min: u64,
) -> (r: Result<RemoveLiquidityResult, ErrorCode>)
    requires
        lp_supply > 0,
        liquidity <= lp_supply,
        lp_supply as int + fee_liquidity(
            old(pool).k_last as int,
            old(pool).reserve0 as int,
            old(pool).reserve1 as int,
            lp_supply as int,
        ) <= u64::MAX as int,
    ensures
        ({
            let skimmed = fee_liquidity(
                old(pool).k_last as int,
                old(pool).reserve0 as int,
                old(pool).reserve1 as int,
                lp_supply as int,
            );
            let new_supply = lp_supply as int + skimmed;
            let amount0 = liquidity as int * old(pool).reserve0 as int / new_supply;
            let amount1 = liquidity as int * old(pool).reserve1 as int / new_supply;
            if amount0 < amount0_min as int || amount1 < amount1_min as int {
                r == Err::<RemoveLiquidityResult, ErrorCode>(ErrorCode::InsufficientAmount)
                    && *final(pool) == *old(pool)
            } else if amount0 == 0 || amount1 == 0 {
                r == Err::<RemoveLiquidityResult, ErrorCode>(
                    ErrorCode::InsufficientLiquidityBurned,
                ) && *final(pool) == *old(pool)
            } else {
                &&& r == Ok::<RemoveLiquidityResult, ErrorCode>(RemoveLiquidityResult {
                    fee_liquidity: skimmed as u64,
                    amount0: amount0 as u64,
                    amount1: amount1 as u64,
                })
                &&& *final(pool) == (Pool {
                    reserve0: (old(pool).reserve0 as int - amount0) as u64,
                    reserve1: (old(pool).reserve1 as int - amount1) as u64,
                    k_last: ((old(pool).reserve0 as int - amount0) * (old(
                        pool,
                    ).reserve1 as int - amount1)) as u128,
                    ..*old(pool)
                })
            }
        }),
{
    let fee = mint_fee(pool, lp_supply);
    let new_supply = lp_supply + fee;
    proof {
        lemma_share_of_reserve_fits(liquidity as int, new_supply as int, pool.reserve0 as int);
        lemma_share_of_reserve_fits(liquidity as int, new_supply as int, pool.reserve1 as int);
    }
    let amounts = match calculate_removed_amounts(
        liquidity,
        new_supply,
        pool.reserve0,
        pool.reserve1,
        amount0_min,
        amount1_min,
    ) {
        Ok(p) => p,
        Err(e) => {
            return Err(e);
        },
    };
    pool.apply_withdrawal(amounts.0, amounts.1);
    pool.update_k_last();
    Ok(RemoveLiquidityResult { fee_liquidity: fee, amount0: amounts.0, amount1: amounts.1 })
}


/// A deposit accepted against a non-empty pool moves the reserve ratio by
/// less than one unit of division rounding: one side of the accepted pair
/// is the other side quoted at the reserve price and rounded down, so the
/// cross products of the pair and the reserves agree to within one
/// divisor.
pub proof fn lemma_deposit_preserves_ratio(
    reserve0: int,
    reserve1: int,
    amount0_desired: int,
    amount1_desired: int,
    amount0_min: int,
    amount1_min: int,
)
    requires
        1 <= reserve0,
        1 <= reserve1,
        0 <= amount0_desired,
        0 <= amount1_desired,
    ensures
        match deposit_amounts(
            reserve0,
            reserve1,
            amount0_desired,
            amount1_desired,
            amount0_min,
            amount1_min,
        ) {
            Ok(p) => {
                ||| p.1 * reserve0 <= p.0 * reserve1 < (p.1 + 1) * reserve0
                ||| p.0 * reserve1 <= p.1 * reserve0 < (p.0 + 1) * reserve1
            },
            Err(_) => true,
        },
{
    if amount0_desired > 0 {
        let quoted1 = quote_spec(amount0_desired, reserve0, reserve1);
        assert(0 <= amount0_desired * reserve1) by (nonlinear_arith)
            requires 0 <= amount0_desired && 0 <= reserve1;
        lemma_div_bounds(amount0_desired * reserve1, reserve0);
        lemma_mul_is_commutative(quoted1, reserve0);
        lemma_mul_is_commutative(quoted1 + 1, reserve0);
        if quoted1 > amount1_desired && amount1_desired > 0 {
            let quoted0 = quote_spec(amount1_desired, reserve1, reserve0);
            assert(0 <= amount1_desired * reserve0) by (nonlinear_arith)
                requires 0 <= amount1_desired && 0 <= reserve0;
            lemma_div_bounds(amount1_desired * reserve0, reserve1);
            lemma_mul_is_commutative(quoted0, reserve1);
            lemma_mul_is_commutative(quoted0 + 1, reserve1);
        }
    }
}

/// Round trip on an empty pool: depositing a pair, then redeeming every
/// issued liquidity token against the supply it created, pays the deposit
/// back in full — no protocol fee is skimmed at the checkpoint the deposit
/// wrote, and the proportional payout of the whole supply is exact, so the
/// returned amounts equal (and so never exceed) the deposited ones.
pub proof fn lemma_first_deposit_redeem_round_trip(amount0: int, amount1: int)
    requires
        1 <= amount0,
        1 <= amount1,
    ensures
        ({
            let issued = issued_liquidity(amount0, amount1, 0, 0, 0);
            &&& 1 <= issued
            &&& fee_liquidity(amount0 * amount1, amount0, amount1, issued) == 0
            &&& issued * amount0 / issued == amount0
            &&& issued * amount1 / issued == amount1
        }),
{
    let product = amount0 * amount1;
    assert(1 <= product) by (nonlinear_arith)
        requires 1 <= amount0 && 1 <= amount1 && product == amount0 * amount1;
    lemma_isqrt_is_isqrt(product);
    let issued = isqrt(product);
    assert(1 <= issued) by (nonlinear_arith)
        requires is_isqrt(product, issued) && 1 <= product;
    lemma_mint_fee_noop_at_checkpoint(amount0, amount1, issued);
    lemma_div_multiples_vanish(amount0, issued);
    lemma_div_multiples_vanish(amount1, issued);
}


/// Redemption keeps the pool backed: burning less than the whole supply
/// leaves both reserves positive, and burning exactly the whole supply
/// drains a reserve exactly — so reserves are zero only once no liquidity
/// is outstanding.
pub proof fn lemma_redeem_keeps_backing(liquidity: int, supply: int, reserve: int)
    requires
        0 < supply,
        0 <= liquidity <= supply,
        0 < reserve,
    ensures
        liquidity < supply ==> liquidity * reserve / supply < reserve,
        liquidity == supply ==> liquidity * reserve / supply == reserve,
{
    if liquidity < supply {
        assert(liquidity * reserve < reserve * supply) by (nonlinear_arith)
            requires 0 <= liquidity < supply && 0 < reserve;
        assert(0 <= liquidity * reserve) by (nonlinear_arith)
            requires 0 <= liquidity && 0 <= reserve;
        lemma_div_below(liquidity * reserve, supply, reserve);
    } else {
        lemma_div_multiples_vanish(reserve, supply);
        lemma_mul_is_commutative(liquidity, reserve);
    }
}


} // verus!
