use amm::error::ErrorCode;
use amm::fee::mint_fee;
use amm::liquidity::{
    add_liquidity, calculate_liquidity_amounts, calculate_removed_amounts,
    compute_issued_liquidity, quote, remove_liquidity, AddLiquidityResult, RemoveLiquidityResult,
};
use amm::state::config::Config;
use amm::state::pool::Pool;
use amm::swap::{get_amount_in, get_amount_out, swap, swap_exact_input, swap_exact_output, SwapResult};

fn pool_with(reserve0: u64, reserve1: u64, k_last: u128) -> Pool {
    Pool { token0: 1, token1: 2, reserve0, reserve1, k_last }
}

fn config_with_fee(fee: u64) -> Config {
    Config { owner: 1, fee_to: 2, fee }
}

#[test]
fn quote_scales_by_reserve_ratio() {
    assert_eq!(quote(6, 4, 10), Ok(15));
    assert_eq!(quote(4, 3, 10), Ok(13));
}

#[test]
fn quote_rejects_zero_amount() {
    assert_eq!(quote(0, 4, 10), Err(ErrorCode::InsufficientAmount));
}

#[test]
fn quote_rejects_empty_reserves() {
    assert_eq!(quote(5, 0, 10), Err(ErrorCode::InsufficientReserves));
    assert_eq!(quote(5, 10, 0), Err(ErrorCode::InsufficientReserves));
}

#[test]
fn deposit_amounts_on_empty_pool_take_desired() {
    assert_eq!(calculate_liquidity_amounts(0, 0, 123, 456, 0, 0), Ok((123, 456)));
}

#[test]
fn deposit_amounts_quote_second_side() {
    assert_eq!(calculate_liquidity_amounts(4, 10, 6, 100, 0, 0), Ok((6, 15)));
}

#[test]
fn deposit_amounts_quote_first_side() {
    assert_eq!(calculate_liquidity_amounts(10, 4, 100, 6, 0, 0), Ok((15, 6)));
}

#[test]
fn deposit_amounts_hold_caller_minimum() {
    assert_eq!(
        calculate_liquidity_amounts(4, 10, 6, 100, 0, 16),
        Err(ErrorCode::InsufficientAmount)
    );
    assert_eq!(
        calculate_liquidity_amounts(10, 4, 100, 6, 16, 0),
        Err(ErrorCode::InsufficientAmount)
    );
}

#[test]
fn deposit_amounts_reject_zero_desired() {
    assert_eq!(calculate_liquidity_amounts(4, 10, 0, 100, 0, 0), Err(ErrorCode::InsufficientAmount));
}

#[test]
fn deposit_amounts_reject_one_sided_reserves() {
    assert_eq!(
        calculate_liquidity_amounts(0, 10, 6, 100, 0, 0),
        Err(ErrorCode::InsufficientReserves)
    );
}

#[test]
fn deposit_into_non_empty_pool_keeps_ratio_within_rounding() {
    let (amount0, amount1) = calculate_liquidity_amounts(3, 10, 4, 100, 0, 0).unwrap();
    assert_eq!((amount0, amount1), (4, 13));
    // The cross products agree to within one divisor: the pair sits on the
    // reserve ratio up to the one rounded-down quotient.
    let lhs = (amount1 as u128) * 3;
    let rhs = (amount0 as u128) * 10;
    assert!(lhs <= rhs);
    assert!(rhs < (amount1 as u128 + 1) * 3);
}

#[test]
fn issued_liquidity_of_first_deposit_is_geometric_mean() {
    assert_eq!(compute_issued_liquidity(100, 100, 0, 0, 0), Ok(100));
}

#[test]
fn issued_liquidity_roots_are_rounded_down() {
    assert_eq!(compute_issued_liquidity(10, 3, 0, 0, 0), Ok(5));
}

#[test]
fn issued_liquidity_rejects_dust() {
    assert_eq!(compute_issued_liquidity(0, 5, 0, 0, 0), Err(ErrorCode::InsufficientLiquidityMinted));
    assert_eq!(
        compute_issued_liquidity(1, 1, 1000, 1000, 100),
        Err(ErrorCode::InsufficientLiquidityMinted)
    );
}

#[test]
fn issued_liquidity_takes_weaker_side() {
    assert_eq!(compute_issued_liquidity(20, 20, 200, 200, 1090), Ok(109));
    assert_eq!(compute_issued_liquidity(20, 10, 200, 200, 1000), Ok(50));
}

#[test]
fn removed_amounts_are_proportional() {
    assert_eq!(calculate_removed_amounts(100, 1000, 5000, 3000, 0, 0), Ok((500, 300)));
}

#[test]
fn removed_amounts_hold_caller_minimum() {
    assert_eq!(
        calculate_removed_amounts(100, 1000, 5000, 3000, 501, 0),
        Err(ErrorCode::InsufficientAmount)
    );
}

#[test]
fn removed_amounts_reject_dust_burn() {
    assert_eq!(
        calculate_removed_amounts(1, 10, 5, 5, 0, 0),
        Err(ErrorCode::InsufficientLiquidityBurned)
    );
}

#[test]
fn fee_skim_noop_without_checkpoint() {
    let pool = pool_with(500, 500, 0);
    assert_eq!(mint_fee(&pool, 1000), 0);
}

#[test]
fn fee_skim_noop_at_checkpoint() {
    let pool = pool_with(200, 200, 40000);
    assert_eq!(mint_fee(&pool, 1000), 0);
}

#[test]
fn fee_skim_noop_when_reserves_shrank() {
    let pool = pool_with(50, 50, 10000);
    assert_eq!(mint_fee(&pool, 1000), 0);
}

#[test]
fn fee_skim_takes_share_of_growth() {
    // rootK = 200, rootKLast = 100: 1000 * 100 / (5 * 200 + 100) = 90.
    let pool = pool_with(200, 200, 10000);
    assert_eq!(mint_fee(&pool, 1000), 90);
}

#[test]
fn amount_out_matches_hand_computed_formula() {
    // 1000 * 9970 * 100000 / (100000 * 10000 + 1000 * 9970) = 987.
    assert_eq!(get_amount_out(1000, 100000, 100000, 30), Ok(987));
}

#[test]
fn amount_out_rejects_empty_reserves() {
    assert_eq!(get_amount_out(1000, 0, 100000, 30), Err(ErrorCode::InsufficientLiquidity));
    assert_eq!(get_amount_out(1000, 100000, 0, 30), Err(ErrorCode::InsufficientLiquidity));
}

#[test]
fn amount_out_never_decreases_reserve_product() {
    let reserve_in: u128 = 100000;
    let reserve_out: u128 = 100000;
    let amount_in: u128 = 1000;
    let out = get_amount_out(1000, 100000, 100000, 0).unwrap() as u128;
    assert_eq!(out, 990);
    assert!((reserve_in + amount_in) * (reserve_out - out) >= reserve_in * reserve_out);
}

#[test]
fn amount_in_rounds_against_the_trader() {
    // 100000 * 987 * 10000 / ((100000 - 987) * 9970) + 1 = 1000.
    assert_eq!(get_amount_in(987, 100000, 100000, 30), Ok(1000));
}

#[test]
fn amount_in_rejects_empty_input_reserve() {
    assert_eq!(get_amount_in(987, 0, 100000, 30), Err(ErrorCode::InsufficientLiquidity));
}

#[test]
fn round_trip_charge_is_no_cheaper_than_input() {
    let out = get_amount_out(1000, 100000, 100000, 30).unwrap();
    let back = get_amount_in(out, 100000, 100000, 30).unwrap();
    assert!(back >= 1000);
    assert_eq!(back, 1000);
}

#[test]
fn swap_validation_error_order() {
    assert_eq!(swap(5, 0, 10, 10), Err(ErrorCode::InsufficientOutputAmount));
    assert_eq!(swap(0, 5, 10, 10), Err(ErrorCode::InsufficientInputAmount));
    assert_eq!(swap(5, 10, 10, 10), Err(ErrorCode::InsufficientLiquidity));
    assert_eq!(swap(10, 5, 10, 10), Err(ErrorCode::InvalidUserBalance));
    assert_eq!(swap(5, 4, 10, 10), Ok(()));
}

#[test]
fn exact_input_swap_holds_minimum_output() {
    let config = config_with_fee(30);
    assert_eq!(
        swap_exact_input(&config, 1000, 988, 100000, 100000, 2000),
        Err(ErrorCode::InsufficientOutputAmount)
    );
    assert_eq!(
        swap_exact_input(&config, 1000, 987, 100000, 100000, 2000),
        Ok(SwapResult { input_amount: 1000, output_amount: 987 })
    );
}

#[test]
fn exact_input_swap_checks_trader_balance() {
    let config = config_with_fee(30);
    assert_eq!(
        swap_exact_input(&config, 1000, 987, 100000, 100000, 1000),
        Err(ErrorCode::InvalidUserBalance)
    );
}

#[test]
fn exact_output_swap_holds_maximum_input() {
    let config = config_with_fee(30);
    assert_eq!(
        swap_exact_output(&config, 987, 999, 100000, 100000, 2000),
        Err(ErrorCode::InsufficientInputAmount)
    );
    assert_eq!(
        swap_exact_output(&config, 987, 1000, 100000, 100000, 2000),
        Ok(SwapResult { input_amount: 1000, output_amount: 987 })
    );
}

#[test]
fn exact_output_swap_rejects_zero_output() {
    let config = config_with_fee(30);
    assert_eq!(
        swap_exact_output(&config, 0, 1000, 100000, 100000, 2000),
        Err(ErrorCode::InsufficientOutputAmount)
    );
}

#[test]
fn reserve_product_never_decreases_across_swaps() {
    let config = config_with_fee(30);
    let mut reserve0: u64 = 100000;
    let mut reserve1: u64 = 100000;
    let mut k = (reserve0 as u128) * (reserve1 as u128);
    for amount in [1000u64, 500, 2500, 7] {
        let result = swap_exact_input(&config, amount, 0, reserve0, reserve1, u64::MAX).unwrap();
        reserve0 += result.input_amount;
        reserve1 -= result.output_amount;
        let next_k = (reserve0 as u128) * (reserve1 as u128);
        assert!(next_k >= k);
        k = next_k;
    }
}

#[test]
fn add_liquidity_first_deposit() {
    let mut pool = pool_with(0, 0, 0);
    let result = add_liquidity(&mut pool, 0, 10000, 10000, 0, 0);
    assert_eq!(
        result,
        Ok(AddLiquidityResult { fee_liquidity: 0, liquidity: 10000, amount0: 10000, amount1: 10000 })
    );
    assert_eq!((pool.reserve0, pool.reserve1), (10000, 10000));
    assert_eq!(pool.k_last, 100000000);
}

#[test]
fn add_liquidity_skims_fee_and_issues_on_post_skim_supply() {
    let mut pool = pool_with(200, 200, 10000);
    let result = add_liquidity(&mut pool, 1000, 20, 20, 0, 0);
    assert_eq!(
        result,
        Ok(AddLiquidityResult { fee_liquidity: 90, liquidity: 109, amount0: 20, amount1: 20 })
    );
    assert_eq!((pool.reserve0, pool.reserve1), (220, 220));
    assert_eq!(pool.k_last, 48400);
}

#[test]
fn add_liquidity_rejection_leaves_pool_untouched() {
    let mut pool = pool_with(4, 10, 40);
    let result = add_liquidity(&mut pool, 6, 6, 100, 0, 16);
    assert_eq!(result, Err(ErrorCode::InsufficientAmount));
    assert_eq!((pool.reserve0, pool.reserve1, pool.k_last), (4, 10, 40));
}

#[test]
fn remove_liquidity_skims_fee_and_pays_post_skim_share() {
    let mut pool = pool_with(200, 200, 10000);
    let result = remove_liquidity(&mut pool, 1000, 100, 0, 0);
    assert_eq!(
        result,
        Ok(RemoveLiquidityResult { fee_liquidity: 90, amount0: 18, amount1: 18 })
    );
    assert_eq!((pool.reserve0, pool.reserve1), (182, 182));
    assert_eq!(pool.k_last, 33124);
}

#[test]
fn remove_liquidity_holds_caller_minimum() {
    let mut pool = pool_with(5000, 3000, 15000000);
    let result = remove_liquidity(&mut pool, 1000, 100, 501, 0);
    assert_eq!(result, Err(ErrorCode::InsufficientAmount));
    assert_eq!((pool.reserve0, pool.reserve1), (5000, 3000));
}

#[test]
fn empty_pool_round_trip_returns_deposit_exactly() {
    let mut pool = pool_with(0, 0, 0);
    let added = add_liquidity(&mut pool, 0, 10000, 10000, 0, 0).unwrap();
    assert_eq!(added.liquidity, 10000);
    let supply = added.liquidity;
    let removed = remove_liquidity(&mut pool, supply, supply, 0, 0).unwrap();
    assert_eq!(removed.fee_liquidity, 0);
    assert!(removed.amount0 <= 10000 && removed.amount1 <= 10000);
    assert_eq!((removed.amount0, removed.amount1), (10000, 10000));
    assert_eq!((pool.reserve0, pool.reserve1), (0, 0));
    assert_eq!(pool.k_last, 0);
}

#[test]
fn empty_pool_round_trip_with_uneven_pair() {
    let mut pool = pool_with(0, 0, 0);
    let added = add_liquidity(&mut pool, 0, 10, 3, 0, 0).unwrap();
    assert_eq!(added.liquidity, 5);
    let removed = remove_liquidity(&mut pool, 5, 5, 0, 0).unwrap();
    assert!(removed.amount0 <= 10 && removed.amount1 <= 3);
    assert_eq!((removed.amount0, removed.amount1), (10, 3));
    assert_eq!((pool.reserve0, pool.reserve1), (0, 0));
}
