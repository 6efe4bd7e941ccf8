use amm::error::ErrorCode;
use amm::state::config::Config;
use amm::state::pool::Pool;
use amm::BASIS_POINTS;

fn fresh_config() -> Config {
    Config { owner: 0, fee_to: 0, fee: 0 }
}

fn fresh_pool() -> Pool {
    Pool { token0: 0, token1: 0, reserve0: 0, reserve1: 0, k_last: 0 }
}

#[test]
fn config_initialize_rejects_full_fee() {
    let mut config = fresh_config();
    assert_eq!(config.initialize(1, 2, BASIS_POINTS), Err(ErrorCode::InvalidFee));
    assert_eq!(config.initialize(1, 2, 20000), Err(ErrorCode::InvalidFee));
}

#[test]
fn config_initialize_sets_fields() {
    let mut config = fresh_config();
    assert!(config.initialize(7, 8, 30).is_ok());
    assert_eq!(config.owner, 7);
    assert_eq!(config.fee_to, 8);
    assert_eq!(config.fee, 30);
}

#[test]
fn set_fee_boundary() {
    let mut config = fresh_config();
    assert!(config.initialize(1, 2, 0).is_ok());
    assert_eq!(config.set_fee(10000), Err(ErrorCode::InvalidFee));
    assert_eq!(config.fee, 0);
    assert!(config.set_fee(9999).is_ok());
    assert_eq!(config.fee, 9999);
}

#[test]
fn set_fee_to_updates_recipient() {
    let mut config = fresh_config();
    assert!(config.initialize(1, 2, 30).is_ok());
    assert!(config.set_fee_to(42).is_ok());
    assert_eq!(config.fee_to, 42);
    assert_eq!(config.owner, 1);
    assert_eq!(config.fee, 30);
}

#[test]
fn pool_initialize_rejects_reversed_pair() {
    let mut pool = fresh_pool();
    assert_eq!(pool.initialize(7, 3), Err(ErrorCode::InvalidMintOrder));
}

#[test]
fn pool_initialize_rejects_equal_pair() {
    let mut pool = fresh_pool();
    assert_eq!(pool.initialize(5, 5), Err(ErrorCode::InvalidMintOrder));
}

#[test]
fn pool_initialize_ordered_pair_starts_empty() {
    let mut pool = fresh_pool();
    assert!(pool.initialize(3, 7).is_ok());
    assert_eq!(pool.token0, 3);
    assert_eq!(pool.token1, 7);
    assert_eq!(pool.reserve0, 0);
    assert_eq!(pool.reserve1, 0);
    assert_eq!(pool.k_last, 0);
}

#[test]
fn pool_deposit_withdraw_checkpoint() {
    let mut pool = fresh_pool();
    assert!(pool.initialize(1, 2).is_ok());
    pool.apply_deposit(100, 400);
    assert_eq!((pool.reserve0, pool.reserve1), (100, 400));
    pool.update_k_last();
    assert_eq!(pool.k_last, 40000);
    pool.apply_withdrawal(40, 150);
    assert_eq!((pool.reserve0, pool.reserve1), (60, 250));
    pool.update_k_last();
    assert_eq!(pool.k_last, 15000);
}
