use lp_pool::{LpPool, PoolError, SCALE};

fn pool_with(token_reserve: u64, staked_token_reserve: u64, total_lp_tokens: u64) -> LpPool {
    LpPool {
        token_reserve,
        staked_token_reserve,
        total_lp_tokens,
        price: 1_500_000,
        fee_min: 1_000,
        fee_max: 90_000,
        liquidity_target: 90_000_000,
    }
}

#[test]
fn test_init() {
    let pool = LpPool::init(1_500_000, 1_000, 90_000, 90_000_000).unwrap();
    assert_eq!(pool.price, 1_500_000);
    assert_eq!(pool.fee_min, 1_000);
    assert_eq!(pool.fee_max, 90_000);
    assert_eq!(pool.liquidity_target, 90_000_000);
    assert_eq!(pool.token_reserve, 0);
    assert_eq!(pool.staked_token_reserve, 0);
    assert_eq!(pool.total_lp_tokens, 0);
}

#[test]
fn test_add_liquidity() {
    let mut pool = LpPool::init(1_500_000, 1_000, 90_000, 90_000_000).unwrap();
    let lp_tokens = pool.add_liquidity(100_000_000).unwrap();
    assert_eq!(lp_tokens, 100_000_000);
    assert_eq!(pool.token_reserve, 100_000_000);
    assert_eq!(pool.total_lp_tokens, 100_000_000);
}

#[test]
fn test_remove_liquidity() {
    let mut pool = LpPool::init(1_500_000, 1_000, 90_000, 90_000_000).unwrap();
    pool.add_liquidity(100_000_000).unwrap();
    let (tokens, staked_tokens) = pool.remove_liquidity(50_000_000).unwrap();
    assert_eq!(tokens, 50_000_000);
    assert_eq!(staked_tokens, 0);
    assert_eq!(pool.token_reserve, 50_000_000);
    assert_eq!(pool.total_lp_tokens, 50_000_000);
}

#[test]
fn test_swap() {
    let mut pool = LpPool::init(1_500_000, 1_000, 90_000, 90_000_000).unwrap();
    pool.add_liquidity(100_000_000).unwrap();
    let received_tokens = pool.swap(6_000_000).unwrap();
    let token_amount = (6_000_000 as u128 * 1_500_000 as u128 / 1_000_000) as u64;
    let fee_amount = (token_amount as u128 * 80_112 as u128 / 1_000_000) as u64;
    let expected_received_tokens = token_amount - fee_amount;

    assert_eq!(received_tokens, expected_received_tokens);
    assert_eq!(pool.token_reserve, 100_000_000 - expected_received_tokens);
    assert_eq!(pool.staked_token_reserve, 6_000_000);
}

#[test]
fn test_calculate_fee() {
    let mut pool = LpPool::init(1_500_000, 1_000, 90_000, 90_000_000).unwrap();
    pool.add_liquidity(50_000_000).unwrap();
    assert_eq!(pool.calculate_fee(), 90_000);
    pool.add_liquidity(50_000_000).unwrap();
    assert_eq!(pool.calculate_fee(), 80_112);
}

#[test]
fn reference_scenario_swap_after_first_deposit() {
    let mut pool = LpPool::init(1_500_000, 1_000, 90_000, 90_000_000).unwrap();
    assert_eq!(pool.add_liquidity(100_000_000), Ok(100_000_000));
    assert_eq!(pool.token_reserve, 100_000_000);
    assert_eq!(pool.calculate_fee(), 80_112);
    assert_eq!(pool.swap(6_000_000), Ok(8_278_992));
    assert_eq!(pool.token_reserve, 91_721_008);
    assert_eq!(pool.staked_token_reserve, 6_000_000);
}

#[test]
fn fee_is_maximal_below_target_and_minimal_from_it() {
    let mut pool = LpPool::init(1_500_000, 1_000, 90_000, 90_000_000).unwrap();
    assert_eq!(pool.calculate_fee(), 90_000);
    pool.add_liquidity(89_999_999).unwrap();
    assert_eq!(pool.calculate_fee(), 90_000);
    pool.add_liquidity(1).unwrap();
    assert_eq!(pool.token_reserve, 90_000_000);
    assert_eq!(pool.calculate_fee(), 90_000);
    pool.add_liquidity(500_000_000).unwrap();
    assert_eq!(pool.calculate_fee(), 1_000);
}

#[test]
fn fee_falls_linearly_between_target_and_twice_target() {
    let mut pool = pool_with(135_000_000, 0, 1);
    assert_eq!(pool.calculate_fee(), 45_500);
    pool.token_reserve = 179_999_999;
    assert_eq!(pool.calculate_fee(), 1_001);
    pool.token_reserve = 180_000_000;
    assert_eq!(pool.calculate_fee(), 1_000);
    pool.token_reserve = 590_000_000;
    assert_eq!(pool.calculate_fee(), 1_000);
}

#[test]
fn first_deposit_mints_one_for_one() {
    let mut pool = LpPool::init(2_000_000, 0, 10, 1).unwrap();
    assert_eq!(pool.add_liquidity(12_345), Ok(12_345));
    assert_eq!(pool.token_reserve, 12_345);
    assert_eq!(pool.total_lp_tokens, 12_345);
}

#[test]
fn later_deposit_mints_rounded_down_share() {
    let mut pool = pool_with(3, 0, 10);
    assert_eq!(pool.add_liquidity(1), Ok(3));
    assert_eq!(pool.token_reserve, 4);
    assert_eq!(pool.total_lp_tokens, 13);
}

#[test]
fn withdrawal_rounds_up() {
    let mut pool = pool_with(10, 7, 3);
    assert_eq!(pool.remove_liquidity(1), Ok((4, 3)));
    assert_eq!(pool.token_reserve, 6);
    assert_eq!(pool.staked_token_reserve, 4);
    assert_eq!(pool.total_lp_tokens, 2);
}

#[test]
fn burning_all_shares_empties_the_pool() {
    let mut pool = pool_with(91_009_000, 6_000_000, 100_000_000);
    assert_eq!(pool.remove_liquidity(100_000_000), Ok((91_009_000, 6_000_000)));
    assert_eq!(pool.token_reserve, 0);
    assert_eq!(pool.staked_token_reserve, 0);
    assert_eq!(pool.total_lp_tokens, 0);
}

#[test]
fn deposit_then_withdraw_pays_back_the_deposit() {
    let mut pool = LpPool::init(1_500_000, 1_000, 90_000, 90_000_000).unwrap();
    pool.add_liquidity(1_000).unwrap();
    let minted = pool.add_liquidity(333).unwrap();
    assert_eq!(minted, 333);
    let (tokens, _) = pool.remove_liquidity(minted).unwrap();
    assert_eq!(tokens, 333);
}

#[test]
fn deposit_then_withdraw_short_by_at_most_one() {
    let mut pool = pool_with(199, 0, 100);
    let minted = pool.add_liquidity(1).unwrap();
    assert_eq!(minted, 0);
    let (tokens, staked) = pool.remove_liquidity(minted).unwrap();
    assert_eq!(tokens, 0);
    assert_eq!(staked, 0);
    assert_eq!(pool.token_reserve, 200);
}

#[test]
fn swap_moves_exactly_the_amounts_exchanged() {
    let mut pool = pool_with(100_000_000, 1_000, 100_000_000);
    let received = pool.swap(30_000_000).unwrap();
    assert_eq!(received, 41_394_960);
    assert!(received as u128 <= 30_000_000u128 * 1_500_000 / SCALE as u128);
    assert_eq!(pool.token_reserve, 58_605_040);
    assert_eq!(pool.staked_token_reserve, 30_001_000);
    assert_eq!(pool.total_lp_tokens, 100_000_000);
}

#[test]
fn swap_below_target_charges_the_maximum_fee() {
    let mut pool = pool_with(50_000_000, 0, 50_000_000);
    assert_eq!(pool.swap(1_000_000), Ok(1_365_000));
    assert_eq!(pool.token_reserve, 48_635_000);
}

#[test]
fn sequence_of_operations_keeps_every_amount_in_range() {
    let mut pool = LpPool::init(1_500_000, 1_000, 90_000, 90_000_000).unwrap();
    assert_eq!(pool.add_liquidity(100_000_000), Ok(100_000_000));
    assert_eq!(pool.swap(6_000_000), Ok(8_278_992));
    assert_eq!(pool.add_liquidity(10_000_000), Ok(10_902_627));
    assert_eq!(pool.swap(30_000_000), Ok(41_471_550));
    assert_eq!(
        (pool.token_reserve, pool.staked_token_reserve, pool.total_lp_tokens),
        (60_249_458, 36_000_000, 110_902_627)
    );
    assert_eq!(pool.remove_liquidity(109_999_100), Ok((59_758_604, 35_706_707)));
    assert_eq!(
        (pool.token_reserve, pool.staked_token_reserve, pool.total_lp_tokens),
        (490_854, 293_293, 903_527)
    );
    assert_eq!(pool.remove_liquidity(903_527), Ok((490_854, 293_293)));
    assert_eq!(
        (pool.token_reserve, pool.staked_token_reserve, pool.total_lp_tokens),
        (0, 0, 0)
    );
}

#[test]
fn init_refuses_zero_liquidity_target() {
    assert_eq!(
        LpPool::init(1_500_000, 1_000, 90_000, 0).err(),
        Some(PoolError::ConfigurationError)
    );
}

#[test]
fn init_refuses_inverted_fee_range() {
    assert_eq!(LpPool::init(1_500_000, 2, 1, 5).err(), Some(PoolError::ConfigurationError));
}

#[test]
fn init_refuses_fee_above_scale() {
    assert_eq!(
        LpPool::init(1_500_000, 0, SCALE + 1, 5).err(),
        Some(PoolError::ConfigurationError)
    );
    assert!(LpPool::init(1_500_000, SCALE, SCALE, 5).is_ok());
}

#[test]
fn remove_more_than_supply_is_refused() {
    let mut pool = pool_with(100, 5, 100);
    assert_eq!(pool.remove_liquidity(101), Err(PoolError::InsufficientLiquidity));
    assert_eq!(
        (pool.token_reserve, pool.staked_token_reserve, pool.total_lp_tokens),
        (100, 5, 100)
    );
}

#[test]
fn swap_draining_more_than_reserve_is_refused() {
    let mut pool = LpPool::init(1_500_000, 1_000, 90_000, 90_000_000).unwrap();
    pool.add_liquidity(10).unwrap();
    assert_eq!(pool.swap(100), Err(PoolError::InsufficientLiquidity));
    assert_eq!((pool.token_reserve, pool.staked_token_reserve), (10, 0));
}

#[test]
fn deposit_overflowing_reserve_is_refused() {
    let mut pool = LpPool::init(1_500_000, 1_000, 90_000, 90_000_000).unwrap();
    assert_eq!(pool.add_liquidity(u64::MAX), Ok(u64::MAX));
    assert_eq!(pool.add_liquidity(1), Err(PoolError::ArithmeticOverflow));
    assert_eq!((pool.token_reserve, pool.total_lp_tokens), (u64::MAX, u64::MAX));
}

#[test]
fn deposit_overflowing_supply_is_refused() {
    let mut pool = pool_with(1, 0, u64::MAX / 2);
    assert_eq!(pool.add_liquidity(3), Err(PoolError::ArithmeticOverflow));
    assert_eq!((pool.token_reserve, pool.total_lp_tokens), (1, u64::MAX / 2));
}

#[test]
fn swap_overflowing_staked_reserve_is_refused() {
    let mut pool = pool_with(100, u64::MAX, 100);
    assert_eq!(pool.swap(1), Err(PoolError::ArithmeticOverflow));
    assert_eq!((pool.token_reserve, pool.staked_token_reserve), (100, u64::MAX));
}
