use dex::errors::DexProgramError;
use dex::instructions;
use dex::state::{AssetId, LiquidityPool};

fn asset(tag: u8) -> AssetId {
    let mut bytes = [0u8; 32];
    bytes[0] = tag;
    AssetId { bytes }
}

fn funded_pool() -> LiquidityPool {
    let mut pool = instructions::initialize_liquidity_pool(asset(1), asset(2), 255).unwrap();
    pool.add_liquidity(100, 400, 0, 0).unwrap();
    pool
}

#[test]
fn bootstrap_share_formula() {
    let mut pool = instructions::initialize_liquidity_pool(asset(1), asset(2), 255).unwrap();
    assert_eq!(pool.total_shares, 0);
    assert_eq!(pool.reserve_one, 0);
    assert_eq!(pool.reserve_two, 0);
    assert_eq!(pool.bump, 255);
    let r = pool.add_liquidity(100, 400, 0, 0);
    assert_eq!(r, Ok(()));
    // floor(sqrt(100 * 400)) == 200
    assert_eq!(pool.total_shares, 200);
    assert_eq!(pool.reserve_one, 100);
    assert_eq!(pool.reserve_two, 400);
    assert!(pool.is_well_formed());
}

#[test]
fn bootstrap_scales_by_decimals() {
    let mut pool = instructions::initialize_liquidity_pool(asset(1), asset(2), 254).unwrap();
    // floor(sqrt(100 * 400 / 10^2)) == floor(sqrt(400)) == 20
    assert_eq!(pool.add_liquidity(100, 400, 1, 1), Ok(()));
    assert_eq!(pool.total_shares, 20);
}

#[test]
fn bootstrap_rounds_the_root_down() {
    let mut pool = instructions::initialize_liquidity_pool(asset(1), asset(2), 255).unwrap();
    // floor(sqrt(2 * 3)) == 2
    assert_eq!(pool.add_liquidity(2, 3, 0, 0), Ok(()));
    assert_eq!(pool.total_shares, 2);
}

#[test]
fn proportional_mint_takes_the_minimum() {
    let mut pool = funded_pool();
    // shares_one = floor(50*200/100) = 100, shares_two = floor(150*200/400) = 75
    let r = pool.add_liquidity(50, 150, 0, 0);
    assert_eq!(r, Ok(()));
    assert_eq!(pool.total_shares, 275);
    assert_eq!(pool.reserve_one, 150);
    assert_eq!(pool.reserve_two, 550);
}

#[test]
fn add_then_remove_returns_no_more_than_deposited() {
    let mut pool = funded_pool();
    pool.add_liquidity(50, 150, 0, 0).unwrap();
    // the deposit minted 75 shares; redeeming them pays back at most (50, 150)
    let r = pool.remove_liquidity(75);
    // floor(75*150/275) = 40, floor(75*550/275) = 150
    assert_eq!(r, Ok((40, 150)));
    assert_eq!(pool.total_shares, 200);
    assert_eq!(pool.reserve_one, 110);
    assert_eq!(pool.reserve_two, 400);
    assert!(pool.reserve_one >= 100 && pool.reserve_two >= 400);
}

#[test]
fn remove_everything_drains_the_pool() {
    let mut pool = funded_pool();
    assert_eq!(pool.remove_liquidity(200), Ok((100, 400)));
    assert_eq!(pool.total_shares, 0);
    assert_eq!(pool.reserve_one, 0);
    assert_eq!(pool.reserve_two, 0);
    assert!(pool.is_well_formed());
}

#[test]
fn underflow_rejection() {
    let mut pool = funded_pool();
    let r = pool.remove_liquidity(201);
    assert_eq!(r, Err(DexProgramError::OverflowOrUnderflowOccurred));
    assert_eq!(pool.total_shares, 200);
    assert_eq!(pool.reserve_one, 100);
    assert_eq!(pool.reserve_two, 400);
}

#[test]
fn zero_share_rejection_on_empty_pool() {
    let mut pool = instructions::initialize_liquidity_pool(asset(1), asset(2), 255).unwrap();
    let r = pool.add_liquidity(0, 0, 0, 0);
    assert_eq!(r, Err(DexProgramError::FailedToAddLiquidity));
    assert_eq!(pool.total_shares, 0);
}

#[test]
fn zero_share_rejection_on_degenerate_ratio() {
    let mut pool = funded_pool();
    // shares_one = floor(0*200/100) = 0, so no share can be minted
    let r = pool.add_liquidity(0, 10, 0, 0);
    assert_eq!(r, Err(DexProgramError::FailedToAddLiquidity));
    assert_eq!(pool.total_shares, 200);
    assert_eq!(pool.reserve_one, 100);
    assert_eq!(pool.reserve_two, 400);
}

#[test]
fn zero_share_rejection_when_decimals_swallow_the_deposit() {
    let mut pool = instructions::initialize_liquidity_pool(asset(1), asset(2), 255).unwrap();
    // 3 * 3 / 10^2 rounds to zero
    assert_eq!(
        pool.add_liquidity(3, 3, 1, 1),
        Err(DexProgramError::FailedToAddLiquidity)
    );
}

#[test]
fn overflow_rejection_on_ratio_product() {
    let mut pool = instructions::initialize_liquidity_pool(asset(1), asset(2), 255).unwrap();
    assert_eq!(pool.add_liquidity(u64::MAX, u64::MAX, 0, 0), Ok(()));
    assert_eq!(pool.total_shares, u64::MAX);
    let r = pool.add_liquidity(2, 2, 0, 0);
    assert_eq!(r, Err(DexProgramError::OverflowOrUnderflowOccurred));
    assert_eq!(pool.total_shares, u64::MAX);
    assert_eq!(pool.reserve_one, u64::MAX);
    assert_eq!(pool.reserve_two, u64::MAX);
}

#[test]
fn grant_and_remove_shares_are_checked() {
    let mut pool = LiquidityPool::new(asset(1), asset(2), 1);
    assert_eq!(pool.grant_shares(10), Ok(()));
    assert_eq!(pool.total_shares, 10);
    assert_eq!(
        pool.grant_shares(u64::MAX),
        Err(DexProgramError::OverflowOrUnderflowOccurred)
    );
    assert_eq!(pool.total_shares, 10);
    assert_eq!(pool.remove_shares(4), Ok(()));
    assert_eq!(pool.total_shares, 6);
    assert_eq!(
        pool.remove_shares(7),
        Err(DexProgramError::OverflowOrUnderflowOccurred)
    );
    assert_eq!(pool.total_shares, 6);
}

#[test]
fn update_reserves_overwrites_both() {
    let mut pool = LiquidityPool::new(asset(1), asset(2), 1);
    assert_eq!(pool.update_reserves(11, 22), Ok(()));
    assert_eq!(pool.reserve_one, 11);
    assert_eq!(pool.reserve_two, 22);
}

#[test]
fn duplicate_rejection_on_initialize() {
    let r = instructions::initialize_liquidity_pool(asset(5), asset(5), 255);
    assert!(matches!(r, Err(DexProgramError::DuplicateTokenNotAllowed)));
}

#[test]
fn duplicate_rejection_on_remove_liquidity() {
    let mut pool = funded_pool();
    let r = instructions::remove_liquidity(&mut pool, asset(3), asset(3), 10);
    assert_eq!(r, Err(DexProgramError::DuplicateTokenNotAllowed));
    assert_eq!(pool.total_shares, 200);
    assert_eq!(pool.reserve_one, 100);
    assert_eq!(pool.reserve_two, 400);
}

#[test]
fn remove_liquidity_instruction_accepts_the_pair_in_either_order() {
    let mut pool = funded_pool();
    let r = instructions::remove_liquidity(&mut pool, asset(2), asset(1), 100);
    // floor(100*100/200) = 50, floor(100*400/200) = 200, in the pool's order
    assert_eq!(r, Ok((50, 200)));
    assert_eq!(pool.total_shares, 100);
}

#[test]
fn add_liquidity_instruction_forwards_to_the_engine() {
    let mut pool = funded_pool();
    assert_eq!(instructions::add_liquidity(&mut pool, 50, 150, 0, 0), Ok(()));
    assert_eq!(pool.total_shares, 275);
}

#[test]
fn swap_quotes_the_constant_product_price() {
    let mut pool = funded_pool();
    // eff = floor(10 * 9970 / 10000) = 9; out = floor(400*9 / 109) = 33
    let r = pool.swap(10, true, 30);
    assert_eq!(r, Ok(33));
    assert_eq!(pool.reserve_one, 110);
    assert_eq!(pool.reserve_two, 367);
    assert_eq!(pool.total_shares, 200);
    // the product of the reserves never falls
    assert!(110u128 * 367u128 >= 100u128 * 400u128);
}

#[test]
fn swap_without_fee_keeps_the_product_from_falling() {
    let mut pool = funded_pool();
    // out = floor(400*10 / 110) = 36
    assert_eq!(pool.swap(10, true, 0), Ok(36));
    assert_eq!(pool.reserve_one, 110);
    assert_eq!(pool.reserve_two, 364);
    assert!(110u128 * 364u128 >= 100u128 * 400u128);
}

#[test]
fn swap_in_the_other_direction() {
    let mut pool = funded_pool();
    // input is asset two: eff = 40, out = floor(100*40 / 440) = 9
    assert_eq!(pool.swap(40, false, 0), Ok(9));
    assert_eq!(pool.reserve_one, 91);
    assert_eq!(pool.reserve_two, 440);
}

#[test]
fn swap_on_an_empty_pool_is_rejected() {
    let mut pool = instructions::initialize_liquidity_pool(asset(1), asset(2), 255).unwrap();
    assert_eq!(pool.swap(10, true, 30), Err(DexProgramError::InsufficientFunds));
    assert_eq!(pool.total_shares, 0);
}

#[test]
fn swap_whose_output_rounds_to_zero_is_rejected() {
    let mut pool = instructions::initialize_liquidity_pool(asset(1), asset(2), 255).unwrap();
    pool.add_liquidity(10_000, 1, 0, 0).unwrap();
    let r = instructions::swap(&mut pool, 5, true, 0);
    assert_eq!(r, Err(DexProgramError::InsufficientFunds));
    assert_eq!(pool.reserve_one, 10_000);
    assert_eq!(pool.reserve_two, 1);
}

#[test]
fn well_formedness_check_matches_the_record() {
    let pool = LiquidityPool::new(asset(1), asset(1), 0);
    assert!(!pool.is_well_formed());
    let pool = LiquidityPool::new(asset(1), asset(2), 0);
    assert!(pool.is_well_formed());
}
