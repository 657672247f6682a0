use metapool::state::MetaPool;
use metapool::pool::StakingPoolInfo;
use metapool::wide::{amount_from_shares, apply_pct, mul_div, proportional, shares_from_amount};
use metapool::ONE_NEAR;

fn fresh() -> MetaPool {
    MetaPool::new("owner".to_string(), "operator".to_string())
}

fn pool(name: &str, weight: u16) -> StakingPoolInfo {
    StakingPoolInfo::new(name.to_string(), weight)
}

#[test]
fn mul_div_handles_products_beyond_128_bits() {
    let a: u128 = 10u128.pow(30);
    let b: u128 = 10u128.pow(30);
    let c: u128 = 10u128.pow(27);
    assert_eq!(mul_div(a, b, c), 10u128.pow(33));
    // Truncating division, never rounding up.
    assert_eq!(mul_div(10, 10, 3), 33);
    assert_eq!(mul_div(u128::MAX, 1, 1), u128::MAX);
    assert_eq!(mul_div(u128::MAX, u128::MAX, u128::MAX), u128::MAX);
    assert_eq!(mul_div(0, u128::MAX, 7), 0);
}

#[test]
fn proportional_is_floor_of_the_ratio() {
    assert_eq!(proportional(7, 3, 2), 10);
    assert_eq!(proportional(1_000_000, 1, 3), 333_333);
}

#[test]
fn apply_pct_takes_basis_points() {
    assert_eq!(apply_pct(2500, 1000), 250);
    assert_eq!(apply_pct(10000, 1234), 1234);
    assert_eq!(apply_pct(0, 1234), 0);
    assert_eq!(apply_pct(1, 3), 0);
    assert_eq!(apply_pct(100, 12 * ONE_NEAR), 12 * ONE_NEAR / 100);
}

#[test]
fn share_conversions_match_the_price() {
    // Price 2: 1000 of value over 500 shares.
    assert_eq!(shares_from_amount(100, 1000, 500), 50);
    assert_eq!(amount_from_shares(50, 1000, 500), 100);
    // Bootstrap: with either total at zero, shares mint one to one.
    assert_eq!(shares_from_amount(123, 0, 0), 123);
    assert_eq!(shares_from_amount(123, 1000, 0), 123);
    // No shares exist: no value behind them.
    assert_eq!(amount_from_shares(50, 1000, 0), 0);
}

#[test]
fn stake_selection_picks_largest_shortfall_first_wins() {
    let mut s = fresh();
    s.staking_pools.push(pool("a.pool", 2500));
    s.staking_pools.push(pool("b.pool", 2500));
    s.staking_pools.push(pool("c.pool", 5000));
    s.total_for_staking = 1000;
    s.staking_pools[2].staked = 400;
    // Shortfalls: a 250, b 250, c 100. The tie between a and b goes to a.
    let (inx, amount) = s.get_staking_pool_requiring_stake();
    assert_eq!((inx, amount), (0, 250));
    // A busy pool is skipped even with the largest shortfall.
    s.staking_pools[0].busy_lock = true;
    let (inx2, amount2) = s.get_staking_pool_requiring_stake();
    assert_eq!((inx2, amount2), (1, 250));
    // A weightless pool is never selected.
    s.staking_pools[1].weight_basis_points = 0;
    let (inx3, amount3) = s.get_staking_pool_requiring_stake();
    assert_eq!((inx3, amount3), (2, 100));
}

#[test]
fn stake_selection_nothing_needed() {
    let mut s = fresh();
    s.staking_pools.push(pool("a.pool", 10000));
    s.staking_pools[0].staked = 1000;
    s.total_for_staking = 1000;
    assert_eq!(s.get_staking_pool_requiring_stake(), (0, 0));
}

#[test]
fn unstake_selection_reports_aggregates() {
    let mut s = fresh();
    s.staking_pools.push(pool("a.pool", 2500));
    s.staking_pools.push(pool("b.pool", 2500));
    s.staking_pools.push(pool("c.pool", 5000));
    s.total_for_staking = 1000;
    // a holds 400 (150 over target 250), b holds 300 (50 over), c holds 500
    // (at target). b is blocked: a meaningful unstake from an earlier epoch.
    s.staking_pools[0].staked = 400;
    s.staking_pools[1].staked = 300;
    s.staking_pools[1].unstaked = 500;
    s.staking_pools[1].unstk_req_epoch_height = 1;
    s.staking_pools[2].staked = 500;
    let r = s.internal_get_staking_pool_requiring_unstake(5);
    assert_eq!(r.sp_inx, 0);
    assert_eq!(r.extra, 150);
    assert_eq!(r.count_with_stake, 3);
    assert_eq!(r.count_unblocked, 2);
    assert_eq!(r.total_extra, 150);
    // In the epoch the request started, b is unblocked again and counted.
    let r2 = s.internal_get_staking_pool_requiring_unstake(1);
    assert_eq!(r2.total_extra, 200);
    assert_eq!(r2.sp_inx, 0);
    assert_eq!(r2.count_unblocked, 2);
}

#[test]
fn nslp_share_conversions_price_the_whole_pool() {
    let mut s = fresh();
    // Stake-share price 2: the pool's 100 stake shares are worth 200, plus
    // 300 liquid, a pool value of 500 behind 250 pool shares (price 2).
    s.total_for_staking = 2000;
    s.total_stake_shares = 1000;
    assert_eq!(s.nslp_shares_from_amount(100, 300, 100, 250), 50);
    assert_eq!(s.amount_from_nslp_shares(50, 300, 100, 250), 100);
}

#[test]
fn nslp_internal_clearing_swaps_without_external_calls() {
    let mut s = fresh();
    s.total_for_staking = 1000;
    s.epoch_stake_orders = 400;
    s.total_stake_shares = 900;
    s.total_available = 50;
    s.nslp_try_internal_clearing(300, 270);
    assert_eq!(s.total_for_staking, 700);
    assert_eq!(s.epoch_stake_orders, 100);
    assert_eq!(s.total_available, 350);
    assert_eq!(s.total_stake_shares, 630);
}

#[test]
fn discount_curve_endpoints_and_middle() {
    let mut s = fresh();
    s.nslp_max_discount_basis_points = 180;
    s.nslp_min_discount_basis_points = 30;
    s.nslp_liquidity_target = 1000;
    // Draining the pool entirely: maximum discount.
    assert_eq!(s.internal_get_discount_basis_points(500, 700), 180);
    // Staying at or above target: minimum discount.
    assert_eq!(s.internal_get_discount_basis_points(2000, 500), 30);
    // Halfway to the target: halfway down the range.
    assert_eq!(s.internal_get_discount_basis_points(800, 300), 105);
}

#[test]
fn sell_through_pool_charges_the_discount() {
    let mut s = fresh();
    s.nslp_max_discount_basis_points = 180;
    s.nslp_min_discount_basis_points = 30;
    s.nslp_liquidity_target = 1000;
    s.total_for_staking = 2000;
    s.total_stake_shares = 1000;
    // 100 shares are worth 200; the pool stays above target, so the fee is
    // the minimum discount: 0.3% of 200, floored.
    let got = s.internal_get_near_amount_sell_stnear(5000, 100);
    assert_eq!(got, 200 - 200 * 30 / 10000);
}
