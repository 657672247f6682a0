use metapool::state::MetaPool;
use metapool::distribute::{StakeAction, UnstakeAction};
use metapool::pool::StakingPoolInfo;
use metapool::ONE_NEAR;

fn fresh() -> MetaPool {
    MetaPool::new("owner".to_string(), "operator".to_string())
}

fn pool(name: &str, weight: u16) -> StakingPoolInfo {
    StakingPoolInfo::new(name.to_string(), weight)
}

#[test]
fn scenario_a_equal_weights_two_rounds() {
    let mut s = fresh();
    s.staking_pools.push(pool("alpha.pool", 5000));
    s.staking_pools.push(pool("beta.pool", 5000));
    s.total_for_staking = 1000 * ONE_NEAR;
    s.total_actually_staked = 0;
    s.epoch_stake_orders = 1000 * ONE_NEAR;
    s.contract_account_balance = 1000 * ONE_NEAR;

    // First round: both pools fall 500 short; the lowest index wins the tie.
    let (again, action) = s.distribute_staking();
    assert!(again);
    assert_eq!(
        action,
        StakeAction::DepositAndStake { sp_inx: 0, amount: 500 * ONE_NEAR }
    );
    assert!(s.contract_busy);
    assert!(s.staking_pools[0].busy_lock);
    assert_eq!(s.total_actually_staked, 500 * ONE_NEAR);
    assert_eq!(s.epoch_stake_orders, 500 * ONE_NEAR);
    let ok = s.on_staking_pool_stake_maybe_deposit(0, 500 * ONE_NEAR, true, true);
    assert!(ok);
    assert!(!s.contract_busy);
    assert!(!s.staking_pools[0].busy_lock);
    assert_eq!(s.staking_pools[0].staked, 500 * ONE_NEAR);
    assert_eq!(s.contract_account_balance, 500 * ONE_NEAR);

    // Second round: only the other pool still falls short; no work remains.
    let (again2, action2) = s.distribute_staking();
    assert!(!again2);
    assert_eq!(
        action2,
        StakeAction::DepositAndStake { sp_inx: 1, amount: 500 * ONE_NEAR }
    );
    let ok2 = s.on_staking_pool_stake_maybe_deposit(1, 500 * ONE_NEAR, true, true);
    assert!(ok2);
    assert_eq!(s.staking_pools[1].staked, 500 * ONE_NEAR);
    assert_eq!(s.total_actually_staked, 1000 * ONE_NEAR);
    assert_eq!(s.epoch_stake_orders, 0);
    assert_eq!(s.contract_account_balance, 0);
}

#[test]
fn scenario_b_clearing_nets_orders_into_reserve() {
    let mut s = fresh();
    s.epoch_stake_orders = 1200;
    s.epoch_unstake_orders = 1000;
    s.total_unstake_claims = 5000;
    s.retrieved_for_unstake_claims = 0;
    s.end_of_epoch_clearing();
    assert_eq!(s.epoch_stake_orders, 200);
    assert_eq!(s.epoch_unstake_orders, 0);
    assert_eq!(s.retrieved_for_unstake_claims, 1000);
}

#[test]
fn scenario_c_small_unstaked_takes_deposit_path() {
    let mut s = fresh();
    s.staking_pools.push(pool("alpha.pool", 10000));
    s.staking_pools[0].unstaked = 50;
    s.epoch_stake_orders = 1000;
    s.total_actually_staked = 0;
    // 50 base units sit far below the ten-unit re-stake floor: the full 200
    // is deposited and staked in one call.
    let action = s.launch_direct_stake(0, 200);
    assert_eq!(action, StakeAction::DepositAndStake { sp_inx: 0, amount: 200 });
    assert_eq!(s.total_actually_staked, 200);
    assert_eq!(s.epoch_stake_orders, 800);
    assert_eq!(s.staking_pools[0].unstaked, 50);
}

#[test]
fn scenario_d_failed_unstake_reverts_exactly() {
    let mut s = fresh();
    s.staking_pools.push(pool("alpha.pool", 5000));
    s.staking_pools[0].staked = 1000;
    s.total_actually_staked = 1000;
    s.epoch_unstake_orders = 300;

    s.perform_unstake(0, 300, 0);
    assert!(s.contract_busy);
    assert!(s.staking_pools[0].busy_lock);
    assert_eq!(s.total_actually_staked, 700);
    assert_eq!(s.epoch_unstake_orders, 0);

    s.on_staking_pool_unstake(0, 300, 0, false, 7);
    assert!(!s.contract_busy);
    assert!(!s.staking_pools[0].busy_lock);
    assert_eq!(s.total_actually_staked, 1000);
    assert_eq!(s.epoch_unstake_orders, 300);
    assert_eq!(s.staking_pools[0].staked, 1000);
    assert_eq!(s.staking_pools[0].unstaked, 0);
}

#[test]
fn restake_path_clamps_to_pool_unstaked() {
    let mut s = fresh();
    s.staking_pools.push(pool("alpha.pool", 10000));
    s.staking_pools[0].unstaked = 20 * ONE_NEAR;
    s.epoch_stake_orders = 100 * ONE_NEAR;
    let action = s.manual_stake(0, 30 * ONE_NEAR);
    assert_eq!(
        action,
        StakeAction::Restake { sp_inx: 0, amount: 20 * ONE_NEAR }
    );
    assert_eq!(s.total_actually_staked, 20 * ONE_NEAR);
    assert_eq!(s.epoch_stake_orders, 80 * ONE_NEAR);
}

#[test]
fn restake_settlement_routes_through_reserve() {
    let mut s = fresh();
    s.staking_pools.push(pool("alpha.pool", 10000));
    s.staking_pools[0].unstaked = 20 * ONE_NEAR;
    s.epoch_stake_orders = 100 * ONE_NEAR;
    s.total_unstaked_and_waiting = 20 * ONE_NEAR;
    s.total_unstake_claims = 50 * ONE_NEAR;
    let action = s.manual_stake(0, 20 * ONE_NEAR);
    assert_eq!(
        action,
        StakeAction::Restake { sp_inx: 0, amount: 20 * ONE_NEAR }
    );
    let ok = s.on_staking_pool_stake_maybe_deposit(0, 20 * ONE_NEAR, false, true);
    assert!(ok);
    assert_eq!(s.staking_pools[0].staked, 20 * ONE_NEAR);
    assert_eq!(s.staking_pools[0].unstaked, 0);
    assert_eq!(s.total_unstaked_and_waiting, 0);
    // The money stayed in the contract and now backs unstake claims.
    assert_eq!(s.retrieved_for_unstake_claims, 20 * ONE_NEAR);
}

#[test]
fn failed_stake_reverts_exactly() {
    let mut s = fresh();
    s.staking_pools.push(pool("alpha.pool", 10000));
    s.epoch_stake_orders = 10 * ONE_NEAR;
    s.total_actually_staked = 3 * ONE_NEAR;
    let action = s.manual_stake(0, 2 * ONE_NEAR);
    assert_eq!(
        action,
        StakeAction::DepositAndStake { sp_inx: 0, amount: 2 * ONE_NEAR }
    );
    let ok = s.on_staking_pool_stake_maybe_deposit(0, 2 * ONE_NEAR, true, false);
    assert!(!ok);
    assert_eq!(s.epoch_stake_orders, 10 * ONE_NEAR);
    assert_eq!(s.total_actually_staked, 3 * ONE_NEAR);
    assert!(!s.contract_busy);
    assert!(!s.staking_pools[0].busy_lock);
}

#[test]
fn distribute_unstaking_piggybacks_rebalance() {
    let mut s = fresh();
    s.staking_pools.push(pool("alpha.pool", 5000));
    s.staking_pools[0].staked = 900 * ONE_NEAR;
    s.total_for_staking = 1000 * ONE_NEAR;
    s.total_actually_staked = 900 * ONE_NEAR;
    s.epoch_unstake_orders = 300 * ONE_NEAR;
    // Target is 500; surplus 400 exceeds the 300 ordered, so the headroom
    // under the 1% rebalance cap (10) piggybacks on the same call.
    let (again, action) = s.distribute_unstaking(3);
    assert!(!again);
    assert_eq!(
        action,
        UnstakeAction::Unstake {
            sp_inx: 0,
            amount_from_orders: 300 * ONE_NEAR,
            amount_from_rebalance: 10 * ONE_NEAR,
        }
    );
    assert_eq!(s.total_actually_staked, 590 * ONE_NEAR);
    assert_eq!(s.epoch_unstake_orders, 0);

    s.on_staking_pool_unstake(0, 300 * ONE_NEAR, 10 * ONE_NEAR, true, 3);
    assert_eq!(s.staking_pools[0].staked, 590 * ONE_NEAR);
    assert_eq!(s.staking_pools[0].unstaked, 310 * ONE_NEAR);
    assert_eq!(s.staking_pools[0].unstk_req_epoch_height, 3);
    assert_eq!(s.total_unstaked_and_waiting, 310 * ONE_NEAR);
    assert_eq!(s.unstaked_for_rebalance, 10 * ONE_NEAR);
}

#[test]
fn distribute_unstaking_pool_limited() {
    let mut s = fresh();
    s.staking_pools.push(pool("alpha.pool", 5000));
    s.staking_pools[0].staked = 600 * ONE_NEAR;
    s.total_for_staking = 1000 * ONE_NEAR;
    s.total_actually_staked = 600 * ONE_NEAR;
    s.epoch_unstake_orders = 300 * ONE_NEAR;
    // Surplus over target is only 100: the call is clamped to it.
    let (again, action) = s.distribute_unstaking(3);
    assert!(again);
    assert_eq!(
        action,
        UnstakeAction::Unstake {
            sp_inx: 0,
            amount_from_orders: 100 * ONE_NEAR,
            amount_from_rebalance: 0,
        }
    );
    assert_eq!(s.epoch_unstake_orders, 200 * ONE_NEAR);
}

#[test]
fn force_rebalance_unstake_takes_full_excess() {
    let mut s = fresh();
    s.staking_pools.push(pool("alpha.pool", 5000));
    s.staking_pools[0].staked = 800 * ONE_NEAR;
    s.total_for_staking = 1000 * ONE_NEAR;
    s.total_actually_staked = 800 * ONE_NEAR;
    let action = s.force_rebalance_unstake(0, 9);
    assert_eq!(
        action,
        UnstakeAction::Unstake {
            sp_inx: 0,
            amount_from_orders: 0,
            amount_from_rebalance: 300 * ONE_NEAR,
        }
    );
    assert_eq!(s.total_actually_staked, 500 * ONE_NEAR);
    assert!(s.contract_busy);
}

#[test]
fn do_rebalance_unstake_evacuates_zero_weight_pool() {
    let mut s = fresh();
    s.staking_pools.push(pool("alpha.pool", 0));
    s.staking_pools[0].staked = 50 * ONE_NEAR;
    s.total_for_staking = 1000 * ONE_NEAR;
    s.total_actually_staked = 50 * ONE_NEAR;
    // The cap is 1% of 1000: only 10 of the 50 surplus moves this round, and
    // no headroom remains, so no further call is requested.
    let (again, action) = s.do_rebalance_unstake(4);
    assert!(!again);
    assert_eq!(
        action,
        UnstakeAction::Unstake {
            sp_inx: 0,
            amount_from_orders: 0,
            amount_from_rebalance: 10 * ONE_NEAR,
        }
    );
    assert_eq!(s.total_actually_staked, 40 * ONE_NEAR);
}

#[test]
fn do_rebalance_unstake_skips_balanced_system() {
    let mut s = fresh();
    s.staking_pools.push(pool("alpha.pool", 10000));
    s.staking_pools[0].staked = 1000 * ONE_NEAR;
    s.total_for_staking = 1000 * ONE_NEAR;
    s.total_actually_staked = 1000 * ONE_NEAR;
    // No surplus beyond 0.05% of the target: the thresholds refuse the move.
    let (again, action) = s.do_rebalance_unstake(4);
    assert!(!again);
    assert_eq!(action, UnstakeAction::Idle);
    assert_eq!(s.total_actually_staked, 1000 * ONE_NEAR);
    assert!(!s.contract_busy);
}
