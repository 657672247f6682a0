use metapool::state::MetaPool;
use metapool::allocator::RetrieveResult;
use metapool::distribute::{StakeAction, SyncError};
use metapool::pool::StakingPoolInfo;
use metapool::{NUM_EPOCHS_TO_UNLOCK, ONE_NEAR};

fn fresh() -> MetaPool {
    MetaPool::new("owner".to_string(), "operator".to_string())
}

fn pool(name: &str, weight: u16) -> StakingPoolInfo {
    StakingPoolInfo::new(name.to_string(), weight)
}

#[test]
fn clearing_twice_is_a_no_op() {
    let mut s = fresh();
    s.epoch_stake_orders = 700;
    s.epoch_unstake_orders = 1000;
    s.total_unstake_claims = 900;
    s.end_of_epoch_clearing();
    assert_eq!(s.epoch_stake_orders, 0);
    assert_eq!(s.epoch_unstake_orders, 300);
    assert_eq!(s.retrieved_for_unstake_claims, 700);
    let snapshot = (
        s.epoch_stake_orders,
        s.epoch_unstake_orders,
        s.retrieved_for_unstake_claims,
        s.unstaked_for_rebalance,
    );
    s.end_of_epoch_clearing();
    assert_eq!(
        snapshot,
        (
            s.epoch_stake_orders,
            s.epoch_unstake_orders,
            s.retrieved_for_unstake_claims,
            s.unstaked_for_rebalance,
        )
    );
}

#[test]
fn clearing_pure_epoch_is_a_no_op() {
    let mut s = fresh();
    s.epoch_stake_orders = 0;
    s.epoch_unstake_orders = 800;
    s.end_of_epoch_clearing();
    assert_eq!(s.epoch_unstake_orders, 800);
    assert_eq!(s.retrieved_for_unstake_claims, 0);
}

#[test]
fn reserve_recycles_excess_into_stake_orders() {
    let mut s = fresh();
    s.total_unstake_claims = 100;
    s.retrieved_for_unstake_claims = 80;
    s.unstaked_for_rebalance = 40;
    s.epoch_stake_orders = 0;
    s.consider_retrieved_for_unstake_claims(50);
    // 130 would exceed the liability of 100: the 30 excess is recycled.
    assert_eq!(s.retrieved_for_unstake_claims, 100);
    assert_eq!(s.epoch_stake_orders, 30);
    assert_eq!(s.unstaked_for_rebalance, 10);
}

#[test]
fn reserve_keeps_everything_under_the_liability() {
    let mut s = fresh();
    s.total_unstake_claims = 100;
    s.retrieved_for_unstake_claims = 10;
    s.consider_retrieved_for_unstake_claims(50);
    assert_eq!(s.retrieved_for_unstake_claims, 60);
    assert_eq!(s.epoch_stake_orders, 0);
}

#[test]
fn distribute_staking_nothing_to_do() {
    let mut s = fresh();
    s.total_for_staking = 500;
    s.total_actually_staked = 500;
    let (again, action) = s.distribute_staking();
    assert!(!again);
    assert_eq!(action, StakeAction::Idle);
}

#[test]
fn distribute_staking_amount_below_minimum() {
    let mut s = fresh();
    s.staking_pools.push(pool("alpha.pool", 10000));
    s.total_for_staking = ONE_NEAR / 2;
    s.total_actually_staked = 0;
    s.epoch_stake_orders = ONE_NEAR / 2;
    let (again, action) = s.distribute_staking();
    assert!(!again);
    assert_eq!(action, StakeAction::Idle);
    assert_eq!(s.epoch_stake_orders, ONE_NEAR / 2);
}

#[test]
fn distribute_staking_no_orders_left() {
    let mut s = fresh();
    s.staking_pools.push(pool("alpha.pool", 10000));
    s.total_for_staking = 10 * ONE_NEAR;
    s.total_actually_staked = 0;
    s.epoch_stake_orders = 0;
    // The deficit came from a manual unstake, not from queued orders.
    let (again, action) = s.distribute_staking();
    assert!(!again);
    assert_eq!(action, StakeAction::Idle);
}

#[test]
fn distribute_staking_without_an_available_pool() {
    let mut s = fresh();
    s.total_for_staking = 10 * ONE_NEAR;
    s.total_actually_staked = 0;
    s.epoch_stake_orders = 10 * ONE_NEAR;
    // An empty registry gives the allocator nothing: no call goes out, but
    // the driver is asked to come back, since the work remains.
    let (again, action) = s.distribute_staking();
    assert!(again);
    assert_eq!(action, StakeAction::Idle);
    assert_eq!(s.epoch_stake_orders, 10 * ONE_NEAR);
    assert!(!s.contract_busy);
    // A single busy pool is no better.
    s.staking_pools.push(pool("alpha.pool", 10000));
    s.staking_pools[0].busy_lock = true;
    let (again2, action2) = s.distribute_staking();
    assert!(again2);
    assert_eq!(action2, StakeAction::Idle);
}

#[test]
fn retrieve_search_reports_first_ready_pool() {
    let mut s = fresh();
    s.staking_pools.push(pool("a.pool", 2000));
    s.staking_pools.push(pool("b.pool", 2000));
    s.staking_pools.push(pool("c.pool", 2000));
    s.staking_pools.push(pool("d.pool", 2000));
    // a: nothing unstaked. b: unstaked, still waiting. c: matured but busy.
    // d: matured and free.
    s.staking_pools[1].unstaked = 5;
    s.staking_pools[1].unstk_req_epoch_height = 10;
    s.staking_pools[2].unstaked = 7;
    s.staking_pools[2].unstk_req_epoch_height = 1;
    s.staking_pools[2].busy_lock = true;
    s.staking_pools[3].unstaked = 9;
    s.staking_pools[3].unstk_req_epoch_height = 1;
    let epoch = 1 + NUM_EPOCHS_TO_UNLOCK;
    assert_eq!(s.get_staking_pool_requiring_retrieve(epoch), RetrieveResult::Ready(3));

    s.staking_pools[3].busy_lock = true;
    assert_eq!(s.get_staking_pool_requiring_retrieve(epoch), RetrieveResult::ReadyButBusy);

    s.staking_pools[2].unstaked = 0;
    s.staking_pools[3].unstaked = 0;
    assert_eq!(
        s.get_staking_pool_requiring_retrieve(epoch),
        RetrieveResult::WaitingForUnlock
    );

    s.staking_pools[1].unstaked = 0;
    assert_eq!(s.get_staking_pool_requiring_retrieve(epoch), RetrieveResult::NotFound);
}

#[test]
fn retrieval_credits_balance_and_reserve() {
    let mut s = fresh();
    s.staking_pools.push(pool("alpha.pool", 10000));
    s.staking_pools[0].unstaked = 100 * ONE_NEAR;
    s.staking_pools[0].unstk_req_epoch_height = 1;
    s.total_unstaked_and_waiting = 100 * ONE_NEAR;
    s.total_unstake_claims = 150 * ONE_NEAR;
    let epoch = 1 + NUM_EPOCHS_TO_UNLOCK;
    s.retrieve_funds_from_a_pool(0, epoch);
    assert!(s.contract_busy);
    assert!(s.staking_pools[0].busy_lock);
    let got = s.on_retrieve_from_staking_pool(0, true);
    assert_eq!(got, 100 * ONE_NEAR);
    assert_eq!(s.staking_pools[0].unstaked, 0);
    assert_eq!(s.total_unstaked_and_waiting, 0);
    assert_eq!(s.contract_account_balance, 100 * ONE_NEAR);
    assert_eq!(s.retrieved_for_unstake_claims, 100 * ONE_NEAR);
    assert!(!s.contract_busy);
    assert!(!s.staking_pools[0].busy_lock);
}

#[test]
fn failed_retrieval_changes_nothing_but_locks() {
    let mut s = fresh();
    s.staking_pools.push(pool("alpha.pool", 10000));
    s.staking_pools[0].unstaked = 100;
    s.staking_pools[0].unstk_req_epoch_height = 1;
    s.total_unstaked_and_waiting = 100;
    let epoch = 1 + NUM_EPOCHS_TO_UNLOCK;
    s.retrieve_funds_from_a_pool(0, epoch);
    let got = s.on_retrieve_from_staking_pool(0, false);
    assert_eq!(got, 0);
    assert_eq!(s.staking_pools[0].unstaked, 100);
    assert_eq!(s.total_unstaked_and_waiting, 100);
    assert_eq!(s.contract_account_balance, 0);
    assert!(!s.contract_busy);
    assert!(!s.staking_pools[0].busy_lock);
}

#[test]
fn sync_applies_drift_in_both_directions() {
    let mut s = fresh();
    s.staking_pools.push(pool("alpha.pool", 10000));
    s.staking_pools[0].staked = 500;
    s.staking_pools[0].unstaked = 100;
    assert_eq!(s.sync_unstaked_balance(0), "alpha.pool".to_string());
    // The pool reports less unstaked: the difference was staked after all.
    assert!(s.on_get_sp_unstaked_balance(0, 90).is_ok());
    assert_eq!(s.staking_pools[0].unstaked, 90);
    assert_eq!(s.staking_pools[0].staked, 510);
    // The pool reports more unstaked: the difference left our staked record.
    assert!(s.on_get_sp_unstaked_balance(0, 120).is_ok());
    assert_eq!(s.staking_pools[0].unstaked, 120);
    assert_eq!(s.staking_pools[0].staked, 480);
}

#[test]
fn sync_rejects_stale_answer_during_operation() {
    let mut s = fresh();
    s.staking_pools.push(pool("alpha.pool", 10000));
    s.staking_pools[0].staked = 500;
    s.staking_pools[0].unstaked = 100;
    s.contract_busy = true;
    let r = s.on_get_sp_unstaked_balance(0, 90);
    assert_eq!(r, Err(SyncError::OperationInFlight));
    assert_eq!(s.staking_pools[0].unstaked, 100);
    assert_eq!(s.staking_pools[0].staked, 500);
    // An answer that changes nothing is harmless even mid-operation.
    assert!(s.on_get_sp_unstaked_balance(0, 100).is_ok());
    assert_eq!(s.staking_pools[0].unstaked, 100);
}

#[test]
fn rewards_skip_and_once_per_epoch() {
    let mut s = fresh();
    s.staking_pools.push(pool("alpha.pool", 10000));
    // Nothing in the pool: no query.
    assert!(!s.distribute_rewards(0, 5));
    s.staking_pools[0].staked = 100;
    s.staking_pools[0].last_asked_rewards_epoch_height = 5;
    // Already asked this epoch: no query.
    assert!(!s.distribute_rewards(0, 5));
    // A later epoch launches the query and takes the locks.
    assert!(s.distribute_rewards(0, 6));
    assert!(s.contract_busy);
    assert!(s.staking_pools[0].busy_lock);
}

#[test]
fn rewards_mint_fee_shares_and_raise_totals() {
    let mut s = fresh();
    s.staking_pools.push(pool("alpha.pool", 10000));
    s.staking_pools[0].staked = 1000 * ONE_NEAR;
    s.total_for_staking = 1000 * ONE_NEAR;
    s.total_actually_staked = 1000 * ONE_NEAR;
    s.total_stake_shares = 0;
    assert!(s.distribute_rewards(0, 8));
    let (op_shares, dev_shares) = s.on_get_sp_total_balance(0, 1100 * ONE_NEAR, 8);
    // 100 rewards: 0.5% to the operator, 0.2% to the maintainers, minted at
    // the bootstrap one-to-one share price.
    assert_eq!(op_shares, ONE_NEAR / 2);
    assert_eq!(dev_shares, ONE_NEAR / 5);
    assert_eq!(s.accumulated_staked_rewards, 100 * ONE_NEAR);
    assert_eq!(s.total_for_staking, 1100 * ONE_NEAR);
    assert_eq!(s.total_actually_staked, 1100 * ONE_NEAR);
    assert_eq!(s.total_stake_shares, ONE_NEAR / 2 + ONE_NEAR / 5);
    assert_eq!(s.staking_pools[0].staked, 1100 * ONE_NEAR);
    assert_eq!(s.staking_pools[0].last_asked_rewards_epoch_height, 8);
    assert!(!s.contract_busy);
    assert!(!s.staking_pools[0].busy_lock);
}

#[test]
fn rewards_shortfall_counts_as_zero() {
    let mut s = fresh();
    s.staking_pools.push(pool("alpha.pool", 10000));
    s.staking_pools[0].staked = 1000;
    s.total_for_staking = 1000;
    s.total_actually_staked = 1000;
    assert!(s.distribute_rewards(0, 8));
    let (op_shares, dev_shares) = s.on_get_sp_total_balance(0, 900, 8);
    assert_eq!((op_shares, dev_shares), (0, 0));
    assert_eq!(s.accumulated_staked_rewards, 0);
    assert_eq!(s.total_for_staking, 1000);
    // The pool's record takes the reported total anyway.
    assert_eq!(s.staking_pools[0].staked, 900);
}

#[test]
fn unstaking_delay_depends_on_free_capacity() {
    let mut s = fresh();
    s.staking_pools.push(pool("a.pool", 5000));
    s.staking_pools.push(pool("b.pool", 5000));
    s.staking_pools[0].staked = 600;
    s.staking_pools[1].staked = 600;
    // Every pool is past its delay and together they cover the amount.
    assert_eq!(s.internal_compute_current_unstaking_delay(1000, 10), NUM_EPOCHS_TO_UNLOCK);
    assert_eq!(s.compute_current_unstaking_delay(1000, 10), NUM_EPOCHS_TO_UNLOCK as u16);
    // Both pools started an unstake recently: the wait doubles.
    s.staking_pools[0].unstk_req_epoch_height = 9;
    s.staking_pools[1].unstk_req_epoch_height = 9;
    assert_eq!(
        s.internal_compute_current_unstaking_delay(1000, 10),
        2 * NUM_EPOCHS_TO_UNLOCK
    );
    // Nothing staked at all: the normal delay applies.
    s.staking_pools[0].staked = 0;
    s.staking_pools[1].staked = 0;
    assert_eq!(s.internal_compute_current_unstaking_delay(1000, 10), NUM_EPOCHS_TO_UNLOCK);
}
