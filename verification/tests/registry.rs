use metapool::state::{ContractParamsJSON, MetaPool};
use metapool::pool::StakingPoolInfo;
use metapool::reward_meter::RewardMeter;
use metapool::{
    DEFAULT_OPERATOR_REWARDS_FEE_BP, DEFAULT_UNSTAKE_FOR_REBALANCE_CAP_BP, NEAR_CENT, ONE_NEAR,
};

fn fresh() -> MetaPool {
    MetaPool::new("owner".to_string(), "operator".to_string())
}

#[test]
fn new_contract_is_idle_and_empty() {
    let s = fresh();
    assert!(!s.contract_busy);
    assert_eq!(s.total_for_staking, 0);
    assert_eq!(s.staking_pools.len(), 0);
    assert_eq!(s.operator_rewards_fee_basis_points, DEFAULT_OPERATOR_REWARDS_FEE_BP);
    assert_eq!(s.unstake_for_rebalance_cap_bp, DEFAULT_UNSTAKE_FOR_REBALANCE_CAP_BP);
    assert_eq!(s.get_operator_account_id(), "operator".to_string());
}

#[test]
fn set_staking_pool_adds_then_updates() {
    let mut s = fresh();
    s.set_staking_pool("alpha.pool".to_string(), 4000);
    s.set_staking_pool("beta.pool".to_string(), 3000);
    assert_eq!(s.staking_pools.len(), 2);
    assert_eq!(s.staking_pools[0].weight_basis_points, 4000);
    assert_eq!(s.sum_staking_pool_list_weight_basis_points(), 7000);
    // The same account again only changes the weight.
    s.set_staking_pool("alpha.pool".to_string(), 6000);
    assert_eq!(s.staking_pools.len(), 2);
    assert_eq!(s.staking_pools[0].weight_basis_points, 6000);
    assert_eq!(s.sum_staking_pool_list_weight_basis_points(), 9000);
}

#[test]
fn set_staking_pool_weight_direct() {
    let mut s = fresh();
    s.set_staking_pool("alpha.pool".to_string(), 4000);
    s.set_staking_pool_weight(0, 9999);
    assert_eq!(s.staking_pools[0].weight_basis_points, 9999);
}

#[test]
fn remove_staking_pool_drops_empty_entry() {
    let mut s = fresh();
    s.set_staking_pool("alpha.pool".to_string(), 4000);
    s.set_staking_pool("beta.pool".to_string(), 3000);
    s.remove_staking_pool(0);
    assert_eq!(s.staking_pools.len(), 1);
    assert_eq!(s.staking_pools[0].account_id, "beta.pool".to_string());
}

#[test]
fn staking_pool_list_snapshots_every_record() {
    let mut s = fresh();
    s.set_staking_pool("alpha.pool".to_string(), 4000);
    s.staking_pools[0].staked = 123;
    s.staking_pools[0].unstaked = 45;
    s.staking_pools[0].unstk_req_epoch_height = 6;
    let list = s.get_staking_pool_list();
    assert_eq!(list.len(), 1);
    assert_eq!(list[0].account_id, "alpha.pool".to_string());
    assert_eq!(list[0].weight_basis_points, 4000);
    assert_eq!(list[0].staked, 123);
    assert_eq!(list[0].unstaked, 45);
    assert_eq!(list[0].unstaked_requested_epoch_height, 6);
}

#[test]
fn sp_info_reads_one_record() {
    let mut s = fresh();
    s.set_staking_pool("alpha.pool".to_string(), 4000);
    s.set_staking_pool("beta.pool".to_string(), 3000);
    s.staking_pools[1].staked = 55;
    let info = s.get_sp_info(1);
    assert_eq!(info.account_id, "beta.pool".to_string());
    assert_eq!(info.staked, 55);
}

#[test]
fn busy_overrides_flip_the_locks() {
    let mut s = fresh();
    s.set_staking_pool("alpha.pool".to_string(), 4000);
    s.set_busy(true);
    assert!(s.contract_busy);
    s.set_busy(false);
    assert!(!s.contract_busy);
    s.sp_busy(0, true);
    assert!(s.staking_pools[0].busy_lock);
    s.sp_busy(0, false);
    assert!(!s.staking_pools[0].busy_lock);
}

#[test]
fn pause_staking_sets_the_flag() {
    let mut s = fresh();
    s.pause_staking();
    assert!(s.staking_paused);
}

#[test]
fn contract_state_snapshot_matches_fields() {
    let mut s = fresh();
    s.set_staking_pool("alpha.pool".to_string(), 4000);
    s.total_available = 11;
    s.total_for_staking = 22;
    s.epoch_stake_orders = 33;
    let snap = s.get_contract_state();
    assert_eq!(snap.total_available, 11);
    assert_eq!(snap.total_for_staking, 22);
    assert_eq!(snap.epoch_stake_orders, 33);
    assert_eq!(snap.staking_pools_count, 1);
}

#[test]
fn contract_params_round_trip() {
    let mut s = fresh();
    let params = ContractParamsJSON {
        staking_paused: false,
        min_account_balance: 7,
        nslp_near_one_percent_target: 500,
        nslp_max_discount_basis_points: 150,
        nslp_min_discount_basis_points: 20,
        staker_meta_mult_pct: 400,
        stnear_sell_meta_mult_pct: 90,
        lp_provider_meta_mult_pct: 180,
        operator_rewards_fee_basis_points: 40,
        operator_swap_cut_basis_points: 30,
        treasury_swap_cut_basis_points: 20,
    };
    s.set_contract_params(params);
    assert_eq!(s.nslp_liquidity_target, 50_000);
    let read = s.get_contract_params();
    assert_eq!(read.min_account_balance, 7);
    assert_eq!(read.nslp_near_one_percent_target, 500);
    assert_eq!(read.operator_rewards_fee_basis_points, 40);
}

#[test]
fn contract_info_links_can_be_set_and_cleared() {
    let mut s = fresh();
    s.set_contract_info("https://app.example".to_string(), "auditor.example".to_string());
    assert_eq!(s.web_app_url, Some("https://app.example".to_string()));
    assert_eq!(s.auditor_account_id, Some("auditor.example".to_string()));
    s.set_contract_info(String::new(), String::new());
    assert_eq!(s.web_app_url, None);
    assert_eq!(s.auditor_account_id, None);
}

#[test]
fn known_deposited_balance_reads_the_total() {
    let mut s = fresh();
    s.total_actually_staked = 777;
    assert_eq!(s.get_known_deposited_balance(), 777);
}

#[test]
fn operator_account_can_be_replaced() {
    let mut s = fresh();
    s.set_operator_account_id("keeper".to_string());
    assert_eq!(s.get_operator_account_id(), "keeper".to_string());
}

#[test]
fn extra_balance_and_sweep_threshold() {
    let mut s = fresh();
    s.contract_account_balance = 10 * ONE_NEAR;
    assert_eq!(s.extra_balance_accumulated(10 * ONE_NEAR + 5), 5);
    assert_eq!(s.extra_balance_accumulated(9 * ONE_NEAR), 0);
    // Below one whole unit nothing is swept.
    assert_eq!(s.transfer_extra_balance_accumulated(10 * ONE_NEAR + 5), (0, 0));
    // At one unit and above, the sweep keeps ten cents behind for fees.
    let (reported, sent) = s.transfer_extra_balance_accumulated(12 * ONE_NEAR);
    assert_eq!(reported, 2 * ONE_NEAR);
    assert_eq!(sent, 2 * ONE_NEAR - 10 * NEAR_CENT);
}

#[test]
fn user_flow_ledger_hooks_move_the_counters() {
    let mut s = fresh();
    s.internal_deposit_attached_near(100 * ONE_NEAR);
    assert_eq!(s.contract_account_balance, 100 * ONE_NEAR);
    assert_eq!(s.total_available, 100 * ONE_NEAR);

    s.internal_stake_from_account(40 * ONE_NEAR, 40 * ONE_NEAR);
    assert_eq!(s.total_available, 60 * ONE_NEAR);
    assert_eq!(s.total_for_staking, 40 * ONE_NEAR);
    assert_eq!(s.epoch_stake_orders, 40 * ONE_NEAR);
    assert_eq!(s.total_stake_shares, 40 * ONE_NEAR);

    s.internal_unstake(10 * ONE_NEAR, 10 * ONE_NEAR);
    assert_eq!(s.total_for_staking, 30 * ONE_NEAR);
    assert_eq!(s.epoch_unstake_orders, 10 * ONE_NEAR);
    assert_eq!(s.total_unstake_claims, 10 * ONE_NEAR);
    assert_eq!(s.total_stake_shares, 30 * ONE_NEAR);

    s.end_of_epoch_clearing();
    assert_eq!(s.epoch_stake_orders, 30 * ONE_NEAR);
    assert_eq!(s.epoch_unstake_orders, 0);
    assert_eq!(s.retrieved_for_unstake_claims, 10 * ONE_NEAR);

    s.pay_unstake_claim(10 * ONE_NEAR);
    assert_eq!(s.total_unstake_claims, 0);
    assert_eq!(s.retrieved_for_unstake_claims, 0);
    assert_eq!(s.contract_account_balance, 90 * ONE_NEAR);

    s.take_from_available(60 * ONE_NEAR);
    s.native_transfer_to_predecessor(60 * ONE_NEAR);
    assert_eq!(s.total_available, 0);
    assert_eq!(s.contract_account_balance, 30 * ONE_NEAR);
    // Conservation holds at the end of the whole quiescent exchange.
    assert_eq!(
        s.contract_account_balance,
        s.total_available + s.retrieved_for_unstake_claims + s.epoch_stake_orders
    );
}

#[test]
fn reward_meter_tracks_the_delta() {
    let mut m = RewardMeter::default();
    assert_eq!(m.delta_staked, 0);
    assert_eq!(m.last_multiplier_pct, 100);
    m.stake(1000);
    m.unstake(300);
    assert_eq!(m.delta_staked, 700);
    m.unstake(900);
    assert_eq!(m.delta_staked, -200);
    m.reset(5000);
    assert_eq!(m.delta_staked, 5000);
    assert_eq!(m.last_multiplier_pct, 100);
}

#[test]
fn pool_record_basics() {
    let mut sp = StakingPoolInfo::new("alpha.pool".to_string(), 2500);
    assert!(sp.is_empty());
    sp.staked = 70;
    sp.unstaked = 5;
    assert!(!sp.is_empty());
    assert_eq!(sp.total_balance(), 75);
    sp.unstk_req_epoch_height = 10;
    assert!(!sp.wait_period_ended(13));
    assert!(sp.wait_period_ended(14));
}
