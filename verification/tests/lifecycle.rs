use metapool::state::MetaPool;
use metapool::allocator::RetrieveResult;
use metapool::distribute::{StakeAction, UnstakeAction};
use metapool::ONE_NEAR;

/// Money the contract holds is users' liquid balance, reserve for claims, or
/// queued stake orders — checked at every quiescent point of the run.
fn assert_conserved(s: &MetaPool) {
    assert!(!s.contract_busy);
    assert_eq!(
        s.contract_account_balance,
        s.total_available + s.retrieved_for_unstake_claims + s.epoch_stake_orders
    );
    assert!(s.total_unstake_claims >= s.retrieved_for_unstake_claims);
}

#[test]
fn full_cycle_conserves_the_ledger() {
    let n = ONE_NEAR;
    let mut s = MetaPool::new("owner".to_string(), "operator".to_string());
    s.set_staking_pool("alpha.pool".to_string(), 6000);
    s.set_staking_pool("beta.pool".to_string(), 4000);
    assert_conserved(&s);

    // A user deposits 1000 and stakes it all; shares mint one to one.
    s.internal_deposit_attached_near(1000 * n);
    s.internal_stake_from_account(1000 * n, 1000 * n);
    assert_conserved(&s);

    // The driver distributes the stake order across both pools.
    let (again, action) = s.distribute_staking();
    assert!(again);
    assert_eq!(action, StakeAction::DepositAndStake { sp_inx: 0, amount: 600 * n });
    s.on_staking_pool_stake_maybe_deposit(0, 600 * n, true, true);
    assert_conserved(&s);
    let (again, action) = s.distribute_staking();
    assert!(!again);
    assert_eq!(action, StakeAction::DepositAndStake { sp_inx: 1, amount: 400 * n });
    s.on_staking_pool_stake_maybe_deposit(1, 400 * n, true, true);
    assert_conserved(&s);
    assert_eq!(s.total_actually_staked, 1000 * n);
    assert_eq!(s.contract_account_balance, 0);

    // An epoch later the first pool reports rewards; both totals rise alike.
    let epoch = 1;
    assert!(s.distribute_rewards(0, epoch));
    s.on_get_sp_total_balance(0, 660 * n, epoch);
    assert_conserved(&s);
    assert_eq!(s.total_for_staking, 1060 * n);
    assert_eq!(s.total_actually_staked, 1060 * n);
    assert_eq!(s.staking_pools[0].staked, 660 * n);

    // The user starts a delayed unstake of 200 worth of value.
    s.internal_unstake(200 * n, 180 * n);
    assert_conserved(&s);
    assert_eq!(s.total_for_staking, 860 * n);
    assert_eq!(s.total_unstake_claims, 200 * n);

    // The driver distributes the unstake: the pool furthest over target
    // first, then what remains of the order.
    let (again, action) = s.distribute_unstaking(epoch);
    assert!(again);
    assert_eq!(
        action,
        UnstakeAction::Unstake {
            sp_inx: 0,
            amount_from_orders: 144 * n,
            amount_from_rebalance: 0,
        }
    );
    s.on_staking_pool_unstake(0, 144 * n, 0, true, epoch);
    assert_conserved(&s);
    // The remainder comes from the other pool, now the one furthest over.
    let (again, action) = s.distribute_unstaking(epoch);
    assert!(!again);
    assert_eq!(
        action,
        UnstakeAction::Unstake {
            sp_inx: 1,
            amount_from_orders: 56 * n,
            amount_from_rebalance: 0,
        }
    );
    s.on_staking_pool_unstake(1, 56 * n, 0, true, epoch);
    assert_conserved(&s);
    assert_eq!(s.epoch_unstake_orders, 0);
    assert_eq!(s.staking_pools[0].unstaked, 144 * n);
    assert_eq!(s.staking_pools[1].unstaked, 56 * n);
    assert_eq!(s.total_unstaked_and_waiting, 200 * n);

    // Before maturity nothing can be retrieved.
    assert_eq!(
        s.get_staking_pool_requiring_retrieve(epoch + 1),
        RetrieveResult::WaitingForUnlock
    );

    // The unlock delay passes; a sync confirms the tracked balance, and the
    // matured funds come home into the claims reserve, pool by pool.
    let later = epoch + 4;
    assert!(s.on_get_sp_unstaked_balance(0, 144 * n).is_ok());
    assert_eq!(s.get_staking_pool_requiring_retrieve(later), RetrieveResult::Ready(0));
    s.retrieve_funds_from_a_pool(0, later);
    let got = s.on_retrieve_from_staking_pool(0, true);
    assert_eq!(got, 144 * n);
    assert_conserved(&s);
    assert_eq!(s.get_staking_pool_requiring_retrieve(later), RetrieveResult::Ready(1));
    s.retrieve_funds_from_a_pool(1, later);
    let got = s.on_retrieve_from_staking_pool(1, true);
    assert_eq!(got, 56 * n);
    assert_conserved(&s);
    assert_eq!(s.retrieved_for_unstake_claims, 200 * n);
    assert_eq!(s.total_unstaked_and_waiting, 0);

    // The user collects the matured claim.
    s.pay_unstake_claim(200 * n);
    assert_conserved(&s);
    assert_eq!(s.total_unstake_claims, 0);
    assert_eq!(s.contract_account_balance, 0);

    // The books close balanced: target met exactly, pools hold the rest.
    assert_eq!(s.total_for_staking, 860 * n);
    assert_eq!(s.total_actually_staked, 860 * n);
    assert_eq!(s.staking_pools[0].staked + s.staking_pools[1].staked, 860 * n);
}
