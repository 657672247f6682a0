//! The laws the ledger obeys, proved over the transition spec functions that
//! the operations' contracts name: conservation of the contract balance,
//! claims coverage, idempotence of the end-of-epoch clearing, busy-pool
//! avoidance of the allocators, and exact reversal of every failed call.
use vstd::prelude::*;
use vstd::math::min;
use crate::allocator::{spec_select_stake, spec_select_unstake};
use crate::distribute::{
    spec_clearing, spec_clearing_fits, spec_launch_stake, spec_launch_stake_amount,
    spec_perform_unstake, spec_reserve, spec_reserve_fits, spec_retrieve_settled,
    spec_locks_taken, spec_rewards_settled, spec_rewards_fits, spec_stake_settled,
    spec_sync_applied, spec_unstake_settled,
};
use crate::pool::StakingPoolInfo;
use crate::state::LedgerView;
use crate::TEN_NEAR;

verus! {

/// The reserve step moves value between its counters but never creates or
/// destroys any: reserve plus stake orders grow by exactly the amount taken
/// in, and the reserve never ends above the liability it backs.
pub proof fn lemma_reserve_sums(s: LedgerView, amount: int)
    requires
        0 <= amount,
        spec_reserve_fits(s, amount),
        s.total_unstake_claims >= s.retrieved_for_unstake_claims,
    ensures
        spec_reserve(s, amount).retrieved_for_unstake_claims
            + spec_reserve(s, amount).epoch_stake_orders
            == s.retrieved_for_unstake_claims + s.epoch_stake_orders + amount,
        spec_reserve(s, amount).total_unstake_claims
            >= spec_reserve(s, amount).retrieved_for_unstake_claims,
        spec_reserve(s, amount).contract_account_balance == s.contract_account_balance,
        spec_reserve(s, amount).total_available == s.total_available,
        spec_reserve(s, amount).total_for_staking == s.total_for_staking,
        spec_reserve(s, amount).total_actually_staked == s.total_actually_staked,
        spec_reserve(s, amount).epoch_unstake_orders == s.epoch_unstake_orders,
        spec_reserve(s, amount).epoch_stake_orders >= s.epoch_stake_orders,
{
}

/// Conservation: money the contract holds is users' liquid balance, reserve
/// for claims, or queued stake orders — and end-of-epoch clearing keeps it
/// so, since colliding orders cancel into the reserve without any money
/// moving.
pub proof fn lemma_clearing_conserves(s: LedgerView)
    requires
        spec_clearing_fits(s),
        s.conserved(),
        s.total_unstake_claims >= s.retrieved_for_unstake_claims,
    ensures
        spec_clearing(s).conserved(),
{
    if s.epoch_stake_orders > 0 && s.epoch_unstake_orders > 0 {
        let to_keep = min(s.epoch_stake_orders as int, s.epoch_unstake_orders as int);
        let mid = LedgerView {
            epoch_stake_orders: (s.epoch_stake_orders - to_keep) as u128,
            epoch_unstake_orders: (s.epoch_unstake_orders - to_keep) as u128,
            ..s
        };
        lemma_reserve_sums(mid, to_keep);
    }
}

/// Claims coverage across clearing: while the claims liability covers the
/// reserve plus the netted amount, the reserve stays within the liability
/// and any staking deficit stays covered by the net unstake orders.
pub proof fn lemma_clearing_claims_covered(s: LedgerView)
    requires
        spec_clearing_fits(s),
        s.claims_covered(),
        s.total_unstake_claims >= s.retrieved_for_unstake_claims + min(
            s.epoch_stake_orders as int,
            s.epoch_unstake_orders as int,
        ),
    ensures
        spec_clearing(s).claims_covered(),
{
}

/// Idempotent clearing: with the netted amount fully backed by the claims
/// liability, running the end-of-epoch clearing twice in a row changes
/// nothing the second time — after the first run one of the two order
/// counters is already zero.
pub proof fn lemma_clearing_idempotent(s: LedgerView)
    requires
        spec_clearing_fits(s),
        s.total_unstake_claims >= s.retrieved_for_unstake_claims + min(
            s.epoch_stake_orders as int,
            s.epoch_unstake_orders as int,
        ),
    ensures
        spec_clearing(spec_clearing(s)) == spec_clearing(s),
        spec_clearing(s).epoch_stake_orders == 0 || spec_clearing(s).epoch_unstake_orders == 0,
{
    assert(spec_clearing(spec_clearing(s)) =~= spec_clearing(s));
}

/// Even when clearing recycles an excess over the claims liability into new
/// stake orders, a second run reproduces the same stake orders and the same
/// reserve: only there can a second run still shrink the unstake orders.
pub proof fn lemma_clearing_stake_orders_idempotent(s: LedgerView)
    requires
        spec_clearing_fits(s),
        spec_clearing_fits(spec_clearing(s)),
    ensures
        spec_clearing(spec_clearing(s)).epoch_stake_orders == spec_clearing(s).epoch_stake_orders,
        spec_clearing(spec_clearing(s)).retrieved_for_unstake_claims
            == spec_clearing(s).retrieved_for_unstake_claims,
{
}

/// The stake allocator never proposes a busy pool: whenever it reports a
/// positive shortfall, the chosen pool has no call in flight.
pub proof fn lemma_stake_selection_avoids_busy(pools: Seq<StakingPoolInfo>, tfs: u128, n: int)
    requires
        n <= pools.len(),
    ensures
        spec_select_stake(pools, tfs, n).1 > 0 ==> {
            let sel = spec_select_stake(pools, tfs, n);
            &&& 0 <= sel.0 < n
            &&& !pools[sel.0].busy_lock
        },
    decreases n,
{
    if n > 0 {
        lemma_stake_selection_avoids_busy(pools, tfs, n - 1);
    }
}

/// The unstake allocator never proposes a busy pool either.
pub proof fn lemma_unstake_selection_avoids_busy(
    pools: Seq<StakingPoolInfo>,
    tfs: u128,
    epoch: u64,
    n: int,
)
    requires
        n <= pools.len(),
    ensures
        spec_select_unstake(pools, tfs, epoch, n).1 > 0 ==> {
            let sel = spec_select_unstake(pools, tfs, epoch, n);
            &&& 0 <= sel.0 < n
            &&& !pools[sel.0].busy_lock
        },
    decreases n,
{
    if n > 0 {
        lemma_unstake_selection_avoids_busy(pools, tfs, epoch, n - 1);
    }
}

/// Reversibility of staking: a stake launch followed by a failed settlement
/// restores every counter and both busy locks to exactly their prior state.
pub proof fn lemma_stake_flow_reverts(s: LedgerView, sp_inx: int, amount: u128, dep: bool)
    requires
        !s.contract_busy,
        amount > 0 ==> 0 <= sp_inx < s.staking_pools.len()
            && !s.staking_pools[sp_inx].busy_lock,
        amount <= s.epoch_stake_orders,
        s.total_actually_staked + amount <= u128::MAX,
    ensures
        ({
            let actual = spec_launch_stake_amount(s, sp_inx, amount) as u128;
            amount > 0 ==> spec_stake_settled(
                spec_launch_stake(s, sp_inx, amount),
                sp_inx,
                actual,
                dep,
                false,
            ) == s
        }),
{
    if amount > 0 {
        let actual = spec_launch_stake_amount(s, sp_inx, amount) as u128;
        assert(spec_stake_settled(spec_launch_stake(s, sp_inx, amount), sp_inx, actual, dep, false)
            =~~= s);
    }
}

/// Reversibility of unstaking: an unstake launch followed by a failed
/// settlement restores every counter and both busy locks exactly.
pub proof fn lemma_unstake_flow_reverts(s: LedgerView, sp_inx: int, afo: u128, afr: u128, epoch: u64)
    requires
        !s.contract_busy,
        afo + afr <= u128::MAX,
        afo + afr > 0 ==> 0 <= sp_inx < s.staking_pools.len()
            && !s.staking_pools[sp_inx].busy_lock,
        s.total_actually_staked >= afo + afr,
        afo <= s.epoch_unstake_orders,
    ensures
        afo + afr > 0 ==> spec_unstake_settled(
            spec_perform_unstake(s, sp_inx, afo, afr),
            sp_inx,
            afo,
            afr,
            false,
            epoch,
        ) == s,
{
    if afo + afr > 0 {
        assert(spec_unstake_settled(
            spec_perform_unstake(s, sp_inx, afo, afr),
            sp_inx,
            afo,
            afr,
            false,
            epoch,
        ) =~~= s);
    }
}

/// Reversibility of retrieval: a started retrieval whose withdraw-all call
/// fails settles back to exactly the prior state.
pub proof fn lemma_retrieve_flow_reverts(s: LedgerView, sp_inx: int)
    requires
        !s.contract_busy,
        0 <= sp_inx < s.staking_pools.len(),
        !s.staking_pools[sp_inx].busy_lock,
    ensures
        spec_retrieve_settled(spec_locks_taken(s, sp_inx), sp_inx, false) == s,
{
    assert(spec_retrieve_settled(spec_locks_taken(s, sp_inx), sp_inx, false) =~~= s);
}

/// Conservation across a whole stake operation: launch plus settlement, on
/// either outcome and by either path, keeps the contract balance equal to
/// the liquid total plus the reserve plus the queued stake orders.
pub proof fn lemma_stake_flow_conserves(s: LedgerView, sp_inx: int, amount: u128, success: bool)
    requires
        amount > 0 ==> 0 <= sp_inx < s.staking_pools.len(),
        amount <= s.epoch_stake_orders,
        s.total_actually_staked + amount <= u128::MAX,
        s.conserved(),
        s.total_unstake_claims >= s.retrieved_for_unstake_claims,
        ({
            // The settlement's own machine-range conditions.
            let s1 = spec_launch_stake(s, sp_inx, amount);
            let actual = spec_launch_stake_amount(s, sp_inx, amount) as u128;
            let dep = s.staking_pools[sp_inx].unstaked < TEN_NEAR;
            amount > 0 && success ==> {
                &&& s1.staking_pools[sp_inx].staked + actual <= u128::MAX
                &&& (!dep ==> actual <= s1.staking_pools[sp_inx].unstaked
                    && actual <= s1.total_unstaked_and_waiting
                    && spec_reserve_fits(
                    crate::distribute::spec_stake_settled_pre_reserve(s1, sp_inx, actual),
                    actual as int,
                ))
                &&& (dep ==> actual <= s1.contract_account_balance)
            }
        }),
    ensures
        ({
            let s1 = spec_launch_stake(s, sp_inx, amount);
            let actual = spec_launch_stake_amount(s, sp_inx, amount) as u128;
            let dep = s.staking_pools[sp_inx].unstaked < TEN_NEAR;
            amount > 0 ==> spec_stake_settled(s1, sp_inx, actual, dep, success).conserved()
        }),
{
    if amount > 0 {
        let s1 = spec_launch_stake(s, sp_inx, amount);
        let actual = spec_launch_stake_amount(s, sp_inx, amount) as u128;
        let dep = s.staking_pools[sp_inx].unstaked < TEN_NEAR;
        if success && !dep {
            let mid = crate::distribute::spec_stake_settled_pre_reserve(s1, sp_inx, actual);
            lemma_reserve_sums(mid, actual as int);
        }
    }
}

/// Claims coverage across a whole stake operation that stays within the
/// staking target, as every allocator-driven stake does. (A manual stake
/// pushed past `total_for_staking` is not covered: over-staking on purpose
/// can exceed what the epoch's net unstake orders account for.)
pub proof fn lemma_stake_flow_claims_covered(
    s: LedgerView,
    sp_inx: int,
    amount: u128,
    success: bool,
)
    requires
        amount > 0 ==> 0 <= sp_inx < s.staking_pools.len(),
        amount <= s.epoch_stake_orders,
        s.total_actually_staked + amount <= s.total_for_staking,
        s.claims_covered(),
        ({
            let s1 = spec_launch_stake(s, sp_inx, amount);
            let actual = spec_launch_stake_amount(s, sp_inx, amount) as u128;
            let dep = s.staking_pools[sp_inx].unstaked < TEN_NEAR;
            amount > 0 && success ==> {
                &&& s1.staking_pools[sp_inx].staked + actual <= u128::MAX
                &&& (!dep ==> actual <= s1.staking_pools[sp_inx].unstaked
                    && actual <= s1.total_unstaked_and_waiting
                    && spec_reserve_fits(
                    crate::distribute::spec_stake_settled_pre_reserve(s1, sp_inx, actual),
                    actual as int,
                ))
                &&& (dep ==> actual <= s1.contract_account_balance)
            }
        }),
    ensures
        ({
            let s1 = spec_launch_stake(s, sp_inx, amount);
            let actual = spec_launch_stake_amount(s, sp_inx, amount) as u128;
            let dep = s.staking_pools[sp_inx].unstaked < TEN_NEAR;
            amount > 0 ==> spec_stake_settled(s1, sp_inx, actual, dep, success).claims_covered()
        }),
{
}

/// Conservation and claims coverage across every ledger side of the user
/// flows: a deposit, taking from the liquid balance together with its
/// outbound transfer, a stake order, a delayed-unstake order, the liquidity
/// pool's internal clearing, and the payout of a matured claim.
pub proof fn lemma_user_flows_preserve_invariants(s: LedgerView, amount: u128, shares: u128)
    requires
        s.conserved(),
        s.claims_covered(),
    ensures
        s.contract_account_balance + amount <= u128::MAX && s.total_available + amount
            <= u128::MAX ==> (LedgerView {
            contract_account_balance: (s.contract_account_balance + amount) as u128,
            total_available: (s.total_available + amount) as u128,
            ..s
        }).conserved() && (LedgerView {
            contract_account_balance: (s.contract_account_balance + amount) as u128,
            total_available: (s.total_available + amount) as u128,
            ..s
        }).claims_covered(),
        amount <= s.total_available && amount <= s.contract_account_balance ==> (LedgerView {
            contract_account_balance: (s.contract_account_balance - amount) as u128,
            total_available: (s.total_available - amount) as u128,
            ..s
        }).conserved() && (LedgerView {
            contract_account_balance: (s.contract_account_balance - amount) as u128,
            total_available: (s.total_available - amount) as u128,
            ..s
        }).claims_covered(),
        amount <= s.total_available && s.total_for_staking + amount <= u128::MAX
            && s.epoch_stake_orders + amount <= u128::MAX && s.total_stake_shares + shares
            <= u128::MAX ==> (LedgerView {
            total_available: (s.total_available - amount) as u128,
            total_for_staking: (s.total_for_staking + amount) as u128,
            epoch_stake_orders: (s.epoch_stake_orders + amount) as u128,
            total_stake_shares: (s.total_stake_shares + shares) as u128,
            ..s
        }).conserved() && (LedgerView {
            total_available: (s.total_available - amount) as u128,
            total_for_staking: (s.total_for_staking + amount) as u128,
            epoch_stake_orders: (s.epoch_stake_orders + amount) as u128,
            total_stake_shares: (s.total_stake_shares + shares) as u128,
            ..s
        }).claims_covered(),
        amount <= s.total_for_staking && shares <= s.total_stake_shares
            && s.epoch_unstake_orders + amount <= u128::MAX && s.total_unstake_claims + amount
            <= u128::MAX && s.total_actually_staked + s.epoch_stake_orders
            <= s.total_for_staking + s.epoch_unstake_orders ==> (LedgerView {
            total_for_staking: (s.total_for_staking - amount) as u128,
            epoch_unstake_orders: (s.epoch_unstake_orders + amount) as u128,
            total_unstake_claims: (s.total_unstake_claims + amount) as u128,
            total_stake_shares: (s.total_stake_shares - shares) as u128,
            ..s
        }).conserved() && (LedgerView {
            total_for_staking: (s.total_for_staking - amount) as u128,
            epoch_unstake_orders: (s.epoch_unstake_orders + amount) as u128,
            total_unstake_claims: (s.total_unstake_claims + amount) as u128,
            total_stake_shares: (s.total_stake_shares - shares) as u128,
            ..s
        }).claims_covered(),
        amount <= s.epoch_stake_orders && amount <= s.total_for_staking
            && shares <= s.total_stake_shares && s.total_available + amount <= u128::MAX
            && s.total_for_staking - amount >= s.total_actually_staked ==> (LedgerView {
            total_for_staking: (s.total_for_staking - amount) as u128,
            epoch_stake_orders: (s.epoch_stake_orders - amount) as u128,
            total_available: (s.total_available + amount) as u128,
            total_stake_shares: (s.total_stake_shares - shares) as u128,
            ..s
        }).conserved() && (LedgerView {
            total_for_staking: (s.total_for_staking - amount) as u128,
            epoch_stake_orders: (s.epoch_stake_orders - amount) as u128,
            total_available: (s.total_available + amount) as u128,
            total_stake_shares: (s.total_stake_shares - shares) as u128,
            ..s
        }).claims_covered(),
        amount <= s.total_unstake_claims && amount <= s.retrieved_for_unstake_claims
            && amount <= s.contract_account_balance ==> (LedgerView {
            total_unstake_claims: (s.total_unstake_claims - amount) as u128,
            retrieved_for_unstake_claims: (s.retrieved_for_unstake_claims - amount) as u128,
            contract_account_balance: (s.contract_account_balance - amount) as u128,
            ..s
        }).conserved() && (LedgerView {
            total_unstake_claims: (s.total_unstake_claims - amount) as u128,
            retrieved_for_unstake_claims: (s.retrieved_for_unstake_claims - amount) as u128,
            contract_account_balance: (s.contract_account_balance - amount) as u128,
            ..s
        }).claims_covered(),
{
}

/// Conservation across a whole unstake operation: neither the launch nor
/// either settlement touches the conserved counters.
pub proof fn lemma_unstake_flow_conserves(
    s: LedgerView,
    sp_inx: int,
    afo: u128,
    afr: u128,
    success: bool,
    epoch: u64,
)
    requires
        afo + afr <= u128::MAX,
        afo + afr > 0 ==> 0 <= sp_inx < s.staking_pools.len(),
        s.total_actually_staked >= afo + afr,
        afo <= s.epoch_unstake_orders,
        s.conserved(),
    ensures
        spec_unstake_settled(
            spec_perform_unstake(s, sp_inx, afo, afr),
            sp_inx,
            afo,
            afr,
            success,
            epoch,
        ).conserved(),
{
}

/// Claims coverage across a whole unstake operation: the staking deficit
/// shrinks by at least as much as the net unstake orders do.
pub proof fn lemma_unstake_flow_claims_covered(
    s: LedgerView,
    sp_inx: int,
    afo: u128,
    afr: u128,
    success: bool,
    epoch: u64,
)
    requires
        afo + afr <= u128::MAX,
        afo + afr > 0 ==> 0 <= sp_inx < s.staking_pools.len(),
        s.total_actually_staked >= afo + afr,
        afo <= s.epoch_unstake_orders,
        s.claims_covered(),
    ensures
        spec_unstake_settled(
            spec_perform_unstake(s, sp_inx, afo, afr),
            sp_inx,
            afo,
            afr,
            success,
            epoch,
        ).claims_covered(),
{
}

/// Conservation across a whole retrieval: the amount credited to the
/// contract balance goes entirely into the claims reserve (or, past the
/// liability, back into stake orders).
pub proof fn lemma_retrieve_flow_conserves(s: LedgerView, sp_inx: int, success: bool)
    requires
        0 <= sp_inx < s.staking_pools.len(),
        s.conserved(),
        s.total_unstake_claims >= s.retrieved_for_unstake_claims,
        success ==> {
            let amount = s.staking_pools[sp_inx].unstaked;
            &&& s.contract_account_balance + amount <= u128::MAX
            &&& spec_reserve_fits(
                crate::distribute::spec_retrieve_settled_pre_reserve(
                    spec_locks_taken(s, sp_inx),
                    sp_inx,
                ),
                amount as int,
            )
        },
    ensures
        spec_retrieve_settled(spec_locks_taken(s, sp_inx), sp_inx, success).conserved(),
{
    if success {
        let s1 = spec_locks_taken(s, sp_inx);
        let amount = s.staking_pools[sp_inx].unstaked;
        let mid = crate::distribute::spec_retrieve_settled_pre_reserve(s1, sp_inx);
        lemma_reserve_sums(mid, amount as int);
    }
}

/// Claims coverage across a whole retrieval. While the liability still
/// covers the reserve plus the retrieved amount — that is, while nothing
/// needs recycling toward a rebalance — any staking deficit stays covered.
pub proof fn lemma_retrieve_flow_claims_covered(s: LedgerView, sp_inx: int, success: bool)
    requires
        0 <= sp_inx < s.staking_pools.len(),
        s.claims_covered(),
        success ==> {
            let amount = s.staking_pools[sp_inx].unstaked;
            &&& s.contract_account_balance + amount <= u128::MAX
            &&& s.total_unstake_claims >= s.retrieved_for_unstake_claims + amount
        },
    ensures
        spec_retrieve_settled(spec_locks_taken(s, sp_inx), sp_inx, success).claims_covered(),
{
}

/// Conservation and claims coverage across a reward settlement: rewards
/// raise the staked totals and mint shares but touch none of the conserved
/// counters, and leave any staking deficit exactly as covered as before.
pub proof fn lemma_rewards_flow_invariants(s: LedgerView, sp_inx: int, total_balance: u128, epoch: u64)
    requires
        0 <= sp_inx < s.staking_pools.len(),
        s.staking_pools[sp_inx].staked + s.staking_pools[sp_inx].unstaked <= u128::MAX,
        total_balance >= s.staking_pools[sp_inx].unstaked,
        spec_rewards_fits(s, sp_inx, total_balance),
        s.conserved(),
        s.claims_covered(),
    ensures
        spec_rewards_settled(s, sp_inx, total_balance, epoch).conserved(),
        spec_rewards_settled(s, sp_inx, total_balance, epoch).claims_covered(),
{
}

/// Conservation and claims coverage across a balance sync: only the pool's
/// own staked/unstaked split moves.
pub proof fn lemma_sync_flow_invariants(s: LedgerView, sp_inx: int, real_unstaked: u128)
    requires
        0 <= sp_inx < s.staking_pools.len(),
        s.conserved(),
        s.claims_covered(),
        real_unstaked < s.staking_pools[sp_inx].unstaked ==> s.staking_pools[sp_inx].staked
            + (s.staking_pools[sp_inx].unstaked - real_unstaked) <= u128::MAX,
    ensures
        spec_sync_applied(s, sp_inx, real_unstaked).conserved(),
        spec_sync_applied(s, sp_inx, real_unstaked).claims_covered(),
{
}

} // verus!

