//! Pool selection: deterministic, pure algorithms that pick which pool to
//! stake into, unstake from, or retrieve matured funds from.
use vstd::prelude::*;
use crate::pool::StakingPoolInfo;
use crate::state::MetaPool;
use crate::wide::{apply_pct, spec_apply_pct};
use crate::{MAX_BASIS_POINTS, NUM_EPOCHS_TO_UNLOCK, UNSTAKED_YOCTOS_TO_IGNORE};

verus! {

/// What a pool should hold: its weight applied to `total_for_staking`.
pub open spec fn spec_should_have(sp: StakingPoolInfo, tfs: u128) -> int {
    spec_apply_pct(sp.weight_basis_points, tfs)
}

/// How far below its target a pool eligible for staking sits; zero when the
/// pool is busy, weightless, or at or above target.
pub open spec fn spec_stake_shortfall(sp: StakingPoolInfo, tfs: u128) -> int {
    if !sp.busy_lock && sp.weight_basis_points > 0 && spec_should_have(sp, tfs) > sp.staked {
        spec_should_have(sp, tfs) - sp.staked
    } else {
        0
    }
}

/// A pool with no meaningful unstaked balance can take an unstake request
/// without extending any wait.
pub open spec fn spec_unblocked(sp: StakingPoolInfo) -> bool {
    sp.unstaked <= UNSTAKED_YOCTOS_TO_IGNORE
}

/// An unstake request does not extend the wait: either nothing meaningful is
/// unstaked, or the pending request started this same epoch.
pub open spec fn spec_can_take_unstake(sp: StakingPoolInfo, epoch: u64) -> bool {
    spec_unblocked(sp) || sp.unstk_req_epoch_height == epoch
}

/// How far above its target a pool eligible for unstaking sits; zero when the
/// pool is busy, empty, blocked, or at or below target.
pub open spec fn spec_unstake_extra(sp: StakingPoolInfo, tfs: u128, epoch: u64) -> int {
    if !sp.busy_lock && sp.staked > 0 && spec_can_take_unstake(sp, epoch)
        && sp.staked > spec_should_have(sp, tfs) {
        sp.staked - spec_should_have(sp, tfs)
    } else {
        0
    }
}

/// Sum of `staked` over the first `n` pools.
pub open spec fn spec_sum_staked(pools: Seq<StakingPoolInfo>, n: int) -> int
    decreases n,
{
    if n <= 0 {
        0
    } else {
        spec_sum_staked(pools, n - 1) + pools[n - 1].staked
    }
}

/// Sum of `spec_unstake_extra` over the first `n` pools.
pub open spec fn spec_sum_extra(pools: Seq<StakingPoolInfo>, tfs: u128, epoch: u64, n: int) -> int
    decreases n,
{
    if n <= 0 {
        0
    } else {
        spec_sum_extra(pools, tfs, epoch, n - 1) + spec_unstake_extra(pools[n - 1], tfs, epoch)
    }
}

/// Pools counted as holding stake: not busy and with a positive stake.
pub open spec fn spec_count_with_stake(pools: Seq<StakingPoolInfo>, n: int) -> int
    decreases n,
{
    if n <= 0 {
        0
    } else {
        spec_count_with_stake(pools, n - 1)
            + if !pools[n - 1].busy_lock && pools[n - 1].staked > 0 { 1int } else { 0 }
    }
}

/// Pools with stake that are also unblocked for a new unstake request.
pub open spec fn spec_count_unblocked(pools: Seq<StakingPoolInfo>, n: int) -> int
    decreases n,
{
    if n <= 0 {
        0
    } else {
        spec_count_unblocked(pools, n - 1)
            + if !pools[n - 1].busy_lock && pools[n - 1].staked > 0 && spec_unblocked(pools[n - 1]) {
                1int
            } else {
                0
            }
    }
}

/// The stake selection over the first `n` pools: index and size of the first
/// largest shortfall; `(0, 0)` when no pool falls short.
pub open spec fn spec_select_stake(pools: Seq<StakingPoolInfo>, tfs: u128, n: int) -> (int, int)
    decreases n,
{
    if n <= 0 {
        (0int, 0int)
    } else {
        let prev = spec_select_stake(pools, tfs, n - 1);
        let a = spec_stake_shortfall(pools[n - 1], tfs);
        if a > prev.1 {
            (n - 1, a)
        } else {
            prev
        }
    }
}

/// The unstake selection over the first `n` pools: index and size of the
/// first largest surplus; `(0, 0)` when no pool has one.
pub open spec fn spec_select_unstake(
    pools: Seq<StakingPoolInfo>,
    tfs: u128,
    epoch: u64,
    n: int,
) -> (int, int)
    decreases n,
{
    if n <= 0 {
        (0int, 0int)
    } else {
        let prev = spec_select_unstake(pools, tfs, epoch, n - 1);
        let a = spec_unstake_extra(pools[n - 1], tfs, epoch);
        if a > prev.1 {
            (n - 1, a)
        } else {
            prev
        }
    }
}

/// Each pool's weight is at most the sum over any prefix containing it.
pub proof fn lemma_weight_le_sum(pools: Seq<StakingPoolInfo>, n: int, i: int)
    requires
        0 <= i < n <= pools.len(),
    ensures
        pools[i].weight_basis_points <= MetaPool::spec_sum_weights(pools, n),
    decreases n,
{
    if i == n - 1 {
        lemma_sum_weights_nonneg(pools, n - 1);
    } else {
        lemma_weight_le_sum(pools, n - 1, i);
    }
}

/// Weight sums over prefixes are never negative.
pub proof fn lemma_sum_weights_nonneg(pools: Seq<StakingPoolInfo>, n: int)
    ensures
        MetaPool::spec_sum_weights(pools, n) >= 0,
    decreases n,
{
    if n > 0 {
        lemma_sum_weights_nonneg(pools, n - 1);
    }
}

/// Weight sums grow with the prefix.
pub proof fn lemma_sum_weights_prefix_le(pools: Seq<StakingPoolInfo>, a: int, b: int)
    requires
        a <= b,
    ensures
        MetaPool::spec_sum_weights(pools, a) <= MetaPool::spec_sum_weights(pools, b),
    decreases b - a,
{
    if a < b {
        lemma_sum_weights_prefix_le(pools, a, b - 1);
    }
}

/// Stake sums grow with the prefix.
pub proof fn lemma_sum_staked_monotone(pools: Seq<StakingPoolInfo>, a: int, b: int)
    requires
        a <= b,
    ensures
        spec_sum_staked(pools, a) <= spec_sum_staked(pools, b),
    decreases b - a,
{
    if a < b {
        lemma_sum_staked_monotone(pools, a, b - 1);
    }
}

/// A pool's extra never exceeds its stake, so the extras' sum never exceeds
/// the stakes' sum.
pub proof fn lemma_sum_extra_le_staked(pools: Seq<StakingPoolInfo>, tfs: u128, epoch: u64, n: int)
    ensures
        0 <= spec_sum_extra(pools, tfs, epoch, n) <= spec_sum_staked(pools, n),
    decreases n,
{
    if n > 0 {
        lemma_sum_extra_le_staked(pools, tfs, epoch, n - 1);
    }
}

/// Where matured funds can be retrieved from: the pool holds an unstaked
/// balance whose unlock delay has elapsed, and no call is pending against it.
pub open spec fn spec_retrievable(sp: StakingPoolInfo, epoch: u64) -> bool {
    sp.unstaked > 0 && sp.spec_wait_period_ended(epoch) && !sp.busy_lock
}

/// Outcome of the search for a pool with matured, retrievable funds. The
/// search reports the first pool that qualifies; otherwise it distinguishes
/// "ready but locked" from "still waiting" from "nothing unstaked anywhere".
#[derive(Clone, Copy, Debug, PartialEq, Eq)]
pub enum RetrieveResult {
    /// Index of the first pool whose matured funds can be retrieved now.
    Ready(usize),
    /// Some pool has matured funds, but every such pool is busy.
    ReadyButBusy,
    /// Some pool has unstaked funds, but none has finished the unlock delay.
    WaitingForUnlock,
    /// No pool holds any unstaked funds.
    NotFound,
}

/// Result of the unstake selection: the chosen pool, its surplus, and the
/// aggregates that decide whether a rebalance unstake should proceed.
pub struct GSPRUResult {
    /// Index of the pool with the largest surplus (first maximum wins).
    pub sp_inx: u16,
    /// That pool's surplus over its target; zero when nothing qualifies.
    pub extra: u128,
    /// Pools with stake that could take a new unstake request now.
    pub count_unblocked: u16,
    /// Pools holding any stake at all (and not busy).
    pub count_with_stake: u16,
    /// System-wide surplus over targets, across all unblockable pools.
    pub total_extra: u128,
}

impl MetaPool {
    /// Finds the pool furthest below its target weight, and by how much.
    /// Returns an amount of zero when no pool needs staking or all that do
    /// are busy; ties go to the lowest index.
    pub fn get_staking_pool_requiring_stake(&self) -> (r: (usize, u128))
        requires
            self.spec_weights_ok(),
        ensures
            (r.0 as int, r.1 as int) == spec_select_stake(
                self.staking_pools@,
                self.total_for_staking,
                self.staking_pools@.len() as int,
            ),
            forall|j: int| 0 <= j < self.staking_pools@.len()
                ==> spec_stake_shortfall(self.staking_pools@[j], self.total_for_staking) <= r.1,
            r.1 > 0 ==> {
                &&& r.0 < self.staking_pools@.len()
                &&& spec_stake_shortfall(self.staking_pools@[r.0 as int], self.total_for_staking)
                    == r.1
                &&& forall|j: int| 0 <= j < r.0
                    ==> spec_stake_shortfall(self.staking_pools@[j], self.total_for_staking) < r.1
            },
            r.1 == 0 ==> r.0 == 0,
    {
        let ghost pools = self.staking_pools@;
        let ghost tfs = self.total_for_staking;
        let mut selected_to_stake_amount: u128 = 0;
        let mut selected_sp_inx: usize = 0;
        let mut sp_inx: usize = 0;
        while sp_inx < self.staking_pools.len()
            invariant
                sp_inx <= pools.len(),
                pools == self.staking_pools@,
                tfs == self.total_for_staking,
                self.spec_weights_ok(),
                (selected_sp_inx as int, selected_to_stake_amount as int)
                    == spec_select_stake(pools, tfs, sp_inx as int),
                forall|j: int| 0 <= j < sp_inx
                    ==> spec_stake_shortfall(pools[j], tfs) <= selected_to_stake_amount,
                selected_to_stake_amount > 0 ==> {
                    &&& selected_sp_inx < sp_inx
                    &&& spec_stake_shortfall(pools[selected_sp_inx as int], tfs)
                        == selected_to_stake_amount
                    &&& forall|j: int| 0 <= j < selected_sp_inx
                        ==> spec_stake_shortfall(pools[j], tfs) < selected_to_stake_amount
                },
                selected_to_stake_amount == 0 ==> selected_sp_inx == 0,
            decreases pools.len() - sp_inx,
        {
            let sp = &self.staking_pools[sp_inx];
            if !sp.busy_lock && sp.weight_basis_points > 0 {
                proof {
                    lemma_weight_le_sum(pools, pools.len() as int, sp_inx as int);
                }
                let should_have = apply_pct(sp.weight_basis_points, self.total_for_staking);
                if should_have > sp.staked {
                    let require_amount = should_have - sp.staked;
                    if require_amount > selected_to_stake_amount {
                        selected_to_stake_amount = require_amount;
                        selected_sp_inx = sp_inx;
                    }
                }
            }
            sp_inx += 1;
        }
        (selected_sp_inx, selected_to_stake_amount)
    }

    /// Finds the pool furthest above its target weight among those that can
    /// take an unstake request now, together with the aggregates that decide
    /// rebalancing. An extra of zero means nothing qualifies; ties go to the
    /// lowest index.
    pub fn internal_get_staking_pool_requiring_unstake(&self, epoch: u64) -> (r: GSPRUResult)
        requires
            self.spec_weights_ok(),
            self.staking_pools@.len() <= u16::MAX,
            spec_sum_staked(self.staking_pools@, self.staking_pools@.len() as int) <= u128::MAX,
        ensures
            ({
                let pools = self.staking_pools@;
                let tfs = self.total_for_staking;
                let n = pools.len() as int;
                &&& (r.sp_inx as int, r.extra as int) == spec_select_unstake(pools, tfs, epoch, n)
                &&& r.count_with_stake == spec_count_with_stake(pools, n)
                &&& r.count_unblocked == spec_count_unblocked(pools, n)
                &&& r.total_extra == spec_sum_extra(pools, tfs, epoch, n)
                &&& forall|j: int| 0 <= j < n ==> spec_unstake_extra(pools[j], tfs, epoch) <= r.extra
                &&& r.extra > 0 ==> {
                    &&& r.sp_inx < n
                    &&& spec_unstake_extra(pools[r.sp_inx as int], tfs, epoch) == r.extra
                    &&& forall|j: int| 0 <= j < r.sp_inx
                        ==> spec_unstake_extra(pools[j], tfs, epoch) < r.extra
                }
                &&& r.extra == 0 ==> r.sp_inx == 0
            }),
    {
        let ghost pools = self.staking_pools@;
        let ghost tfs = self.total_for_staking;
        let mut selected_sp_inx: u16 = 0;
        let mut selected_extra_amount: u128 = 0;
        let mut total_extra: u128 = 0;
        let mut count_unblocked: u16 = 0;
        let mut count_with_stake: u16 = 0;
        let mut sp_inx: usize = 0;
        while sp_inx < self.staking_pools.len()
            invariant
                sp_inx <= pools.len(),
                pools == self.staking_pools@,
                tfs == self.total_for_staking,
                self.spec_weights_ok(),
                pools.len() <= u16::MAX,
                spec_sum_staked(pools, pools.len() as int) <= u128::MAX,
                count_with_stake == spec_count_with_stake(pools, sp_inx as int),
                count_unblocked == spec_count_unblocked(pools, sp_inx as int),
                count_unblocked <= count_with_stake <= sp_inx,
                total_extra == spec_sum_extra(pools, tfs, epoch, sp_inx as int),
                (selected_sp_inx as int, selected_extra_amount as int)
                    == spec_select_unstake(pools, tfs, epoch, sp_inx as int),
                forall|j: int| 0 <= j < sp_inx
                    ==> spec_unstake_extra(pools[j], tfs, epoch) <= selected_extra_amount,
                selected_extra_amount > 0 ==> {
                    &&& selected_sp_inx < sp_inx
                    &&& spec_unstake_extra(pools[selected_sp_inx as int], tfs, epoch)
                        == selected_extra_amount
                    &&& forall|j: int| 0 <= j < selected_sp_inx
                        ==> spec_unstake_extra(pools[j], tfs, epoch) < selected_extra_amount
                },
                selected_extra_amount == 0 ==> selected_sp_inx == 0,
            decreases pools.len() - sp_inx,
        {
            let sp = &self.staking_pools[sp_inx];
            proof {
                lemma_sum_extra_le_staked(pools, tfs, epoch, sp_inx as int);
                lemma_sum_extra_le_staked(pools, tfs, epoch, sp_inx + 1);
                lemma_sum_staked_monotone(pools, sp_inx + 1, pools.len() as int);
            }
            if !sp.busy_lock && sp.staked > 0 {
                count_with_stake += 1;
                if sp.unstaked <= UNSTAKED_YOCTOS_TO_IGNORE {
                    count_unblocked += 1;
                }
                proof {
                    lemma_weight_le_sum(pools, pools.len() as int, sp_inx as int);
                }
                let should_have = apply_pct(sp.weight_basis_points, self.total_for_staking);
                if sp.unstaked <= UNSTAKED_YOCTOS_TO_IGNORE || sp.unstk_req_epoch_height == epoch {
                    if sp.staked > should_have {
                        let extra = sp.staked - should_have;
                        total_extra += extra;
                        if extra > selected_extra_amount {
                            selected_extra_amount = extra;
                            selected_sp_inx = sp_inx as u16;
                        }
                    }
                }
            }
            sp_inx += 1;
        }
        GSPRUResult {
            sp_inx: selected_sp_inx,
            extra: selected_extra_amount,
            count_unblocked,
            count_with_stake,
            total_extra,
        }
    }

    /// Scans for the first pool whose matured unstaked funds can be
    /// retrieved; reports why none qualifies otherwise, first match winning.
    pub fn get_staking_pool_requiring_retrieve(&self, epoch: u64) -> (r: RetrieveResult)
        ensures
            ({
                let pools = self.staking_pools@;
                let n = pools.len() as int;
                match r {
                    RetrieveResult::Ready(i) => {
                        &&& i < n
                        &&& spec_retrievable(pools[i as int], epoch)
                        &&& forall|j: int| 0 <= j < i ==> !spec_retrievable(pools[j], epoch)
                    },
                    RetrieveResult::ReadyButBusy => {
                        &&& forall|j: int| 0 <= j < n ==> !spec_retrievable(pools[j], epoch)
                        &&& exists|j: int| 0 <= j < n && pools[j].unstaked > 0
                            && pools[j].spec_wait_period_ended(epoch)
                    },
                    RetrieveResult::WaitingForUnlock => {
                        &&& forall|j: int| 0 <= j < n
                            ==> !(pools[j].unstaked > 0 && pools[j].spec_wait_period_ended(epoch))
                        &&& exists|j: int| 0 <= j < n && pools[j].unstaked > 0
                    },
                    RetrieveResult::NotFound => forall|j: int| 0 <= j < n
                        ==> pools[j].unstaked == 0,
                }
            }),
    {
        let ghost pools = self.staking_pools@;
        let mut seen_unstaked = false;
        let mut seen_ready = false;
        let mut sp_inx: usize = 0;
        while sp_inx < self.staking_pools.len()
            invariant
                sp_inx <= pools.len(),
                pools == self.staking_pools@,
                forall|j: int| 0 <= j < sp_inx ==> !spec_retrievable(pools[j], epoch),
                seen_ready <==> exists|j: int| 0 <= j < sp_inx && pools[j].unstaked > 0
                    && pools[j].spec_wait_period_ended(epoch),
                seen_unstaked <==> exists|j: int| 0 <= j < sp_inx && pools[j].unstaked > 0,
            decreases pools.len() - sp_inx,
        {
            let sp = &self.staking_pools[sp_inx];
            if sp.unstaked > 0 {
                seen_unstaked = true;
                if sp.wait_period_ended(epoch) {
                    seen_ready = true;
                    if !sp.busy_lock {
                        return RetrieveResult::Ready(sp_inx);
                    }
                }
            }
            sp_inx += 1;
        }
        if seen_ready {
            RetrieveResult::ReadyButBusy
        } else if seen_unstaked {
            RetrieveResult::WaitingForUnlock
        } else {
            RetrieveResult::NotFound
        }
    }

    /// Sum of `staked` over the pools that are free to serve a normal-delay
    /// unstake now: not busy, holding stake, and past any unlock delay.
    pub open spec fn spec_sum_avail(pools: Seq<StakingPoolInfo>, epoch: u64, n: int) -> int
        decreases n,
    {
        if n <= 0 {
            0
        } else {
            Self::spec_sum_avail(pools, epoch, n - 1)
                + if !pools[n - 1].busy_lock && pools[n - 1].staked > 0
                    && pools[n - 1].spec_wait_period_ended(epoch) {
                    pools[n - 1].staked as int
                } else {
                    0
                }
        }
    }

    /// How many epochs a delayed unstake started now will take: the normal
    /// delay while enough stake sits in pools that can serve it at once (or
    /// nothing is staked at all), twice that while every pool is already
    /// waiting out its own delay.
    pub fn internal_compute_current_unstaking_delay(&self, amount: u128, epoch: u64) -> (r: u64)
        requires
            spec_sum_staked(self.staking_pools@, self.staking_pools@.len() as int) <= u128::MAX,
        ensures
            ({
                let pools = self.staking_pools@;
                let n = pools.len() as int;
                r == if Self::spec_sum_avail(pools, epoch, n) > amount {
                    NUM_EPOCHS_TO_UNLOCK as int
                } else if spec_sum_staked(pools, n) == 0 {
                    NUM_EPOCHS_TO_UNLOCK as int
                } else {
                    2 * NUM_EPOCHS_TO_UNLOCK
                }
            }),
    {
        let ghost pools = self.staking_pools@;
        let mut total_staked: u128 = 0;
        let mut normal_wait_staked_available: u128 = 0;
        let mut sp_inx: usize = 0;
        while sp_inx < self.staking_pools.len()
            invariant
                sp_inx <= pools.len(),
                pools == self.staking_pools@,
                spec_sum_staked(pools, pools.len() as int) <= u128::MAX,
                total_staked == spec_sum_staked(pools, sp_inx as int),
                normal_wait_staked_available == Self::spec_sum_avail(pools, epoch, sp_inx as int),
                normal_wait_staked_available <= amount,
            decreases pools.len() - sp_inx,
        {
            let sp = &self.staking_pools[sp_inx];
            proof {
                lemma_sum_avail_le_staked(pools, epoch, sp_inx + 1);
                lemma_sum_staked_monotone(pools, sp_inx + 1, pools.len() as int);
                lemma_sum_avail_le_staked(pools, epoch, sp_inx as int);
            }
            total_staked += sp.staked;
            if !sp.busy_lock && sp.staked > 0 && sp.wait_period_ended(epoch) {
                normal_wait_staked_available += sp.staked;
                if normal_wait_staked_available > amount {
                    proof {
                        lemma_sum_avail_monotone(pools, epoch, sp_inx + 1, pools.len() as int);
                    }
                    return NUM_EPOCHS_TO_UNLOCK;
                }
            }
            sp_inx += 1;
        }
        if total_staked == 0 {
            return NUM_EPOCHS_TO_UNLOCK;
        }
        2 * NUM_EPOCHS_TO_UNLOCK
    }

    /// How many epochs a delayed unstake started now will take.
    pub fn compute_current_unstaking_delay(&self, amount: u128, epoch: u64) -> (r: u16)
        requires
            spec_sum_staked(self.staking_pools@, self.staking_pools@.len() as int) <= u128::MAX,
        ensures
            r == self.internal_compute_current_unstaking_delay_spec(amount, epoch),
    {
        self.internal_compute_current_unstaking_delay(amount, epoch) as u16
    }

    /// The delay `internal_compute_current_unstaking_delay` returns.
    pub open spec fn internal_compute_current_unstaking_delay_spec(
        &self,
        amount: u128,
        epoch: u64,
    ) -> int {
        let pools = self.staking_pools@;
        let n = pools.len() as int;
        if Self::spec_sum_avail(pools, epoch, n) > amount {
            NUM_EPOCHS_TO_UNLOCK as int
        } else if spec_sum_staked(pools, n) == 0 {
            NUM_EPOCHS_TO_UNLOCK as int
        } else {
            2 * NUM_EPOCHS_TO_UNLOCK
        }
    }
}

/// The available sum counts a part of each pool's stake, so it stays under
/// the stakes' sum.
pub proof fn lemma_sum_avail_le_staked(pools: Seq<StakingPoolInfo>, epoch: u64, n: int)
    ensures
        0 <= MetaPool::spec_sum_avail(pools, epoch, n) <= spec_sum_staked(pools, n),
    decreases n,
{
    if n > 0 {
        lemma_sum_avail_le_staked(pools, epoch, n - 1);
    }
}

/// Available sums grow with the prefix.
pub proof fn lemma_sum_avail_monotone(pools: Seq<StakingPoolInfo>, epoch: u64, a: int, b: int)
    requires
        a <= b,
    ensures
        MetaPool::spec_sum_avail(pools, epoch, a) <= MetaPool::spec_sum_avail(pools, epoch, b),
    decreases b - a,
{
    if a < b {
        lemma_sum_avail_monotone(pools, epoch, a, b - 1);
    }
}

} // verus!
