//! The distribution state machine: end-of-epoch order clearing, staking and
//! unstaking distribution, rebalance, retrieval of matured withdrawals and
//! reward synchronization.
//!
//! Every entry point does its local accounting, optimistically mutates the
//! ledger, sets the busy locks, and returns a description of the single
//! outbound call to issue. The host performs that call and later invokes the
//! matching callback with the outcome; the callback commits the optimistic
//! mutation or reverts it exactly, and clears the locks first of all.
use vstd::prelude::*;
use vstd::math::min;
use crate::allocator::{
    spec_select_stake, spec_select_unstake, spec_should_have, spec_stake_shortfall,
    spec_sum_staked,
};
use crate::pool::StakingPoolInfo;
use crate::state::{LedgerView, MetaPool};
use crate::wide::{apply_pct, spec_apply_pct};
use crate::{
    MAX_BASIS_POINTS, MIN_AMOUNT_TO_JUSTIFY_TX, MIN_STAKE_AMOUNT,
    MIN_STAKE_UNSTAKE_AMOUNT_MOVEMENT, ONE_NEAR, TEN_NEAR,
};

verus! {

/// The single outbound call a staking distribution step asks the host to
/// issue, if any.
#[derive(Clone, Copy, Debug, PartialEq, Eq)]
pub enum StakeAction {
    /// Nothing to send: the step found no amount worth staking.
    Idle,
    /// Re-stake `amount` out of the pool's own unstaked balance: no transfer.
    Restake { sp_inx: usize, amount: u128 },
    /// Transfer `amount` to the pool and stake it in one call.
    DepositAndStake { sp_inx: usize, amount: u128 },
}

/// The single outbound call an unstaking distribution step asks the host to
/// issue, if any. The two amounts travel to the callback unchanged, so the
/// settlement can attribute them separately.
#[derive(Clone, Copy, Debug, PartialEq, Eq)]
pub enum UnstakeAction {
    /// Nothing to send.
    Idle,
    /// Unstake the two amounts' sum at the pool.
    Unstake { sp_inx: usize, amount_from_orders: u128, amount_from_rebalance: u128 },
}

/// Why a balance-sync result was thrown away.
#[derive(Clone, Copy, Debug, PartialEq, Eq)]
pub enum SyncError {
    /// Another operation was in flight when the answer arrived; applying the
    /// stale answer could corrupt the ledger.
    OperationInFlight,
}

/// Funds set aside for unstake claims: the reserve takes `amount`, and any
/// excess over the total liability is immediately recycled into new stake
/// orders (completing a rebalance) and taken out of the rebalance tally.
pub open spec fn spec_reserve(s: LedgerView, amount: int) -> LedgerView {
    let rfc = s.retrieved_for_unstake_claims + amount;
    if rfc > s.total_unstake_claims {
        let extra = rfc - s.total_unstake_claims;
        LedgerView {
            retrieved_for_unstake_claims: s.total_unstake_claims,
            epoch_stake_orders: (s.epoch_stake_orders + extra) as u128,
            unstaked_for_rebalance: if s.unstaked_for_rebalance >= extra {
                (s.unstaked_for_rebalance - extra) as u128
            } else {
                0
            },
            ..s
        }
    } else {
        LedgerView { retrieved_for_unstake_claims: rfc as u128, ..s }
    }
}

/// The reserve update stays within the counters' machine range.
pub open spec fn spec_reserve_fits(s: LedgerView, amount: int) -> bool {
    &&& s.retrieved_for_unstake_claims + amount <= u128::MAX
    &&& s.retrieved_for_unstake_claims + amount > s.total_unstake_claims ==> {
        s.epoch_stake_orders + (s.retrieved_for_unstake_claims + amount
            - s.total_unstake_claims) <= u128::MAX
    }
}

/// End-of-epoch clearing: colliding stake and unstake orders cancel locally;
/// the netted amount goes straight into the claims reserve instead of round
/// tripping through an external pool.
pub open spec fn spec_clearing(s: LedgerView) -> LedgerView {
    if s.epoch_stake_orders == 0 || s.epoch_unstake_orders == 0 {
        s
    } else {
        let to_keep = min(s.epoch_stake_orders as int, s.epoch_unstake_orders as int);
        spec_reserve(
            LedgerView {
                epoch_stake_orders: (s.epoch_stake_orders - to_keep) as u128,
                epoch_unstake_orders: (s.epoch_unstake_orders - to_keep) as u128,
                ..s
            },
            to_keep,
        )
    }
}

/// The clearing's reserve step stays within machine range.
pub open spec fn spec_clearing_fits(s: LedgerView) -> bool {
    s.epoch_stake_orders > 0 && s.epoch_unstake_orders > 0 ==> spec_reserve_fits(
        LedgerView {
            epoch_stake_orders: (s.epoch_stake_orders - min(
                s.epoch_stake_orders as int,
                s.epoch_unstake_orders as int,
            )) as u128,
            epoch_unstake_orders: (s.epoch_unstake_orders - min(
                s.epoch_stake_orders as int,
                s.epoch_unstake_orders as int,
            )) as u128,
            ..s
        },
        min(s.epoch_stake_orders as int, s.epoch_unstake_orders as int),
    )
}

/// The amount a stake launch actually sends: when the pool already holds at
/// least ten units unstaked, at most that unstaked balance is re-staked.
pub open spec fn spec_launch_stake_amount(s: LedgerView, sp_inx: int, amount: u128) -> int {
    let sp = s.staking_pools[sp_inx];
    if sp.unstaked >= TEN_NEAR && sp.unstaked < amount {
        sp.unstaked as int
    } else {
        amount as int
    }
}

/// A stake launch: both busy locks set, the amount optimistically counted as
/// staked and taken off the epoch's stake orders. A zero amount launches
/// nothing.
pub open spec fn spec_launch_stake(s: LedgerView, sp_inx: int, amount: u128) -> LedgerView {
    if amount == 0 {
        s
    } else {
        let a = spec_launch_stake_amount(s, sp_inx, amount);
        LedgerView {
            contract_busy: true,
            staking_pools: s.staking_pools.update(
                sp_inx,
                StakingPoolInfo { busy_lock: true, ..s.staking_pools[sp_inx] },
            ),
            total_actually_staked: (s.total_actually_staked + a) as u128,
            epoch_stake_orders: (s.epoch_stake_orders - a) as u128,
            ..s
        }
    }
}

/// The call a stake launch issues.
pub open spec fn spec_stake_action(s: LedgerView, sp_inx: int, amount: u128) -> StakeAction {
    if amount == 0 {
        StakeAction::Idle
    } else if s.staking_pools[sp_inx].unstaked >= TEN_NEAR {
        StakeAction::Restake {
            sp_inx: sp_inx as usize,
            amount: spec_launch_stake_amount(s, sp_inx, amount) as u128,
        }
    } else {
        StakeAction::DepositAndStake { sp_inx: sp_inx as usize, amount: amount as u128 }
    }
}

/// Settlement of a stake call. The busy locks clear whatever the outcome.
/// On success the amount moves into the pool's `staked`; deposited funds
/// leave the contract balance, re-staked funds leave the pool's unstaked
/// balance and flow through the claims reserve. On failure the optimistic
/// counters are reverted exactly.
pub open spec fn spec_stake_settled(
    s: LedgerView,
    sp_inx: int,
    amount: u128,
    included_deposit: bool,
    success: bool,
) -> LedgerView {
    let sp = s.staking_pools[sp_inx];
    if success {
        let sp1 = StakingPoolInfo {
            busy_lock: false,
            staked: (sp.staked + amount) as u128,
            unstaked: if included_deposit { sp.unstaked } else { (sp.unstaked - amount) as u128 },
            ..sp
        };
        let s1 = LedgerView {
            contract_busy: false,
            staking_pools: s.staking_pools.update(sp_inx, sp1),
            contract_account_balance: if included_deposit {
                (s.contract_account_balance - amount) as u128
            } else {
                s.contract_account_balance
            },
            total_unstaked_and_waiting: if included_deposit {
                s.total_unstaked_and_waiting
            } else {
                (s.total_unstaked_and_waiting - amount) as u128
            },
            ..s
        };
        if included_deposit {
            s1
        } else {
            spec_reserve(s1, amount as int)
        }
    } else {
        LedgerView {
            contract_busy: false,
            staking_pools: s.staking_pools.update(
                sp_inx,
                StakingPoolInfo { busy_lock: false, ..sp },
            ),
            total_actually_staked: (s.total_actually_staked - amount) as u128,
            epoch_stake_orders: (s.epoch_stake_orders + amount) as u128,
            ..s
        }
    }
}

impl MetaPool {
    /// Adds `amount` to the claims reserve; any excess over the liability is
    /// recycled into this epoch's stake orders, completing a rebalance.
    pub fn consider_retrieved_for_unstake_claims(&mut self, amount: u128)
        requires
            spec_reserve_fits(old(self)@, amount as int),
        ensures
            final(self)@ == spec_reserve(old(self)@, amount as int),
    {
        self.retrieved_for_unstake_claims += amount;
        if self.retrieved_for_unstake_claims > self.total_unstake_claims {
            let extra = self.retrieved_for_unstake_claims - self.total_unstake_claims;
            self.retrieved_for_unstake_claims -= extra;
            self.epoch_stake_orders += extra;
            self.unstaked_for_rebalance = if self.unstaked_for_rebalance >= extra {
                self.unstaked_for_rebalance - extra
            } else {
                0
            };
        }
        proof {
            assert(final(self)@ =~= spec_reserve(old(self)@, amount as int));
        }
    }

    /// End-of-epoch clearing of stake orders against unstake orders.
    pub(crate) fn internal_end_of_epoch_clearing(&mut self)
        requires
            !old(self).contract_busy,
            spec_clearing_fits(old(self)@),
        ensures
            final(self)@ == spec_clearing(old(self)@),
    {
        if self.epoch_stake_orders == 0 || self.epoch_unstake_orders == 0 {
            return ;
        }
        let to_keep = if self.epoch_stake_orders >= self.epoch_unstake_orders {
            self.epoch_unstake_orders
        } else {
            self.epoch_stake_orders
        };
        self.epoch_stake_orders -= to_keep;
        self.epoch_unstake_orders -= to_keep;
        self.consider_retrieved_for_unstake_claims(to_keep);
        proof {
            assert(final(self)@ =~= spec_clearing(old(self)@));
        }
    }

    /// End-of-epoch clearing, as the external driver invokes it.
    pub fn end_of_epoch_clearing(&mut self)
        requires
            !old(self).contract_busy,
            spec_clearing_fits(old(self)@),
        ensures
            final(self)@ == spec_clearing(old(self)@),
    {
        self.internal_end_of_epoch_clearing()
    }

    /// Launches a direct stake of up to `amount_to_stake` on one pool: sets
    /// both busy locks and applies the optimistic counter moves; the returned
    /// action is the one call the host must issue.
    pub fn launch_direct_stake(&mut self, sp_inx: usize, amount_to_stake: u128) -> (r: StakeAction)
        requires
            amount_to_stake > 0 ==> sp_inx < old(self).staking_pools@.len(),
            amount_to_stake > 0 ==> !old(self).contract_busy,
            amount_to_stake > 0 ==> !old(self).staking_pools@[sp_inx as int].busy_lock,
            amount_to_stake <= old(self).epoch_stake_orders,
            old(self).total_actually_staked + amount_to_stake <= u128::MAX,
        ensures
            final(self)@ == spec_launch_stake(old(self)@, sp_inx as int, amount_to_stake),
            r == spec_stake_action(old(self)@, sp_inx as int, amount_to_stake),
    {
        let mut amount = amount_to_stake;
        let mut action = StakeAction::Idle;
        if amount > 0 {
            self.contract_busy = true;
            let sp = &mut self.staking_pools[sp_inx];
            sp.busy_lock = true;
            if sp.unstaked >= TEN_NEAR {
                // The pool holds a sizable unstaked balance: re-stake it in
                // place instead of transferring new funds.
                if sp.unstaked < amount {
                    amount = sp.unstaked;
                }
                action = StakeAction::Restake { sp_inx, amount };
            } else {
                action = StakeAction::DepositAndStake { sp_inx, amount };
            }
            self.total_actually_staked += amount;
            self.epoch_stake_orders -= amount;
        }
        proof {
            assert(final(self)@ =~= spec_launch_stake(old(self)@, sp_inx as int, amount_to_stake));
        }
        action
    }

    /// Settles a stake call: clears both busy locks first, then commits the
    /// stake on success or reverts the optimistic counters exactly on
    /// failure. Returns whether the stake succeeded.
    pub fn on_staking_pool_stake_maybe_deposit(
        &mut self,
        sp_inx: usize,
        amount: u128,
        included_deposit: bool,
        stake_succeeded: bool,
    ) -> (r: bool)
        requires
            sp_inx < old(self).staking_pools@.len(),
            old(self).staking_pools@[sp_inx as int].staked + amount <= u128::MAX,
            stake_succeeded && included_deposit ==> amount <= old(self).contract_account_balance,
            stake_succeeded && !included_deposit ==> {
                &&& amount <= old(self).staking_pools@[sp_inx as int].unstaked
                &&& amount <= old(self).total_unstaked_and_waiting
                &&& spec_reserve_fits(
                    spec_stake_settled_pre_reserve(old(self)@, sp_inx as int, amount),
                    amount as int,
                )
            },
            !stake_succeeded ==> {
                &&& amount <= old(self).total_actually_staked
                &&& old(self).epoch_stake_orders + amount <= u128::MAX
            },
        ensures
            final(self)@ == spec_stake_settled(
                old(self)@,
                sp_inx as int,
                amount,
                included_deposit,
                stake_succeeded,
            ),
            r == stake_succeeded,
    {
        let sp = &mut self.staking_pools[sp_inx];
        // Busy locks are released before anything else: this settlement must
        // never leave them set.
        sp.busy_lock = false;
        if stake_succeeded {
            sp.staked += amount;
            self.contract_busy = false;
            if included_deposit {
                // The funds travelled from the contract's own balance.
                self.contract_account_balance -= amount;
            } else {
                // The funds were the pool's own unstaked balance; the money
                // kept in the contract becomes reserve for unstake claims.
                let sp2 = &mut self.staking_pools[sp_inx];
                sp2.unstaked -= amount;
                self.total_unstaked_and_waiting -= amount;
                self.consider_retrieved_for_unstake_claims(amount);
            }
        } else {
            self.contract_busy = false;
            self.total_actually_staked -= amount;
            self.epoch_stake_orders += amount;
        }
        proof {
            assert(final(self)@ =~= spec_stake_settled(
                old(self)@,
                sp_inx as int,
                amount,
                included_deposit,
                stake_succeeded,
            ));
        }
        stake_succeeded
    }

    /// Distributes queued stake: clears orders, picks the pool furthest below
    /// target, and launches at most one stake call. Returns whether the
    /// driver should call again, and the call to issue.
    pub fn distribute_staking(&mut self) -> (r: (bool, StakeAction))
        requires
            !old(self).contract_busy,
            old(self).spec_weights_ok(),
            spec_clearing_fits(old(self)@),
        ensures
            ({
                let s0 = old(self)@;
                let s1 = spec_clearing(s0);
                let total = min(
                    s1.epoch_stake_orders as int,
                    s0.total_for_staking - s0.total_actually_staked,
                );
                let sel = spec_select_stake(
                    s1.staking_pools,
                    s1.total_for_staking,
                    s1.staking_pools.len() as int,
                );
                let amount = min(total, sel.1);
                if s0.total_for_staking <= s0.total_actually_staked {
                    final(self)@ == s0 && r == (false, StakeAction::Idle)
                } else if s1.epoch_stake_orders == 0 || total < MIN_STAKE_AMOUNT {
                    final(self)@ == s1 && r == (false, StakeAction::Idle)
                } else {
                    &&& final(self)@ == spec_launch_stake(s1, sel.0, amount as u128)
                    &&& r.1 == spec_stake_action(s1, sel.0, amount as u128)
                    &&& r.0 == (amount < total)
                }
            }),
    {
        if self.total_for_staking <= self.total_actually_staked {
            return (false, StakeAction::Idle);
        }
        self.internal_end_of_epoch_clearing();
        if self.epoch_stake_orders == 0 {
            return (false, StakeAction::Idle);
        }
        let delta = self.total_for_staking - self.total_actually_staked;
        let total_amount_to_stake = if self.epoch_stake_orders <= delta {
            self.epoch_stake_orders
        } else {
            delta
        };
        if total_amount_to_stake < MIN_STAKE_AMOUNT {
            return (false, StakeAction::Idle);
        }
        let (sp_inx, stake_required) = self.get_staking_pool_requiring_stake();
        let amount_to_stake = if total_amount_to_stake <= stake_required {
            total_amount_to_stake
        } else {
            stake_required
        };
        proof {
            if amount_to_stake > 0 {
                assert(spec_stake_shortfall(
                    self.staking_pools@[sp_inx as int],
                    self.total_for_staking,
                ) == stake_required);
            }
        }
        let action = self.launch_direct_stake(sp_inx, amount_to_stake);
        (amount_to_stake < total_amount_to_stake, action)
    }

    /// Stakes a chosen amount on a chosen pool out of this epoch's stake
    /// orders: the operator's manual override of the allocator.
    pub fn manual_stake(&mut self, inx: u16, amount: u128) -> (r: StakeAction)
        requires
            !old(self).contract_busy,
            old(self).epoch_stake_orders > MIN_STAKE_AMOUNT,
            amount <= old(self).epoch_stake_orders,
            inx < old(self).staking_pools@.len(),
            !old(self).staking_pools@[inx as int].busy_lock,
            old(self).total_actually_staked + amount <= u128::MAX,
        ensures
            final(self)@ == spec_launch_stake(old(self)@, inx as int, amount),
            r == spec_stake_action(old(self)@, inx as int, amount),
    {
        self.launch_direct_stake(inx as usize, amount)
    }
}

/// An unstake launch: both busy locks set, the total optimistically counted
/// as no longer staked, the orders portion taken off the epoch's unstake
/// orders. A zero total launches nothing.
pub open spec fn spec_perform_unstake(
    s: LedgerView,
    sp_inx: int,
    amount_from_unstake_orders: u128,
    amount_from_rebalance: u128,
) -> LedgerView {
    let total = amount_from_unstake_orders + amount_from_rebalance;
    if total == 0 {
        s
    } else {
        LedgerView {
            contract_busy: true,
            staking_pools: s.staking_pools.update(
                sp_inx,
                StakingPoolInfo { busy_lock: true, ..s.staking_pools[sp_inx] },
            ),
            total_actually_staked: (s.total_actually_staked - total) as u128,
            epoch_unstake_orders: (s.epoch_unstake_orders - amount_from_unstake_orders) as u128,
            ..s
        }
    }
}

/// Settlement of an unstake call. The busy locks clear whatever the outcome.
/// On success the total moves from the pool's `staked` to its `unstaked`, the
/// delay clock restarts at `epoch`, and the rebalance portion is tallied. On
/// failure the optimistic counters are reverted exactly.
pub open spec fn spec_unstake_settled(
    s: LedgerView,
    sp_inx: int,
    amount_from_unstake_orders: u128,
    amount_from_rebalance: u128,
    success: bool,
    epoch: u64,
) -> LedgerView {
    let total = amount_from_unstake_orders + amount_from_rebalance;
    let sp = s.staking_pools[sp_inx];
    if success {
        LedgerView {
            contract_busy: false,
            staking_pools: s.staking_pools.update(
                sp_inx,
                StakingPoolInfo {
                    busy_lock: false,
                    staked: (sp.staked - total) as u128,
                    unstaked: (sp.unstaked + total) as u128,
                    unstk_req_epoch_height: epoch,
                    ..sp
                },
            ),
            total_unstaked_and_waiting: (s.total_unstaked_and_waiting + total) as u128,
            unstaked_for_rebalance: (s.unstaked_for_rebalance + amount_from_rebalance) as u128,
            ..s
        }
    } else {
        LedgerView {
            contract_busy: false,
            staking_pools: s.staking_pools.update(
                sp_inx,
                StakingPoolInfo { busy_lock: false, ..sp },
            ),
            total_actually_staked: (s.total_actually_staked + total) as u128,
            epoch_unstake_orders: (s.epoch_unstake_orders + amount_from_unstake_orders) as u128,
            ..s
        }
    }
}

/// The plan `distribute_unstaking` follows after clearing: the chosen pool
/// and the two portions of the amount to unstake there.
pub open spec fn spec_unstake_plan(s: LedgerView, epoch: u64) -> (int, int, int) {
    let sel = spec_select_unstake(
        s.staking_pools,
        s.total_for_staking,
        epoch,
        s.staking_pools.len() as int,
    );
    let from_orders = if sel.1 > 0 && sel.1 <= s.epoch_unstake_orders {
        sel.1
    } else {
        s.epoch_unstake_orders as int
    };
    let cap = spec_apply_pct(s.unstake_for_rebalance_cap_bp, s.total_for_staking);
    let from_rebalance = if sel.1 > s.epoch_unstake_orders && s.unstaked_for_rebalance < cap
        && cap - s.unstaked_for_rebalance > ONE_NEAR {
        min(cap - s.unstaked_for_rebalance, sel.1 - from_orders)
    } else {
        0
    };
    (sel.0, from_orders, from_rebalance)
}

/// Whether `distribute_unstaking` launches a call once clearing has run:
/// both the epoch's unstake orders and the planned total must justify a
/// transaction's fee.
pub open spec fn spec_distribute_unstaking_launches(s1: LedgerView, epoch: u64) -> bool {
    let (i, afo, afr) = spec_unstake_plan(s1, epoch);
    s1.epoch_unstake_orders > MIN_AMOUNT_TO_JUSTIFY_TX && afo + afr > MIN_AMOUNT_TO_JUSTIFY_TX
}

/// When a periodic rebalance unstake may proceed: headroom must remain under the
/// cap and be worth moving, at least 40% of the pools with stake must be
/// unblocked, and either the chosen pool's weight is zero or the system-wide
/// surplus beyond what is already moving exceeds 0.05% of the staking target.
pub open spec fn spec_rebalance_allowed(s: LedgerView, epoch: u64) -> bool {
    let cap = spec_apply_pct(s.unstake_for_rebalance_cap_bp, s.total_for_staking);
    let n = s.staking_pools.len() as int;
    let sel = spec_select_unstake(s.staking_pools, s.total_for_staking, epoch, n);
    &&& s.unstaked_for_rebalance < cap
    &&& cap - s.unstaked_for_rebalance >= MIN_STAKE_UNSTAKE_AMOUNT_MOVEMENT
    &&& crate::allocator::spec_count_unblocked(s.staking_pools, n)
        >= (crate::allocator::spec_count_with_stake(s.staking_pools, n) * 40) / 100
    &&& {
        ||| s.staking_pools[sel.0].weight_basis_points == 0
        ||| crate::allocator::spec_sum_extra(s.staking_pools, s.total_for_staking, epoch, n)
            - s.unstaked_for_rebalance > s.total_for_staking / 2000
    }
}

/// The amount an allowed rebalance unstake moves: the chosen pool's surplus,
/// capped by the headroom left under the rebalance cap.
pub open spec fn spec_rebalance_amount(s: LedgerView, epoch: u64) -> int {
    let cap = spec_apply_pct(s.unstake_for_rebalance_cap_bp, s.total_for_staking);
    let n = s.staking_pools.len() as int;
    let sel = spec_select_unstake(s.staking_pools, s.total_for_staking, epoch, n);
    min(sel.1, cap - s.unstaked_for_rebalance)
}

impl MetaPool {
    /// Cap on the total amount that may sit unstaked for rebalancing.
    pub fn max_unstake_for_rebalance(&self) -> (r: u128)
        requires
            self.unstake_for_rebalance_cap_bp <= MAX_BASIS_POINTS,
        ensures
            r == spec_apply_pct(self.unstake_for_rebalance_cap_bp, self.total_for_staking),
            r <= self.total_for_staking,
    {
        apply_pct(self.unstake_for_rebalance_cap_bp, self.total_for_staking)
    }

    /// Launches an unstake of the two amounts' sum on one pool: sets both
    /// busy locks and applies the optimistic counter moves. The shared
    /// primitive of every unstake flow; a zero total does nothing.
    pub fn perform_unstake(
        &mut self,
        sp_inx: usize,
        amount_from_unstake_orders: u128,
        amount_from_rebalance: u128,
    )
        requires
            amount_from_unstake_orders + amount_from_rebalance <= u128::MAX,
            amount_from_unstake_orders + amount_from_rebalance > 0 ==> {
                &&& !old(self).contract_busy
                &&& sp_inx < old(self).staking_pools@.len()
                &&& !old(self).staking_pools@[sp_inx as int].busy_lock
                &&& old(self).total_actually_staked
                    >= amount_from_unstake_orders + amount_from_rebalance
                &&& old(self).staking_pools@[sp_inx as int].staked
                    >= amount_from_unstake_orders + amount_from_rebalance
                &&& old(self).epoch_unstake_orders >= amount_from_unstake_orders
            },
        ensures
            final(self)@ == spec_perform_unstake(
                old(self)@,
                sp_inx as int,
                amount_from_unstake_orders,
                amount_from_rebalance,
            ),
    {
        let total_amount = amount_from_unstake_orders + amount_from_rebalance;
        if total_amount == 0 {
            proof {
                assert(final(self)@ =~= spec_perform_unstake(
                    old(self)@,
                    sp_inx as int,
                    amount_from_unstake_orders,
                    amount_from_rebalance,
                ));
            }
            return ;
        }
        self.contract_busy = true;
        let sp = &mut self.staking_pools[sp_inx];
        sp.busy_lock = true;
        // Preventively count the amount as unstaked and the order portion as
        // fulfilled; the callback reverts both if the call fails.
        self.total_actually_staked -= total_amount;
        self.epoch_unstake_orders -= amount_from_unstake_orders;
        proof {
            assert(final(self)@ =~= spec_perform_unstake(
                old(self)@,
                sp_inx as int,
                amount_from_unstake_orders,
                amount_from_rebalance,
            ));
        }
    }

    /// Settles an unstake call: on success the total moves from `staked` to
    /// `unstaked` and the delay clock restarts; on failure the optimistic
    /// counters are reverted exactly. Busy locks clear either way.
    pub fn on_staking_pool_unstake(
        &mut self,
        sp_inx: usize,
        amount_from_unstake_orders: u128,
        amount_from_rebalance: u128,
        unstake_succeeded: bool,
        epoch: u64,
    )
        requires
            sp_inx < old(self).staking_pools@.len(),
            amount_from_unstake_orders + amount_from_rebalance <= u128::MAX,
            unstake_succeeded ==> {
                let total = amount_from_unstake_orders + amount_from_rebalance;
                &&& old(self).staking_pools@[sp_inx as int].staked >= total
                &&& old(self).staking_pools@[sp_inx as int].unstaked + total <= u128::MAX
                &&& old(self).total_unstaked_and_waiting + total <= u128::MAX
                &&& old(self).unstaked_for_rebalance + amount_from_rebalance <= u128::MAX
            },
            !unstake_succeeded ==> {
                let total = amount_from_unstake_orders + amount_from_rebalance;
                &&& old(self).total_actually_staked + total <= u128::MAX
                &&& old(self).epoch_unstake_orders + amount_from_unstake_orders <= u128::MAX
            },
        ensures
            final(self)@ == spec_unstake_settled(
                old(self)@,
                sp_inx as int,
                amount_from_unstake_orders,
                amount_from_rebalance,
                unstake_succeeded,
                epoch,
            ),
    {
        let total_amount = amount_from_unstake_orders + amount_from_rebalance;
        if unstake_succeeded {
            let sp = &mut self.staking_pools[sp_inx];
            sp.staked -= total_amount;
            sp.unstaked += total_amount;
            sp.unstk_req_epoch_height = epoch;
            sp.busy_lock = false;
            self.total_unstaked_and_waiting += total_amount;
            self.unstaked_for_rebalance += amount_from_rebalance;
        } else {
            let sp = &mut self.staking_pools[sp_inx];
            sp.busy_lock = false;
            self.total_actually_staked += total_amount;
            self.epoch_unstake_orders += amount_from_unstake_orders;
        }
        self.contract_busy = false;
        proof {
            assert(final(self)@ =~= spec_unstake_settled(
                old(self)@,
                sp_inx as int,
                amount_from_unstake_orders,
                amount_from_rebalance,
                unstake_succeeded,
                epoch,
            ));
        }
    }

    /// Distributes queued unstake: clears orders, picks the pool furthest
    /// above target among those free to take a request, opportunistically
    /// piggy-backs a rebalance portion under the cap, and launches at most
    /// one unstake call. Returns whether the driver should call again, and
    /// the call to issue.
    pub fn distribute_unstaking(&mut self, epoch: u64) -> (r: (bool, UnstakeAction))
        requires
            !old(self).contract_busy,
            old(self).spec_weights_ok(),
            spec_clearing_fits(old(self)@),
            old(self).unstake_for_rebalance_cap_bp <= MAX_BASIS_POINTS,
            old(self).staking_pools@.len() <= u16::MAX,
            spec_sum_staked(old(self).staking_pools@, old(self).staking_pools@.len() as int)
                <= u128::MAX,
            spec_distribute_unstaking_launches(spec_clearing(old(self)@), epoch) ==> {
                let s1 = spec_clearing(old(self)@);
                let (i, afo, afr) = spec_unstake_plan(s1, epoch);
                &&& i < s1.staking_pools.len()
                &&& !s1.staking_pools[i].busy_lock
                &&& s1.staking_pools[i].staked >= afo + afr
                &&& s1.total_actually_staked >= afo + afr
            },
        ensures
            ({
                let s1 = spec_clearing(old(self)@);
                let (i, afo, afr) = spec_unstake_plan(s1, epoch);
                if spec_distribute_unstaking_launches(s1, epoch) {
                    &&& final(self)@ == spec_perform_unstake(s1, i, afo as u128, afr as u128)
                    &&& r.1 == (UnstakeAction::Unstake {
                        sp_inx: i as usize,
                        amount_from_orders: afo as u128,
                        amount_from_rebalance: afr as u128,
                    })
                    &&& r.0 == (s1.epoch_unstake_orders - afo > 0)
                } else {
                    final(self)@ == s1 && r == (false, UnstakeAction::Idle)
                }
            }),
    {
        self.internal_end_of_epoch_clearing();
        if self.epoch_unstake_orders <= MIN_AMOUNT_TO_JUSTIFY_TX {
            return (false, UnstakeAction::Idle);
        }
        let mut unstake_from_orders = self.epoch_unstake_orders;
        let mut unstake_from_rebalance: u128 = 0;
        let gspru = self.internal_get_staking_pool_requiring_unstake(epoch);
        if gspru.extra > 0 {
            if gspru.extra <= self.epoch_unstake_orders {
                unstake_from_orders = gspru.extra;
            } else {
                // More surplus at the pool than ordered: seize the chance to
                // also unstake for rebalance, within the cap's headroom.
                let max_unstake_for_rebalance = self.max_unstake_for_rebalance();
                if self.unstaked_for_rebalance < max_unstake_for_rebalance {
                    let cap_left = max_unstake_for_rebalance - self.unstaked_for_rebalance;
                    if cap_left > ONE_NEAR {
                        let surplus_left = gspru.extra - unstake_from_orders;
                        unstake_from_rebalance = if cap_left <= surplus_left {
                            cap_left
                        } else {
                            surplus_left
                        };
                    }
                }
            }
        }
        if unstake_from_orders + unstake_from_rebalance > MIN_AMOUNT_TO_JUSTIFY_TX {
            self.perform_unstake(
                gspru.sp_inx as usize,
                unstake_from_orders,
                unstake_from_rebalance,
            );
            return (self.epoch_unstake_orders > 0, UnstakeAction::Unstake {
                sp_inx: gspru.sp_inx as usize,
                amount_from_orders: unstake_from_orders,
                amount_from_rebalance: unstake_from_rebalance,
            });
        }
        (false, UnstakeAction::Idle)
    }

    /// Starts a periodic rebalance unstake when the thresholds allow one; returns
    /// whether enough headroom remains to call again, and the call to issue.
    pub fn do_rebalance_unstake(&mut self, epoch: u64) -> (r: (bool, UnstakeAction))
        requires
            old(self).spec_weights_ok(),
            old(self).unstake_for_rebalance_cap_bp <= MAX_BASIS_POINTS,
            old(self).staking_pools@.len() <= u16::MAX,
            spec_sum_staked(old(self).staking_pools@, old(self).staking_pools@.len() as int)
                <= u128::MAX,
            ({
                let s = old(self)@;
                let cap = spec_apply_pct(s.unstake_for_rebalance_cap_bp, s.total_for_staking);
                let sel = spec_select_unstake(
                    s.staking_pools,
                    s.total_for_staking,
                    epoch,
                    s.staking_pools.len() as int,
                );
                s.unstaked_for_rebalance < cap
                    && cap - s.unstaked_for_rebalance >= MIN_STAKE_UNSTAKE_AMOUNT_MOVEMENT ==> {
                    &&& sel.0 < s.staking_pools.len()
                    &&& (s.staking_pools[sel.0].weight_basis_points != 0 ==> crate::allocator::spec_sum_extra(
                        s.staking_pools,
                        s.total_for_staking,
                        epoch,
                        s.staking_pools.len() as int,
                    ) >= s.unstaked_for_rebalance)
                }
            }),
            spec_rebalance_allowed(old(self)@, epoch) && spec_rebalance_amount(old(self)@, epoch) > 0
                ==> {
                &&& !old(self).contract_busy
                &&& old(self).total_actually_staked >= spec_rebalance_amount(old(self)@, epoch)
            },
        ensures
            ({
                let s = old(self)@;
                let sel = spec_select_unstake(
                    s.staking_pools,
                    s.total_for_staking,
                    epoch,
                    s.staking_pools.len() as int,
                );
                let cap = spec_apply_pct(s.unstake_for_rebalance_cap_bp, s.total_for_staking);
                let amount = spec_rebalance_amount(s, epoch);
                if spec_rebalance_allowed(s, epoch) {
                    &&& final(self)@ == spec_perform_unstake(s, sel.0, 0, amount as u128)
                    &&& r.1 == (UnstakeAction::Unstake {
                        sp_inx: sel.0 as usize,
                        amount_from_orders: 0,
                        amount_from_rebalance: amount as u128,
                    })
                    &&& r.0 == (cap - s.unstaked_for_rebalance - amount
                        >= MIN_STAKE_UNSTAKE_AMOUNT_MOVEMENT)
                } else {
                    final(self)@ == s && r == (false, UnstakeAction::Idle)
                }
            }),
    {
        let max_unstake_for_rebalance = self.max_unstake_for_rebalance();
        if self.unstaked_for_rebalance < max_unstake_for_rebalance {
            let unstake_rebalance_left = max_unstake_for_rebalance - self.unstaked_for_rebalance;
            if unstake_rebalance_left >= crate::MIN_STAKE_UNSTAKE_AMOUNT_MOVEMENT {
                let gspru = self.internal_get_staking_pool_requiring_unstake(epoch);
                // Proceed only while at least 40% of the pools with stake are
                // unblocked, and the imbalance is worth solving: the chosen
                // pool must be evacuated (weight zero) or the system-wide
                // surplus still to move exceeds 0.05% of the staking target.
                if gspru.count_unblocked as u64 >= gspru.count_with_stake as u64 * 40 / 100 && (
                self.staking_pools[gspru.sp_inx as usize].weight_basis_points == 0
                    || gspru.total_extra - self.unstaked_for_rebalance
                        > self.total_for_staking / 2000) {
                    let to_unstake_for_rebal = if gspru.extra <= unstake_rebalance_left {
                        gspru.extra
                    } else {
                        unstake_rebalance_left
                    };
                    self.perform_unstake(gspru.sp_inx as usize, 0, to_unstake_for_rebal);
                    return (
                        unstake_rebalance_left - to_unstake_for_rebal
                            >= crate::MIN_STAKE_UNSTAKE_AMOUNT_MOVEMENT,
                        UnstakeAction::Unstake {
                            sp_inx: gspru.sp_inx as usize,
                            amount_from_orders: 0,
                            amount_from_rebalance: to_unstake_for_rebal,
                        },
                    );
                }
            }
        }
        (false, UnstakeAction::Idle)
    }

    /// Immediately unstakes a pool's full excess over its target weight,
    /// bypassing the rebalance cap: the operator's tool to evacuate a
    /// validator. Refused while the pool has an unstake pending from an
    /// earlier epoch, which a new request would extend.
    pub fn force_rebalance_unstake(&mut self, inx: u16, epoch: u64) -> (r: UnstakeAction)
        requires
            !old(self).contract_busy,
            old(self).spec_weights_ok(),
            inx < old(self).staking_pools@.len(),
            !old(self).staking_pools@[inx as int].busy_lock,
            old(self).staking_pools@[inx as int].unstaked == 0
                || old(self).staking_pools@[inx as int].unstk_req_epoch_height == epoch,
            old(self).staking_pools@[inx as int].staked > spec_should_have(
                old(self).staking_pools@[inx as int],
                old(self).total_for_staking,
            ),
            old(self).total_actually_staked >= old(self).staking_pools@[inx as int].staked
                - spec_should_have(
                old(self).staking_pools@[inx as int],
                old(self).total_for_staking,
            ),
        ensures
            ({
                let sp = old(self)@.staking_pools[inx as int];
                let extra = sp.staked - spec_should_have(sp, old(self).total_for_staking);
                &&& final(self)@ == spec_perform_unstake(old(self)@, inx as int, 0, extra as u128)
                &&& r == (UnstakeAction::Unstake {
                    sp_inx: inx as usize,
                    amount_from_orders: 0,
                    amount_from_rebalance: extra as u128,
                })
            }),
    {
        let sp_inx = inx as usize;
        proof {
            crate::allocator::lemma_weight_le_sum(
                self.staking_pools@,
                self.staking_pools@.len() as int,
                sp_inx as int,
            );
        }
        let sp = &self.staking_pools[sp_inx];
        // The cap on a forced rebalance is the pool's own target.
        let should_have = apply_pct(sp.weight_basis_points, self.total_for_staking);
        let extra = sp.staked - should_have;
        self.perform_unstake(sp_inx, 0, extra);
        UnstakeAction::Unstake {
            sp_inx,
            amount_from_orders: 0,
            amount_from_rebalance: extra,
        }
    }
}

/// Both busy locks taken against one pool, nothing else moved: the state a
/// retrieval or a balance query holds while its call is in flight.
pub open spec fn spec_locks_taken(s: LedgerView, sp_inx: int) -> LedgerView {
    LedgerView {
        contract_busy: true,
        staking_pools: s.staking_pools.update(
            sp_inx,
            StakingPoolInfo { busy_lock: true, ..s.staking_pools[sp_inx] },
        ),
        ..s
    }
}

/// Settlement of a withdraw-all call. On success the pool's whole unstaked
/// balance lands in the contract's own balance and flows through the claims
/// reserve; the waiting total drops by the same amount, floored at zero for
/// pool-side rounding dust. On failure only the busy locks clear.
pub open spec fn spec_retrieve_settled(s: LedgerView, sp_inx: int, success: bool) -> LedgerView {
    let sp = s.staking_pools[sp_inx];
    let amount = sp.unstaked;
    if success {
        let s1 = LedgerView {
            contract_busy: false,
            staking_pools: s.staking_pools.update(
                sp_inx,
                StakingPoolInfo { busy_lock: false, unstaked: 0, ..sp },
            ),
            total_unstaked_and_waiting: if s.total_unstaked_and_waiting >= amount {
                (s.total_unstaked_and_waiting - amount) as u128
            } else {
                0
            },
            contract_account_balance: (s.contract_account_balance + amount) as u128,
            ..s
        };
        spec_reserve(s1, amount as int)
    } else {
        LedgerView {
            contract_busy: false,
            staking_pools: s.staking_pools.update(
                sp_inx,
                StakingPoolInfo { busy_lock: false, ..sp },
            ),
            ..s
        }
    }
}

/// A balance sync applied: the pool's `unstaked` becomes what the pool
/// itself reported, and the difference moves into or out of our record of
/// its `staked` (floored at zero), since that is where the drift sat.
pub open spec fn spec_sync_applied(s: LedgerView, sp_inx: int, real_unstaked: u128) -> LedgerView {
    let sp = s.staking_pools[sp_inx];
    let staked1 = if real_unstaked > sp.unstaked {
        let difference = real_unstaked - sp.unstaked;
        if sp.staked >= difference {
            (sp.staked - difference) as u128
        } else {
            0
        }
    } else {
        (sp.staked + (sp.unstaked - real_unstaked)) as u128
    };
    LedgerView {
        staking_pools: s.staking_pools.update(
            sp_inx,
            StakingPoolInfo { unstaked: real_unstaked, staked: staked1, ..sp },
        ),
        ..s
    }
}

/// Rewards reported by a pool: the excess of its reported total over what the
/// core had on record; a shortfall counts as zero rewards, since it can stem
/// from benign pool-side rounding.
pub open spec fn spec_rewards_of(s: LedgerView, sp_inx: int, total_balance: u128) -> int {
    let sp = s.staking_pools[sp_inx];
    if total_balance >= sp.staked + sp.unstaked {
        total_balance - sp.staked - sp.unstaked
    } else {
        0
    }
}

/// Operator fee shares minted for a reward round.
pub open spec fn spec_operator_fee_shares(s: LedgerView, sp_inx: int, total_balance: u128) -> int {
    let rewards = spec_rewards_of(s, sp_inx, total_balance);
    let tfs1 = (s.total_for_staking + rewards) as u128;
    crate::wide::spec_shares_from_amount(
        spec_apply_pct(s.operator_rewards_fee_basis_points, rewards as u128) as u128,
        tfs1,
        s.total_stake_shares,
    )
}

/// Maintainer fee shares minted for a reward round.
pub open spec fn spec_developers_fee_shares(s: LedgerView, sp_inx: int, total_balance: u128) -> int {
    let rewards = spec_rewards_of(s, sp_inx, total_balance);
    let tfs1 = (s.total_for_staking + rewards) as u128;
    crate::wide::spec_shares_from_amount(
        spec_apply_pct(crate::DEVELOPERS_REWARDS_FEE_BASIS_POINTS, rewards as u128) as u128,
        tfs1,
        s.total_stake_shares,
    )
}

/// Settlement of a total-balance query: busy locks clear, the pool's record
/// takes the reported total, and any rewards raise `total_for_staking` and
/// `total_actually_staked` alike (no distribution work arises) while the two
/// fee cuts are minted as fresh shares, diluting all holders.
pub open spec fn spec_rewards_settled(
    s: LedgerView,
    sp_inx: int,
    total_balance: u128,
    epoch: u64,
) -> LedgerView {
    let sp = s.staking_pools[sp_inx];
    let rewards = spec_rewards_of(s, sp_inx, total_balance);
    let s1 = LedgerView {
        contract_busy: false,
        staking_pools: s.staking_pools.update(
            sp_inx,
            StakingPoolInfo {
                busy_lock: false,
                last_asked_rewards_epoch_height: epoch,
                staked: (total_balance - sp.unstaked) as u128,
                ..sp
            },
        ),
        accumulated_staked_rewards: (s.accumulated_staked_rewards + rewards) as u128,
        ..s
    };
    if rewards > 0 {
        LedgerView {
            total_for_staking: (s.total_for_staking + rewards) as u128,
            total_actually_staked: (s.total_actually_staked + rewards) as u128,
            total_stake_shares: (s.total_stake_shares
                + spec_operator_fee_shares(s, sp_inx, total_balance)
                + spec_developers_fee_shares(s, sp_inx, total_balance)) as u128,
            ..s1
        }
    } else {
        s1
    }
}

/// The reward settlement stays within the counters' machine range.
pub open spec fn spec_rewards_fits(s: LedgerView, sp_inx: int, total_balance: u128) -> bool {
    let rewards = spec_rewards_of(s, sp_inx, total_balance);
    &&& s.accumulated_staked_rewards + rewards <= u128::MAX
    &&& s.total_for_staking + rewards <= u128::MAX
    &&& s.total_actually_staked + rewards <= u128::MAX
    &&& s.total_stake_shares + spec_operator_fee_shares(s, sp_inx, total_balance)
        + spec_developers_fee_shares(s, sp_inx, total_balance) <= u128::MAX
}

impl MetaPool {
    /// Starts retrieval of a pool's matured unstaked funds: validates that
    /// the pool is ready and free, and sets both busy locks. The host then
    /// issues the withdraw-all call.
    pub fn retrieve_funds_from_a_pool(&mut self, inx: u16, epoch: u64)
        requires
            !old(self).contract_busy,
            inx < old(self).staking_pools@.len(),
            !old(self).staking_pools@[inx as int].busy_lock,
            old(self).staking_pools@[inx as int].unstaked > 0,
            old(self).staking_pools@[inx as int].spec_wait_period_ended(epoch),
        ensures
            final(self)@ == spec_locks_taken(old(self)@, inx as int),
    {
        self.contract_busy = true;
        let sp = &mut self.staking_pools[inx as usize];
        sp.busy_lock = true;
        proof {
            assert(final(self)@ =~= spec_locks_taken(old(self)@, inx as int));
        }
    }

    /// Settles a withdraw-all call: clears the busy locks first; on success
    /// credits the whole tracked unstaked amount to the contract balance and
    /// routes it through the claims reserve. Returns the amount retrieved.
    pub fn on_retrieve_from_staking_pool(&mut self, inx: u16, retrieve_succeeded: bool) -> (r:
        u128)
        requires
            inx < old(self).staking_pools@.len(),
            retrieve_succeeded ==> {
                let amount = old(self).staking_pools@[inx as int].unstaked;
                &&& old(self).contract_account_balance + amount <= u128::MAX
                &&& spec_reserve_fits(
                    spec_retrieve_settled_pre_reserve(old(self)@, inx as int),
                    amount as int,
                )
            },
        ensures
            final(self)@ == spec_retrieve_settled(old(self)@, inx as int, retrieve_succeeded),
            r == if retrieve_succeeded {
                old(self).staking_pools@[inx as int].unstaked as int
            } else {
                0
            },
    {
        let sp = &mut self.staking_pools[inx as usize];
        let amount = sp.unstaked;
        // Busy locks are released before anything else: this settlement must
        // never leave them set.
        sp.busy_lock = false;
        self.contract_busy = false;
        if retrieve_succeeded {
            let sp2 = &mut self.staking_pools[inx as usize];
            sp2.unstaked = 0;
            self.total_unstaked_and_waiting = if self.total_unstaked_and_waiting >= amount {
                self.total_unstaked_and_waiting - amount
            } else {
                0
            };
            self.contract_account_balance += amount;
            self.consider_retrieved_for_unstake_claims(amount);
            proof {
                assert(final(self)@ =~= spec_retrieve_settled(old(self)@, inx as int, true));
            }
            amount
        } else {
            proof {
                assert(final(self)@ =~= spec_retrieve_settled(old(self)@, inx as int, false));
            }
            0
        }
    }

    /// Validates a balance-sync query against one pool and names the account
    /// to query. No lock is taken: spamming this query must not be able to
    /// starve the operator, so a race is detected when the answer arrives.
    pub fn sync_unstaked_balance(&self, sp_inx: u16) -> (target: String)
        requires
            sp_inx < self.staking_pools@.len(),
            !self.contract_busy,
            !self.staking_pools@[sp_inx as int].busy_lock,
        ensures
            target == self.staking_pools@[sp_inx as int].account_id,
    {
        self.staking_pools[sp_inx as usize].account_id.clone()
    }

    /// Applies the unstaked balance a pool reported, correcting the few-unit
    /// rounding drift of share-based pools. If any operation is now in
    /// flight and the answer would change the record, the stale answer is
    /// rejected outright and nothing changes.
    pub fn on_get_sp_unstaked_balance(&mut self, sp_inx: usize, unstaked_balance: u128) -> (r:
        Result<(), SyncError>)
        requires
            sp_inx < old(self).staking_pools@.len(),
            unstaked_balance < old(self).staking_pools@[sp_inx as int].unstaked ==> {
                old(self).staking_pools@[sp_inx as int].staked
                    + (old(self).staking_pools@[sp_inx as int].unstaked - unstaked_balance)
                    <= u128::MAX
            },
        ensures
            ({
                let sp = old(self)@.staking_pools[sp_inx as int];
                let conflict = unstaked_balance != sp.unstaked && (old(self).contract_busy
                    || sp.busy_lock);
                if conflict {
                    final(self)@ == old(self)@ && r is Err
                } else {
                    final(self)@ == spec_sync_applied(old(self)@, sp_inx as int, unstaked_balance)
                        && r is Ok
                }
            }),
    {
        let real_unstaked_balance = unstaked_balance;
        let busy = self.contract_busy;
        let sp = &mut self.staking_pools[sp_inx];
        if real_unstaked_balance != sp.unstaked && (busy || sp.busy_lock) {
            // Another operation is mid-flight: applying this answer could
            // write a stale balance over live bookkeeping.
            proof {
                assert(final(self)@ =~= old(self)@);
            }
            return Err(SyncError::OperationInFlight);
        }
        if real_unstaked_balance > sp.unstaked {
            let difference = real_unstaked_balance - sp.unstaked;
            sp.unstaked = real_unstaked_balance;
            sp.staked = if sp.staked >= difference {
                sp.staked - difference
            } else {
                0
            };
        } else if real_unstaked_balance < sp.unstaked {
            let difference = sp.unstaked - real_unstaked_balance;
            sp.unstaked = real_unstaked_balance;
            sp.staked += difference;
        }
        proof {
            assert(final(self)@ =~= spec_sync_applied(old(self)@, sp_inx as int, unstaked_balance));
        }
        Ok(())
    }

    /// Asks one pool for its total balance, once per epoch per pool: skips
    /// pools with nothing in them and pools already asked this epoch;
    /// otherwise sets both busy locks. Returns whether the query was issued.
    pub fn distribute_rewards(&mut self, sp_inx: u16, epoch: u64) -> (launched: bool)
        requires
            !old(self).contract_busy,
            sp_inx < old(self).staking_pools@.len(),
            !old(self).staking_pools@[sp_inx as int].busy_lock,
        ensures
            ({
                let sp = old(self)@.staking_pools[sp_inx as int];
                if (sp.staked == 0 && sp.unstaked == 0) || sp.last_asked_rewards_epoch_height
                    == epoch {
                    final(self)@ == old(self)@ && !launched
                } else {
                    final(self)@ == spec_locks_taken(old(self)@, sp_inx as int) && launched
                }
            }),
    {
        let sp = &mut self.staking_pools[sp_inx as usize];
        if sp.staked == 0 && sp.unstaked == 0 {
            proof {
                assert(final(self)@ =~= old(self)@);
            }
            return false;
        }
        if sp.last_asked_rewards_epoch_height == epoch {
            proof {
                assert(final(self)@ =~= old(self)@);
            }
            return false;
        }
        sp.busy_lock = true;
        self.contract_busy = true;
        proof {
            assert(final(self)@ =~= spec_locks_taken(old(self)@, sp_inx as int));
        }
        true
    }

    /// Settles a total-balance query: clears the busy locks first, stamps the
    /// epoch, takes the reported total as the pool's new record, and mints
    /// the two fee cuts. Returns the operator's and the maintainers' freshly
    /// minted shares, for the host to credit.
    pub fn on_get_sp_total_balance(&mut self, sp_inx: usize, total_balance: u128, epoch: u64)
        -> (r: (u128, u128))
        requires
            sp_inx < old(self).staking_pools@.len(),
            old(self).staking_pools@[sp_inx as int].staked
                + old(self).staking_pools@[sp_inx as int].unstaked <= u128::MAX,
            total_balance >= old(self).staking_pools@[sp_inx as int].unstaked,
            old(self).operator_rewards_fee_basis_points <= MAX_BASIS_POINTS,
            spec_rewards_fits(old(self)@, sp_inx as int, total_balance),
        ensures
            final(self)@ == spec_rewards_settled(old(self)@, sp_inx as int, total_balance, epoch),
            r.0 == spec_operator_fee_shares(old(self)@, sp_inx as int, total_balance),
            r.1 == spec_developers_fee_shares(old(self)@, sp_inx as int, total_balance),
    {
        let ghost s0 = self@;
        let sp = &mut self.staking_pools[sp_inx];
        // Busy locks are released before anything else: this settlement must
        // never leave them set.
        sp.busy_lock = false;
        sp.last_asked_rewards_epoch_height = epoch;
        let old_balance = sp.staked + sp.unstaked;
        let rewards = if total_balance < old_balance {
            // The pool reports less than our record: an inconsistency that
            // benign rounding can cause; counted as zero rewards this round.
            0
        } else {
            total_balance - old_balance
        };
        sp.staked = total_balance - sp.unstaked;
        self.contract_busy = false;
        self.accumulated_staked_rewards += rewards;
        if rewards > 0 {
            // Rewards raise both totals identically: no new distribution
            // work arises, and the share price of every holder rises.
            self.total_actually_staked += rewards;
            self.total_for_staking += rewards;
            proof {
                crate::wide::lemma_apply_pct_range(s0.operator_rewards_fee_basis_points, rewards);
                crate::wide::lemma_apply_pct_range(
                    crate::DEVELOPERS_REWARDS_FEE_BASIS_POINTS,
                    rewards,
                );
                crate::wide::lemma_shares_from_amount_bounded(
                    spec_apply_pct(s0.operator_rewards_fee_basis_points, rewards) as u128,
                    self.total_for_staking,
                    self.total_stake_shares,
                );
                crate::wide::lemma_shares_from_amount_bounded(
                    spec_apply_pct(crate::DEVELOPERS_REWARDS_FEE_BASIS_POINTS, rewards) as u128,
                    self.total_for_staking,
                    self.total_stake_shares,
                );
            }
            let operator_fee = apply_pct(self.operator_rewards_fee_basis_points, rewards);
            let operator_fee_shares = crate::wide::shares_from_amount(
                operator_fee,
                self.total_for_staking,
                self.total_stake_shares,
            );
            let developers_fee = apply_pct(crate::DEVELOPERS_REWARDS_FEE_BASIS_POINTS, rewards);
            let developers_fee_shares = crate::wide::shares_from_amount(
                developers_fee,
                self.total_for_staking,
                self.total_stake_shares,
            );
            // The fees are taken by minting: the share price rise is made
            // slightly smaller instead of anything being deducted.
            self.total_stake_shares += operator_fee_shares;
            self.total_stake_shares += developers_fee_shares;
            proof {
                assert(rewards == spec_rewards_of(s0, sp_inx as int, total_balance));
                assert(operator_fee_shares == spec_operator_fee_shares(
                    s0,
                    sp_inx as int,
                    total_balance,
                ));
                assert(developers_fee_shares == spec_developers_fee_shares(
                    s0,
                    sp_inx as int,
                    total_balance,
                ));
                assert(final(self)@ =~= spec_rewards_settled(s0, sp_inx as int, total_balance, epoch));
            }
            (operator_fee_shares, developers_fee_shares)
        } else {
            proof {
                crate::wide::lemma_apply_pct_range(s0.operator_rewards_fee_basis_points, 0);
                crate::wide::lemma_apply_pct_range(crate::DEVELOPERS_REWARDS_FEE_BASIS_POINTS, 0);
                let tfs1 = (s0.total_for_staking + 0) as u128;
                if tfs1 != 0 && s0.total_stake_shares != 0 {
                    assert(s0.total_stake_shares * 0 == 0) by (nonlinear_arith) {};
                    vstd::arithmetic::div_mod::lemma_div_of0(tfs1 as int);
                }
                assert(spec_operator_fee_shares(s0, sp_inx as int, total_balance) == 0);
                assert(spec_developers_fee_shares(s0, sp_inx as int, total_balance) == 0);
                assert(final(self)@ =~= spec_rewards_settled(s0, sp_inx as int, total_balance, epoch));
            }
            (0, 0)
        }
    }

    /// Manual override of the contract-wide busy flag: the escape hatch for
    /// a lock wedged by a lost callback.
    pub fn set_busy(&mut self, value: bool)
        requires
            old(self).contract_busy != value,
        ensures
            final(self)@ == (LedgerView { contract_busy: value, ..old(self)@ }),
    {
        self.contract_busy = value;
        proof {
            assert(final(self)@ =~= (LedgerView { contract_busy: value, ..old(self)@ }));
        }
    }

    /// Manual override of one pool's busy flag.
    pub fn sp_busy(&mut self, sp_inx: u16, value: bool)
        requires
            sp_inx < old(self).staking_pools@.len(),
            old(self).staking_pools@[sp_inx as int].busy_lock != value,
        ensures
            final(self)@ == (LedgerView {
                staking_pools: old(self)@.staking_pools.update(
                    sp_inx as int,
                    StakingPoolInfo {
                        busy_lock: value,
                        ..old(self)@.staking_pools[sp_inx as int]
                    },
                ),
                ..old(self)@
            }),
    {
        let sp = &mut self.staking_pools[sp_inx as usize];
        sp.busy_lock = value;
        proof {
            assert(final(self)@ =~= (LedgerView {
                staking_pools: old(self)@.staking_pools.update(
                    sp_inx as int,
                    StakingPoolInfo {
                        busy_lock: value,
                        ..old(self)@.staking_pools[sp_inx as int]
                    },
                ),
                ..old(self)@
            }));
        }
    }

    /// Balance accumulated on the account beyond the core's own record: the
    /// host's fee kickbacks land there.
    pub fn extra_balance_accumulated(&self, account_balance: u128) -> (r: u128)
        ensures
            r == if account_balance >= self.contract_account_balance {
                account_balance - self.contract_account_balance
            } else {
                0
            },
    {
        if account_balance >= self.contract_account_balance {
            account_balance - self.contract_account_balance
        } else {
            0
        }
    }

    /// What a sweep of the accumulated extra balance should transfer to the
    /// operator: the whole extra balance when it reaches one unit, keeping
    /// ten cents behind for transfer fees. Returns the reported extra and
    /// the amount to transfer; both zero when below the threshold.
    pub fn transfer_extra_balance_accumulated(&self, account_balance: u128) -> (r: (u128, u128))
        ensures
            ({
                let extra = if account_balance >= self.contract_account_balance {
                    account_balance - self.contract_account_balance
                } else {
                    0
                };
                if extra >= ONE_NEAR {
                    r == (extra as u128, (extra - 10 * crate::NEAR_CENT) as u128)
                } else {
                    r == (0u128, 0u128)
                }
            }),
    {
        let extra_balance = self.extra_balance_accumulated(account_balance);
        if extra_balance >= ONE_NEAR {
            (extra_balance, extra_balance - 10 * crate::NEAR_CENT)
        } else {
            (0, 0)
        }
    }
}

/// The state a successful retrieval reaches just before its reserve step:
/// locks cleared, the pool emptied, the amount on the contract's balance.
pub open spec fn spec_retrieve_settled_pre_reserve(s: LedgerView, sp_inx: int) -> LedgerView {
    let sp = s.staking_pools[sp_inx];
    let amount = sp.unstaked;
    LedgerView {
        contract_busy: false,
        staking_pools: s.staking_pools.update(
            sp_inx,
            StakingPoolInfo { busy_lock: false, unstaked: 0, ..sp },
        ),
        total_unstaked_and_waiting: if s.total_unstaked_and_waiting >= amount {
            (s.total_unstaked_and_waiting - amount) as u128
        } else {
            0
        },
        contract_account_balance: (s.contract_account_balance + amount) as u128,
        ..s
    }
}

/// The state a no-transfer stake settlement reaches just before its reserve
/// step: locks cleared, the amount moved from `unstaked` to `staked`.
pub open spec fn spec_stake_settled_pre_reserve(
    s: LedgerView,
    sp_inx: int,
    amount: u128,
) -> LedgerView {
    let sp = s.staking_pools[sp_inx];
    LedgerView {
        contract_busy: false,
        staking_pools: s.staking_pools.update(
            sp_inx,
            StakingPoolInfo {
                busy_lock: false,
                staked: (sp.staked + amount) as u128,
                unstaked: (sp.unstaked - amount) as u128,
                ..sp
            },
        ),
        total_unstaked_and_waiting: (s.total_unstaked_and_waiting - amount) as u128,
        ..s
    }
}

} // verus!
