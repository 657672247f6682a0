//! Per-pool records of the registry: one entry per external staking pool.
use vstd::prelude::*;
use crate::NUM_EPOCHS_TO_UNLOCK;

verus! {

/// Record the core keeps for one external staking pool.
#[verifier::ext_equal]
pub struct StakingPoolInfo {
    /// Account of the external staking-pool contract.
    pub account_id: String,
    /// Target share of `total_for_staking`, in basis points of 10000.
    pub weight_basis_points: u16,
    /// Amount the core believes is staked at this pool.
    pub staked: u128,
    /// Amount unstaked at this pool and waiting out the unlock delay.
    pub unstaked: u128,
    /// True exactly while an outbound call against this pool is pending.
    pub busy_lock: bool,
    /// Epoch at which the pool's current unstake delay started.
    pub unstk_req_epoch_height: u64,
    /// Last epoch at which this pool was asked for its rewards.
    pub last_asked_rewards_epoch_height: u64,
}

impl StakingPoolInfo {
    /// A freshly registered pool: nothing staked, nothing unstaked, not busy.
    pub fn new(account_id: String, weight_basis_points: u16) -> (sp: Self)
        ensures
            sp.account_id == account_id,
            sp.weight_basis_points == weight_basis_points,
            sp.staked == 0,
            sp.unstaked == 0,
            !sp.busy_lock,
            sp.unstk_req_epoch_height == 0,
            sp.last_asked_rewards_epoch_height == 0,
    {
        StakingPoolInfo {
            account_id,
            weight_basis_points,
            staked: 0,
            unstaked: 0,
            busy_lock: false,
            unstk_req_epoch_height: 0,
            last_asked_rewards_epoch_height: 0,
        }
    }

    /// Staked plus unstaked, as the pool's whole balance.
    pub open spec fn spec_total_balance(&self) -> int {
        self.staked + self.unstaked
    }

    /// Staked plus unstaked, as the pool's whole balance.
    pub fn total_balance(&self) -> (r: u128)
        requires
            self.staked + self.unstaked <= u128::MAX,
        ensures
            r == self.spec_total_balance(),
    {
        self.staked + self.unstaked
    }

    /// A pool may be removed from the registry only when it holds nothing.
    pub open spec fn spec_is_empty(&self) -> bool {
        self.staked == 0 && self.unstaked == 0
    }

    /// A pool may be removed from the registry only when it holds nothing.
    pub fn is_empty(&self) -> (r: bool)
        ensures
            r == self.spec_is_empty(),
    {
        self.staked == 0 && self.unstaked == 0
    }

    /// The unlock delay that started at `unstk_req_epoch_height` has elapsed.
    pub open spec fn spec_wait_period_ended(&self, epoch: u64) -> bool {
        epoch >= self.unstk_req_epoch_height + NUM_EPOCHS_TO_UNLOCK
    }

    /// The unlock delay that started at `unstk_req_epoch_height` has elapsed.
    pub fn wait_period_ended(&self, epoch: u64) -> (r: bool)
        ensures
            r == self.spec_wait_period_ended(epoch),
    {
        epoch >= self.unstk_req_epoch_height
            && epoch - self.unstk_req_epoch_height >= NUM_EPOCHS_TO_UNLOCK
    }
}

/// Plain snapshot of one pool record, as views and drivers consume it.
pub struct StakingPoolJSONInfo {
    pub account_id: String,
    pub weight_basis_points: u16,
    pub staked: u128,
    pub unstaked: u128,
    pub unstaked_requested_epoch_height: u64,
    pub last_asked_rewards_epoch_height: u64,
}

} // verus!
