//! The global ledger and pool registry: the contract's whole durable state.
use vstd::prelude::*;
use crate::pool::{StakingPoolInfo, StakingPoolJSONInfo};
use crate::{DEFAULT_OPERATOR_REWARDS_FEE_BP, DEFAULT_UNSTAKE_FOR_REBALANCE_CAP_BP, MAX_BASIS_POINTS, ONE_NEAR};

verus! {

/// The single state instance: ledger scalars, configuration, and the ordered
/// pool registry. Every mutating operation of the core works on this value.
pub struct MetaPool {
    /// True while a contract-wide operation has an outbound call pending.
    pub contract_busy: bool,
    /// Base-currency balance the core believes its own account holds.
    pub contract_account_balance: u128,
    /// Sum of all users' immediately withdrawable balances.
    pub total_available: u128,
    /// Value that should be staked: the sum of all minted stake-share value.
    pub total_for_staking: u128,
    /// Value the core believes is physically staked across all pools.
    pub total_actually_staked: u128,
    /// Net amount queued this epoch to be staked.
    pub epoch_stake_orders: u128,
    /// Net amount queued this epoch to be unstaked.
    pub epoch_unstake_orders: u128,
    /// Value unstaked from pools, still inside the pools' unlock delay.
    pub total_unstaked_and_waiting: u128,
    /// Total value users are owed through delayed unstake.
    pub total_unstake_claims: u128,
    /// Value already pulled into the contract, earmarked for those claims.
    pub retrieved_for_unstake_claims: u128,
    /// Part of `total_unstaked_and_waiting` that came from rebalancing.
    pub unstaked_for_rebalance: u128,
    /// Rewards the pools have reported since inception.
    pub accumulated_staked_rewards: u128,
    /// Value retrieved from pools since inception, after the unlock delay.
    pub total_actually_unstaked_and_retrieved: u128,
    /// Stake shares minted and not yet burned.
    pub total_stake_shares: u128,
    /// True while owner has paused the intake of new stake.
    pub staking_paused: bool,
    /// Ordered registry of external staking pools.
    pub staking_pools: Vec<StakingPoolInfo>,

    /// Account that owns the contract.
    pub owner_account_id: String,
    /// Account the operator drives distribution from.
    pub operator_account_id: String,
    /// Smallest deposit accepted.
    pub min_deposit_amount: u128,
    /// Smallest balance an open user account may keep.
    pub min_account_balance: u128,
    /// Fee on rewards minted for the operator, in basis points.
    pub operator_rewards_fee_basis_points: u16,
    /// Operator's cut of swap fees, in basis points.
    pub operator_swap_cut_basis_points: u16,
    /// Treasury's cut of swap fees, in basis points.
    pub treasury_swap_cut_basis_points: u16,
    /// Cap on rebalance unstakes, in basis points of `total_for_staking`.
    pub unstake_for_rebalance_cap_bp: u16,
    /// Liquidity the liquidity pool aims to hold.
    pub nslp_liquidity_target: u128,
    /// Largest discount the liquidity pool charges, in basis points.
    pub nslp_max_discount_basis_points: u16,
    /// Smallest discount the liquidity pool charges, in basis points.
    pub nslp_min_discount_basis_points: u16,
    /// Reward multiplier for stakers, in percent.
    pub staker_meta_mult_pct: u16,
    /// Reward multiplier for liquid unstakers, in percent.
    pub stnear_sell_meta_mult_pct: u16,
    /// Reward multiplier for liquidity providers, in percent.
    pub lp_provider_meta_mult_pct: u16,
    /// Public URL of the web application, if one is set.
    pub web_app_url: Option<String>,
    /// Auditor account, if one is set.
    pub auditor_account_id: Option<String>,
}

/// Plain snapshot of the ledger totals.
pub struct GetContractStateResult {
    pub total_available: u128,
    pub total_for_staking: u128,
    pub total_actually_staked: u128,
    pub accumulated_staked_rewards: u128,
    pub total_unstaked_and_waiting: u128,
    pub total_actually_unstaked_and_retrieved: u128,
    pub total_unstake_claims: u128,
    pub retrieved_for_unstake_claims: u128,
    pub epoch_stake_orders: u128,
    pub epoch_unstake_orders: u128,
    pub total_stake_shares: u128,
    pub staking_pools_count: u16,
}

/// Plain snapshot of the configurable parameters.
pub struct ContractParamsJSON {
    pub staking_paused: bool,
    pub min_account_balance: u128,
    pub nslp_near_one_percent_target: u128,
    pub nslp_max_discount_basis_points: u16,
    pub nslp_min_discount_basis_points: u16,
    pub staker_meta_mult_pct: u16,
    pub stnear_sell_meta_mult_pct: u16,
    pub lp_provider_meta_mult_pct: u16,
    pub operator_rewards_fee_basis_points: u16,
    pub operator_swap_cut_basis_points: u16,
    pub treasury_swap_cut_basis_points: u16,
}

/// Mathematical image of the whole state: the same fields, with the registry
/// as a sequence. Transition spec functions map views to views, and every
/// mutating operation's contract says which transition it performs.
#[verifier::ext_equal]
pub struct LedgerView {
    pub contract_busy: bool,
    pub contract_account_balance: u128,
    pub total_available: u128,
    pub total_for_staking: u128,
    pub total_actually_staked: u128,
    pub epoch_stake_orders: u128,
    pub epoch_unstake_orders: u128,
    pub total_unstaked_and_waiting: u128,
    pub total_unstake_claims: u128,
    pub retrieved_for_unstake_claims: u128,
    pub unstaked_for_rebalance: u128,
    pub accumulated_staked_rewards: u128,
    pub total_actually_unstaked_and_retrieved: u128,
    pub total_stake_shares: u128,
    pub staking_paused: bool,
    pub staking_pools: Seq<StakingPoolInfo>,
    pub owner_account_id: String,
    pub operator_account_id: String,
    pub min_deposit_amount: u128,
    pub min_account_balance: u128,
    pub operator_rewards_fee_basis_points: u16,
    pub operator_swap_cut_basis_points: u16,
    pub treasury_swap_cut_basis_points: u16,
    pub unstake_for_rebalance_cap_bp: u16,
    pub nslp_liquidity_target: u128,
    pub nslp_max_discount_basis_points: u16,
    pub nslp_min_discount_basis_points: u16,
    pub staker_meta_mult_pct: u16,
    pub stnear_sell_meta_mult_pct: u16,
    pub lp_provider_meta_mult_pct: u16,
    pub web_app_url: Option<String>,
    pub auditor_account_id: Option<String>,
}

impl View for MetaPool {
    type V = LedgerView;

    open spec fn view(&self) -> LedgerView {
        LedgerView {
            contract_busy: self.contract_busy,
            contract_account_balance: self.contract_account_balance,
            total_available: self.total_available,
            total_for_staking: self.total_for_staking,
            total_actually_staked: self.total_actually_staked,
            epoch_stake_orders: self.epoch_stake_orders,
            epoch_unstake_orders: self.epoch_unstake_orders,
            total_unstaked_and_waiting: self.total_unstaked_and_waiting,
            total_unstake_claims: self.total_unstake_claims,
            retrieved_for_unstake_claims: self.retrieved_for_unstake_claims,
            unstaked_for_rebalance: self.unstaked_for_rebalance,
            accumulated_staked_rewards: self.accumulated_staked_rewards,
            total_actually_unstaked_and_retrieved: self.total_actually_unstaked_and_retrieved,
            total_stake_shares: self.total_stake_shares,
            staking_paused: self.staking_paused,
            staking_pools: self.staking_pools@,
            owner_account_id: self.owner_account_id,
            operator_account_id: self.operator_account_id,
            min_deposit_amount: self.min_deposit_amount,
            min_account_balance: self.min_account_balance,
            operator_rewards_fee_basis_points: self.operator_rewards_fee_basis_points,
            operator_swap_cut_basis_points: self.operator_swap_cut_basis_points,
            treasury_swap_cut_basis_points: self.treasury_swap_cut_basis_points,
            unstake_for_rebalance_cap_bp: self.unstake_for_rebalance_cap_bp,
            nslp_liquidity_target: self.nslp_liquidity_target,
            nslp_max_discount_basis_points: self.nslp_max_discount_basis_points,
            nslp_min_discount_basis_points: self.nslp_min_discount_basis_points,
            staker_meta_mult_pct: self.staker_meta_mult_pct,
            stnear_sell_meta_mult_pct: self.stnear_sell_meta_mult_pct,
            lp_provider_meta_mult_pct: self.lp_provider_meta_mult_pct,
            web_app_url: self.web_app_url,
            auditor_account_id: self.auditor_account_id,
        }
    }
}

impl LedgerView {
    /// Conservation of the contract's own balance: money it holds is either
    /// users' liquid balance, the reserve for unstake claims, or this epoch's
    /// queued stake orders.
    pub open spec fn conserved(&self) -> bool {
        self.contract_account_balance
            == self.total_available + self.retrieved_for_unstake_claims + self.epoch_stake_orders
    }

    /// Claims coverage: the reserve never exceeds the liability, and any
    /// staking deficit is covered by the net unstake orders of the epoch.
    pub open spec fn claims_covered(&self) -> bool {
        &&& self.total_unstake_claims >= self.retrieved_for_unstake_claims
        &&& self.total_for_staking < self.total_actually_staked ==> {
            self.total_actually_staked - self.total_for_staking
                <= self.epoch_unstake_orders - self.epoch_stake_orders
        }
    }
}

impl MetaPool {
    /// Sum of the registry's weights, over the first `n` pools.
    pub open spec fn spec_sum_weights(pools: Seq<StakingPoolInfo>, n: int) -> int
        decreases n,
    {
        if n <= 0 {
            0
        } else {
            Self::spec_sum_weights(pools, n - 1) + pools[n - 1].weight_basis_points
        }
    }

    /// The registry's weights sum to at most 100%.
    pub open spec fn spec_weights_ok(&self) -> bool {
        Self::spec_sum_weights(self.staking_pools@, self.staking_pools@.len() as int)
            <= MAX_BASIS_POINTS
    }

    /// Conservation of the contract's own balance.
    pub open spec fn spec_conserved(&self) -> bool {
        self@.conserved()
    }

    /// Claims coverage.
    pub open spec fn spec_claims_covered(&self) -> bool {
        self@.claims_covered()
    }

    /// A fresh contract: everything zero, configuration at its defaults.
    pub fn new(owner_account_id: String, operator_account_id: String) -> (s: Self)
        ensures
            !s.contract_busy,
            s.contract_account_balance == 0,
            s.total_available == 0,
            s.total_for_staking == 0,
            s.total_actually_staked == 0,
            s.epoch_stake_orders == 0,
            s.epoch_unstake_orders == 0,
            s.total_unstaked_and_waiting == 0,
            s.total_unstake_claims == 0,
            s.retrieved_for_unstake_claims == 0,
            s.unstaked_for_rebalance == 0,
            s.accumulated_staked_rewards == 0,
            s.total_actually_unstaked_and_retrieved == 0,
            s.total_stake_shares == 0,
            !s.staking_paused,
            s.staking_pools@.len() == 0,
            s.owner_account_id == owner_account_id,
            s.operator_account_id == operator_account_id,
            s.operator_rewards_fee_basis_points == DEFAULT_OPERATOR_REWARDS_FEE_BP,
            s.unstake_for_rebalance_cap_bp == DEFAULT_UNSTAKE_FOR_REBALANCE_CAP_BP,
            s.spec_conserved(),
            s.spec_claims_covered(),
            s.spec_weights_ok(),
    {
        MetaPool {
            contract_busy: false,
            contract_account_balance: 0,
            total_available: 0,
            total_for_staking: 0,
            total_actually_staked: 0,
            epoch_stake_orders: 0,
            epoch_unstake_orders: 0,
            total_unstaked_and_waiting: 0,
            total_unstake_claims: 0,
            retrieved_for_unstake_claims: 0,
            unstaked_for_rebalance: 0,
            accumulated_staked_rewards: 0,
            total_actually_unstaked_and_retrieved: 0,
            total_stake_shares: 0,
            staking_paused: false,
            staking_pools: Vec::new(),
            owner_account_id,
            operator_account_id,
            min_deposit_amount: ONE_NEAR,
            min_account_balance: ONE_NEAR,
            operator_rewards_fee_basis_points: DEFAULT_OPERATOR_REWARDS_FEE_BP,
            operator_swap_cut_basis_points: 25,
            treasury_swap_cut_basis_points: 25,
            unstake_for_rebalance_cap_bp: DEFAULT_UNSTAKE_FOR_REBALANCE_CAP_BP,
            nslp_liquidity_target: 10_000 * ONE_NEAR,
            nslp_max_discount_basis_points: 180,
            nslp_min_discount_basis_points: 25,
            staker_meta_mult_pct: 500,
            stnear_sell_meta_mult_pct: 100,
            lp_provider_meta_mult_pct: 200,
            web_app_url: None,
            auditor_account_id: None,
        }
    }

    /// Nothing distribution-wide may run while the contract is busy.
    pub fn assert_not_busy(&self)
        requires
            !self.contract_busy,
    {
    }

    /// Deposits under the configured minimum are rejected.
    pub fn assert_min_deposit_amount(&self, amount: u128)
        requires
            amount >= self.min_deposit_amount,
    {
    }

    /// Ledger side of a deposit: the attached amount lands on the contract's
    /// balance and in the users' liquid total. The depositor's own account
    /// entry is the embedding application's bookkeeping.
    pub fn internal_deposit_attached_near(&mut self, amount: u128)
        requires
            old(self).contract_account_balance + amount <= u128::MAX,
            old(self).total_available + amount <= u128::MAX,
        ensures
            final(self)@ == (LedgerView {
                contract_account_balance: (old(self).contract_account_balance + amount) as u128,
                total_available: (old(self).total_available + amount) as u128,
                ..old(self)@
            }),
    {
        self.total_available += amount;
        self.contract_account_balance += amount;
        proof {
            assert(final(self)@ =~= (LedgerView {
                contract_account_balance: (old(self).contract_account_balance + amount) as u128,
                total_available: (old(self).total_available + amount) as u128,
                ..old(self)@
            }));
        }
    }

    /// Ledger side of taking from a user's liquid balance.
    pub fn take_from_available(&mut self, amount: u128)
        requires
            amount <= old(self).total_available,
        ensures
            final(self)@ == (LedgerView {
                total_available: (old(self).total_available - amount) as u128,
                ..old(self)@
            }),
    {
        self.total_available -= amount;
        proof {
            assert(final(self)@ =~= (LedgerView {
                total_available: (old(self).total_available - amount) as u128,
                ..old(self)@
            }));
        }
    }

    /// Ledger side of paying a withdrawal out to its user's own account.
    pub fn native_transfer_to_predecessor(&mut self, amount: u128)
        requires
            amount <= old(self).contract_account_balance,
        ensures
            final(self)@ == (LedgerView {
                contract_account_balance: (old(self).contract_account_balance - amount) as u128,
                ..old(self)@
            }),
    {
        self.contract_account_balance -= amount;
        proof {
            assert(final(self)@ =~= (LedgerView {
                contract_account_balance: (old(self).contract_account_balance - amount) as u128,
                ..old(self)@
            }));
        }
    }

    /// Ledger side of a user staking from their liquid balance: shares are
    /// minted, the amount joins the staking target and this epoch's stake
    /// orders. The user's share balance is the application's bookkeeping.
    pub fn internal_stake_from_account(&mut self, amount: u128, num_shares: u128)
        requires
            !old(self).contract_busy,
            amount >= old(self).min_deposit_amount,
            num_shares > 0,
            amount <= old(self).total_available,
            old(self).total_for_staking + amount <= u128::MAX,
            old(self).epoch_stake_orders + amount <= u128::MAX,
            old(self).total_stake_shares + num_shares <= u128::MAX,
        ensures
            final(self)@ == (LedgerView {
                total_available: (old(self).total_available - amount) as u128,
                total_for_staking: (old(self).total_for_staking + amount) as u128,
                epoch_stake_orders: (old(self).epoch_stake_orders + amount) as u128,
                total_stake_shares: (old(self).total_stake_shares + num_shares) as u128,
                ..old(self)@
            }),
    {
        self.total_available -= amount;
        self.total_stake_shares += num_shares;
        self.total_for_staking += amount;
        self.epoch_stake_orders += amount;
        proof {
            assert(final(self)@ =~= (LedgerView {
                total_available: (old(self).total_available - amount) as u128,
                total_for_staking: (old(self).total_for_staking + amount) as u128,
                epoch_stake_orders: (old(self).epoch_stake_orders + amount) as u128,
                total_stake_shares: (old(self).total_stake_shares + num_shares) as u128,
                ..old(self)@
            }));
        }
    }

    /// Ledger side of a user's delayed unstake: shares burn, the amount
    /// leaves the staking target, joins this epoch's unstake orders and
    /// becomes a claim owed to the user.
    pub fn internal_unstake(&mut self, amount: u128, shares_to_burn: u128)
        requires
            !old(self).contract_busy,
            shares_to_burn > 0,
            shares_to_burn <= old(self).total_stake_shares,
            amount <= old(self).total_for_staking,
            old(self).epoch_unstake_orders + amount <= u128::MAX,
            old(self).total_unstake_claims + amount <= u128::MAX,
        ensures
            final(self)@ == (LedgerView {
                total_for_staking: (old(self).total_for_staking - amount) as u128,
                epoch_unstake_orders: (old(self).epoch_unstake_orders + amount) as u128,
                total_unstake_claims: (old(self).total_unstake_claims + amount) as u128,
                total_stake_shares: (old(self).total_stake_shares - shares_to_burn) as u128,
                ..old(self)@
            }),
    {
        self.epoch_unstake_orders += amount;
        self.total_unstake_claims += amount;
        self.total_stake_shares -= shares_to_burn;
        self.total_for_staking -= amount;
        proof {
            assert(final(self)@ =~= (LedgerView {
                total_for_staking: (old(self).total_for_staking - amount) as u128,
                epoch_unstake_orders: (old(self).epoch_unstake_orders + amount) as u128,
                total_unstake_claims: (old(self).total_unstake_claims + amount) as u128,
                total_stake_shares: (old(self).total_stake_shares - shares_to_burn) as u128,
                ..old(self)@
            }));
        }
    }

    /// Ledger side of paying a matured unstake claim out of the reserve: the
    /// liability, the reserve and the contract balance all drop together.
    pub fn pay_unstake_claim(&mut self, amount: u128)
        requires
            amount <= old(self).total_unstake_claims,
            amount <= old(self).retrieved_for_unstake_claims,
            amount <= old(self).contract_account_balance,
        ensures
            final(self)@ == (LedgerView {
                total_unstake_claims: (old(self).total_unstake_claims - amount) as u128,
                retrieved_for_unstake_claims: (old(self).retrieved_for_unstake_claims
                    - amount) as u128,
                contract_account_balance: (old(self).contract_account_balance - amount) as u128,
                ..old(self)@
            }),
    {
        self.total_unstake_claims -= amount;
        self.retrieved_for_unstake_claims -= amount;
        self.contract_account_balance -= amount;
        proof {
            assert(final(self)@ =~= (LedgerView {
                total_unstake_claims: (old(self).total_unstake_claims - amount) as u128,
                retrieved_for_unstake_claims: (old(self).retrieved_for_unstake_claims
                    - amount) as u128,
                contract_account_balance: (old(self).contract_account_balance - amount) as u128,
                ..old(self)@
            }));
        }
    }

    /// Owner pauses the intake of new stake.
    pub fn pause_staking(&mut self)
        requires
            !old(self).staking_paused,
        ensures
            final(self)@ == (LedgerView { staking_paused: true, ..old(self)@ }),
    {
        self.staking_paused = true;
        proof {
            assert(final(self)@ =~= (LedgerView { staking_paused: true, ..old(self)@ }));
        }
    }

    /// Plain snapshots of every pool record, in registry order.
    pub fn get_staking_pool_list(&self) -> (r: Vec<StakingPoolJSONInfo>)
        ensures
            r@.len() == self.staking_pools@.len(),
            forall|j: int| 0 <= j < r@.len() ==> {
                let sp = #[trigger] self.staking_pools@[j];
                &&& r@[j].account_id == sp.account_id
                &&& r@[j].weight_basis_points == sp.weight_basis_points
                &&& r@[j].staked == sp.staked
                &&& r@[j].unstaked == sp.unstaked
                &&& r@[j].unstaked_requested_epoch_height == sp.unstk_req_epoch_height
                &&& r@[j].last_asked_rewards_epoch_height == sp.last_asked_rewards_epoch_height
            },
    {
        let mut result: Vec<StakingPoolJSONInfo> = Vec::new();
        let mut i: usize = 0;
        while i < self.staking_pools.len()
            invariant
                i <= self.staking_pools@.len(),
                result@.len() == i,
                forall|j: int| 0 <= j < i ==> {
                    let sp = #[trigger] self.staking_pools@[j];
                    &&& result@[j].account_id == sp.account_id
                    &&& result@[j].weight_basis_points == sp.weight_basis_points
                    &&& result@[j].staked == sp.staked
                    &&& result@[j].unstaked == sp.unstaked
                    &&& result@[j].unstaked_requested_epoch_height == sp.unstk_req_epoch_height
                    &&& result@[j].last_asked_rewards_epoch_height
                        == sp.last_asked_rewards_epoch_height
                },
            decreases self.staking_pools@.len() - i,
        {
            let elem = &self.staking_pools[i];
            result.push(StakingPoolJSONInfo {
                account_id: elem.account_id.clone(),
                weight_basis_points: elem.weight_basis_points,
                staked: elem.staked,
                unstaked: elem.unstaked,
                last_asked_rewards_epoch_height: elem.last_asked_rewards_epoch_height,
                unstaked_requested_epoch_height: elem.unstk_req_epoch_height,
            });
            i += 1;
        }
        result
    }

    /// Owner removes a pool from the registry; only an empty pool may go.
    pub fn remove_staking_pool(&mut self, inx: u16)
        requires
            inx < old(self).staking_pools@.len(),
            old(self).staking_pools@[inx as int].spec_is_empty(),
        ensures
            final(self)@ == (LedgerView {
                staking_pools: old(self)@.staking_pools.remove(inx as int),
                ..old(self)@
            }),
    {
        self.staking_pools.remove(inx as usize);
        proof {
            assert(final(self)@ =~= (LedgerView {
                staking_pools: old(self)@.staking_pools.remove(inx as int),
                ..old(self)@
            }));
        }
    }

    /// Sum of every pool's target weight, in basis points.
    pub fn sum_staking_pool_list_weight_basis_points(&self) -> (r: u16)
        requires
            Self::spec_sum_weights(self.staking_pools@, self.staking_pools@.len() as int)
                <= u16::MAX,
        ensures
            r == Self::spec_sum_weights(self.staking_pools@, self.staking_pools@.len() as int),
    {
        let ghost pools = self.staking_pools@;
        let mut total_weight: u16 = 0;
        let mut i: usize = 0;
        while i < self.staking_pools.len()
            invariant
                i <= pools.len(),
                pools == self.staking_pools@,
                Self::spec_sum_weights(pools, pools.len() as int) <= u16::MAX,
                total_weight == Self::spec_sum_weights(pools, i as int),
            decreases pools.len() - i,
        {
            proof {
                crate::allocator::lemma_sum_weights_prefix_le(pools, i + 1, pools.len() as int);
            }
            total_weight += self.staking_pools[i].weight_basis_points;
            i += 1;
        }
        total_weight
    }

    /// The registry is consistent: the weights sum to at most 100%.
    pub fn check_staking_pool_list_consistency(&self)
        requires
            self.spec_weights_ok(),
    {
    }

    /// First pool registered under `account_id`, or the registry's length.
    pub open spec fn spec_find_pool(pools: Seq<StakingPoolInfo>, account_id: Seq<char>, n: int)
        -> int
        decreases n,
    {
        if n <= 0 {
            0
        } else if Self::spec_find_pool(pools, account_id, n - 1) < n - 1 {
            Self::spec_find_pool(pools, account_id, n - 1)
        } else if pools[n - 1].account_id@ == account_id {
            n - 1
        } else {
            n
        }
    }

    /// Owner updates one pool's target weight. The new weights must still
    /// sum to at most 100%, and the pool must not be mid-operation.
    pub fn set_staking_pool_weight(&mut self, inx: u16, weight_basis_points: u16)
        requires
            inx < old(self).staking_pools@.len(),
            !old(self).staking_pools@[inx as int].busy_lock,
            Self::spec_sum_weights(
                old(self).staking_pools@.update(
                    inx as int,
                    StakingPoolInfo {
                        weight_basis_points,
                        ..old(self).staking_pools@[inx as int]
                    },
                ),
                old(self).staking_pools@.len() as int,
            ) <= MAX_BASIS_POINTS,
        ensures
            final(self)@ == (LedgerView {
                staking_pools: old(self)@.staking_pools.update(
                    inx as int,
                    StakingPoolInfo {
                        weight_basis_points,
                        ..old(self)@.staking_pools[inx as int]
                    },
                ),
                ..old(self)@
            }),
    {
        let sp = &mut self.staking_pools[inx as usize];
        sp.weight_basis_points = weight_basis_points;
        proof {
            assert(final(self)@ =~= (LedgerView {
                staking_pools: old(self)@.staking_pools.update(
                    inx as int,
                    StakingPoolInfo {
                        weight_basis_points,
                        ..old(self)@.staking_pools[inx as int]
                    },
                ),
                ..old(self)@
            }));
        }
    }

    /// Owner registers a new pool, or updates the weight of the pool already
    /// registered under this account. Weights must still sum to at most 100%.
    #[verifier::loop_isolation(false)]
    pub fn set_staking_pool(&mut self, account_id: String, weight_basis_points: u16)
        requires
            old(self).staking_pools@.len() <= u16::MAX,
            ({
                let pools = old(self).staking_pools@;
                let n = pools.len() as int;
                let j = Self::spec_find_pool(pools, account_id@, n);
                if j < n {
                    &&& !pools[j].busy_lock
                    &&& Self::spec_sum_weights(
                        pools.update(
                            j,
                            StakingPoolInfo { weight_basis_points, ..pools[j] },
                        ),
                        n,
                    ) <= MAX_BASIS_POINTS
                } else {
                    &&& n < u16::MAX
                    &&& Self::spec_sum_weights(pools, n) + weight_basis_points <= MAX_BASIS_POINTS
                }
            }),
        ensures
            ({
                let pools = old(self)@.staking_pools;
                let n = pools.len() as int;
                let j = Self::spec_find_pool(pools, account_id@, n);
                if j < n {
                    final(self)@ == (LedgerView {
                        staking_pools: pools.update(
                            j,
                            StakingPoolInfo { weight_basis_points, ..pools[j] },
                        ),
                        ..old(self)@
                    })
                } else {
                    final(self)@ == (LedgerView {
                        staking_pools: pools.push(
                            StakingPoolInfo {
                                account_id: account_id,
                                weight_basis_points,
                                staked: 0,
                                unstaked: 0,
                                busy_lock: false,
                                unstk_req_epoch_height: 0,
                                last_asked_rewards_epoch_height: 0,
                            },
                        ),
                        ..old(self)@
                    })
                }
            }),
    {
        let ghost pools = self.staking_pools@;
        let ghost n = pools.len() as int;
        let ghost expected_new = StakingPoolInfo {
            account_id: account_id,
            weight_basis_points,
            staked: 0,
            unstaked: 0,
            busy_lock: false,
            unstk_req_epoch_height: 0,
            last_asked_rewards_epoch_height: 0,
        };
        let mut sp_inx: usize = 0;
        while sp_inx < self.staking_pools.len()
            invariant
                sp_inx <= n,
                self@ == old(self)@,
                pools == self.staking_pools@,
                n == pools.len() as int,
                Self::spec_find_pool(pools, account_id@, sp_inx as int) == sp_inx as int,
            decreases n - sp_inx,
        {
            if self.staking_pools[sp_inx].account_id == account_id {
                proof {
                    assert(Self::spec_find_pool(pools, account_id@, n) == sp_inx as int) by {
                        lemma_find_pool_extends(pools, account_id@, sp_inx as int, n);
                    }
                }
                self.set_staking_pool_weight(sp_inx as u16, weight_basis_points);
                proof {
                    assert(self@ =~= (LedgerView {
                        staking_pools: pools.update(
                            sp_inx as int,
                            StakingPoolInfo { weight_basis_points, ..pools[sp_inx as int] },
                        ),
                        ..old(self)@
                    }));
                }
                return ;
            }
            sp_inx += 1;
        }
        self.staking_pools.push(StakingPoolInfo {
            account_id,
            weight_basis_points,
            staked: 0,
            unstaked: 0,
            busy_lock: false,
            unstk_req_epoch_height: 0,
            last_asked_rewards_epoch_height: 0,
        });
        proof {
            assert(self@ =~= (LedgerView {
                staking_pools: pools.push(expected_new),
                ..old(self)@
            }));
        }
    }

    /// The operator's account.
    pub fn get_operator_account_id(&self) -> (r: String)
        ensures
            r == self.operator_account_id,
    {
        self.operator_account_id.clone()
    }

    /// Owner points the operator role at another account.
    pub fn set_operator_account_id(&mut self, account_id: String)
        ensures
            final(self)@ == (LedgerView { operator_account_id: account_id, ..old(self)@ }),
    {
        self.operator_account_id = account_id;
        proof {
            assert(final(self)@ =~= (LedgerView {
                operator_account_id: final(self)@.operator_account_id,
                ..old(self)@
            }));
        }
    }

    /// The amount the core believes is deposited and staked across the pools.
    pub fn get_known_deposited_balance(&self) -> (r: u128)
        ensures
            r == self.total_actually_staked,
    {
        self.total_actually_staked
    }

    /// Owner sets the public contract links; an empty string clears one.
    pub fn set_contract_info(&mut self, web_app_url: String, auditor_account_id: String)
        ensures
            final(self).web_app_url == if web_app_url@.len() > 0 {
                Some(web_app_url)
            } else {
                None::<String>
            },
            final(self).auditor_account_id == if auditor_account_id@.len() > 0 {
                Some(auditor_account_id)
            } else {
                None::<String>
            },
            final(self)@ == (LedgerView {
                web_app_url: final(self)@.web_app_url,
                auditor_account_id: final(self)@.auditor_account_id,
                ..old(self)@
            }),
    {
        self.web_app_url = if !web_app_url.as_str().is_empty() {
            Some(web_app_url)
        } else {
            None
        };
        self.auditor_account_id = if !auditor_account_id.as_str().is_empty() {
            Some(auditor_account_id)
        } else {
            None
        };
        proof {
            assert(final(self)@ =~= (LedgerView {
                web_app_url: final(self)@.web_app_url,
                auditor_account_id: final(self)@.auditor_account_id,
                ..old(self)@
            }));
        }
    }

    /// Snapshot of the ledger totals.
    pub fn get_contract_state(&self) -> (r: GetContractStateResult)
        requires
            self.staking_pools@.len() <= u16::MAX,
        ensures
            r.total_available == self.total_available,
            r.total_for_staking == self.total_for_staking,
            r.total_actually_staked == self.total_actually_staked,
            r.accumulated_staked_rewards == self.accumulated_staked_rewards,
            r.total_unstaked_and_waiting == self.total_unstaked_and_waiting,
            r.total_actually_unstaked_and_retrieved
                == self.total_actually_unstaked_and_retrieved,
            r.total_unstake_claims == self.total_unstake_claims,
            r.retrieved_for_unstake_claims == self.retrieved_for_unstake_claims,
            r.epoch_stake_orders == self.epoch_stake_orders,
            r.epoch_unstake_orders == self.epoch_unstake_orders,
            r.total_stake_shares == self.total_stake_shares,
            r.staking_pools_count == self.staking_pools@.len(),
    {
        GetContractStateResult {
            total_available: self.total_available,
            total_for_staking: self.total_for_staking,
            total_actually_staked: self.total_actually_staked,
            accumulated_staked_rewards: self.accumulated_staked_rewards,
            total_unstaked_and_waiting: self.total_unstaked_and_waiting,
            total_actually_unstaked_and_retrieved: self.total_actually_unstaked_and_retrieved,
            total_unstake_claims: self.total_unstake_claims,
            retrieved_for_unstake_claims: self.retrieved_for_unstake_claims,
            epoch_stake_orders: self.epoch_stake_orders,
            epoch_unstake_orders: self.epoch_unstake_orders,
            total_stake_shares: self.total_stake_shares,
            staking_pools_count: self.staking_pools.len() as u16,
        }
    }

    /// Snapshot of the configurable parameters.
    pub fn get_contract_params(&self) -> (r: ContractParamsJSON)
        requires
            self.nslp_liquidity_target >= 100,
        ensures
            r.staking_paused == self.staking_paused,
            r.min_account_balance == self.min_account_balance,
            r.nslp_near_one_percent_target == self.nslp_liquidity_target / 100,
            r.nslp_max_discount_basis_points == self.nslp_max_discount_basis_points,
            r.nslp_min_discount_basis_points == self.nslp_min_discount_basis_points,
            r.staker_meta_mult_pct == self.staker_meta_mult_pct,
            r.stnear_sell_meta_mult_pct == self.stnear_sell_meta_mult_pct,
            r.lp_provider_meta_mult_pct == self.lp_provider_meta_mult_pct,
            r.operator_rewards_fee_basis_points == self.operator_rewards_fee_basis_points,
            r.operator_swap_cut_basis_points == self.operator_swap_cut_basis_points,
            r.treasury_swap_cut_basis_points == self.treasury_swap_cut_basis_points,
    {
        ContractParamsJSON {
            staking_paused: self.staking_paused,
            min_account_balance: self.min_account_balance,
            nslp_near_one_percent_target: self.nslp_liquidity_target / 100,
            nslp_max_discount_basis_points: self.nslp_max_discount_basis_points,
            nslp_min_discount_basis_points: self.nslp_min_discount_basis_points,
            staker_meta_mult_pct: self.staker_meta_mult_pct,
            stnear_sell_meta_mult_pct: self.stnear_sell_meta_mult_pct,
            lp_provider_meta_mult_pct: self.lp_provider_meta_mult_pct,
            operator_rewards_fee_basis_points: self.operator_rewards_fee_basis_points,
            operator_swap_cut_basis_points: self.operator_swap_cut_basis_points,
            treasury_swap_cut_basis_points: self.treasury_swap_cut_basis_points,
        }
    }

    /// Owner sets the configurable parameters. Fees are fractions of 100%.
    pub fn set_contract_params(&mut self, params: ContractParamsJSON)
        requires
            params.nslp_near_one_percent_target * 100 <= u128::MAX,
            params.operator_rewards_fee_basis_points <= MAX_BASIS_POINTS,
        ensures
            final(self)@ == (LedgerView {
                min_account_balance: params.min_account_balance,
                nslp_liquidity_target: (params.nslp_near_one_percent_target * 100) as u128,
                nslp_max_discount_basis_points: params.nslp_max_discount_basis_points,
                nslp_min_discount_basis_points: params.nslp_min_discount_basis_points,
                staker_meta_mult_pct: params.staker_meta_mult_pct,
                stnear_sell_meta_mult_pct: params.stnear_sell_meta_mult_pct,
                lp_provider_meta_mult_pct: params.lp_provider_meta_mult_pct,
                operator_rewards_fee_basis_points: params.operator_rewards_fee_basis_points,
                operator_swap_cut_basis_points: params.operator_swap_cut_basis_points,
                treasury_swap_cut_basis_points: params.treasury_swap_cut_basis_points,
                ..old(self)@
            }),
    {
        self.min_account_balance = params.min_account_balance;
        self.nslp_liquidity_target = params.nslp_near_one_percent_target * 100;
        self.nslp_max_discount_basis_points = params.nslp_max_discount_basis_points;
        self.nslp_min_discount_basis_points = params.nslp_min_discount_basis_points;
        self.staker_meta_mult_pct = params.staker_meta_mult_pct;
        self.stnear_sell_meta_mult_pct = params.stnear_sell_meta_mult_pct;
        self.lp_provider_meta_mult_pct = params.lp_provider_meta_mult_pct;
        self.operator_rewards_fee_basis_points = params.operator_rewards_fee_basis_points;
        self.operator_swap_cut_basis_points = params.operator_swap_cut_basis_points;
        self.treasury_swap_cut_basis_points = params.treasury_swap_cut_basis_points;
        proof {
            assert(final(self)@ =~= (LedgerView {
                min_account_balance: params.min_account_balance,
                nslp_liquidity_target: final(self)@.nslp_liquidity_target,
                nslp_max_discount_basis_points: params.nslp_max_discount_basis_points,
                nslp_min_discount_basis_points: params.nslp_min_discount_basis_points,
                staker_meta_mult_pct: params.staker_meta_mult_pct,
                stnear_sell_meta_mult_pct: params.stnear_sell_meta_mult_pct,
                lp_provider_meta_mult_pct: params.lp_provider_meta_mult_pct,
                operator_rewards_fee_basis_points: params.operator_rewards_fee_basis_points,
                operator_swap_cut_basis_points: params.operator_swap_cut_basis_points,
                treasury_swap_cut_basis_points: params.treasury_swap_cut_basis_points,
                ..old(self)@
            }));
        }
    }

    /// Snapshot of one pool record.
    pub fn get_sp_info(&self, sp_inx_i32: i32) -> (r: StakingPoolJSONInfo)
        requires
            sp_inx_i32 > 0,
            sp_inx_i32 < self.staking_pools@.len(),
        ensures
            ({
                let sp = self.staking_pools@[sp_inx_i32 as int];
                &&& r.account_id == sp.account_id
                &&& r.weight_basis_points == sp.weight_basis_points
                &&& r.staked == sp.staked
                &&& r.unstaked == sp.unstaked
                &&& r.unstaked_requested_epoch_height == sp.unstk_req_epoch_height
                &&& r.last_asked_rewards_epoch_height == sp.last_asked_rewards_epoch_height
            }),
    {
        let sp = &self.staking_pools[sp_inx_i32 as usize];
        StakingPoolJSONInfo {
            account_id: sp.account_id.clone(),
            weight_basis_points: sp.weight_basis_points,
            staked: sp.staked,
            unstaked: sp.unstaked,
            unstaked_requested_epoch_height: sp.unstk_req_epoch_height,
            last_asked_rewards_epoch_height: sp.last_asked_rewards_epoch_height,
        }
    }
}

/// A search that has not hit by `a` pools and does not hit between `a` and
/// `b` keeps reporting the same miss.
pub proof fn lemma_find_pool_extends(
    pools: Seq<StakingPoolInfo>,
    account_id: Seq<char>,
    a: int,
    b: int,
)
    requires
        0 <= a <= b <= pools.len(),
        MetaPool::spec_find_pool(pools, account_id, a) == a,
        pools[a].account_id@ == account_id,
    ensures
        MetaPool::spec_find_pool(pools, account_id, b) == a,
    decreases b - a,
{
    if b > a + 1 {
        lemma_find_pool_extends(pools, account_id, a, b - 1);
    } else if b == a + 1 {
    }
}

} // verus!
