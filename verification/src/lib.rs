//! Settlement core of a pooled liquid-staking protocol.
//!
//! The library keeps a global ledger of scalar counters, an ordered registry
//! of weighted external staking pools, pure allocation algorithms that pick
//! the pool to stake into or unstake from, and the distribution state machine
//! that nets stake/unstake orders at the end of each epoch, issues at most one
//! outbound call per pool, and reconciles each call's outcome through a
//! callback that commits the optimistic bookkeeping or reverts it exactly.
//!
//! Outbound calls themselves are asynchronous host work: each entry point
//! returns a description of the single call to issue, and the host invokes the
//! matching callback with the call's outcome and the current epoch height.
use vstd::prelude::*;

pub mod pool;
pub mod wide;
pub mod state;
pub mod shares;
pub mod allocator;
pub mod distribute;
pub mod reward_meter;
pub mod laws;

verus! {

/// One whole unit of the base currency, in its smallest denomination.
pub const ONE_NEAR: u128 = 1_000_000_000_000_000_000_000_000;

/// Ten whole currency units: the floor under which a pool's unstaked balance
/// is not worth re-staking in place.
pub const TEN_NEAR: u128 = 10 * ONE_NEAR;

/// A hundredth of a currency unit.
pub const NEAR_CENT: u128 = ONE_NEAR / 100;

/// One teragas, the host's gas accounting unit.
pub const TGAS: u64 = 1_000_000_000_000;

/// Amounts at or below this do not justify an outbound transaction's fee.
pub const MIN_AMOUNT_TO_JUSTIFY_TX: u128 = 10_000_000_000_000;

/// Epochs a pool holds unstaked funds before they may be withdrawn.
pub const NUM_EPOCHS_TO_UNLOCK: u64 = 4;

/// Smallest stake distribution worth a transaction.
pub const MIN_STAKE_AMOUNT: u128 = ONE_NEAR;

/// Smallest stake or unstake movement a rebalance will bother with.
pub const MIN_STAKE_UNSTAKE_AMOUNT_MOVEMENT: u128 = ONE_NEAR;

/// Pool-side rounding can leave a few base units in `unstaked`; balances at
/// or below this count as zero when deciding whether a pool is blocked.
pub const UNSTAKED_YOCTOS_TO_IGNORE: u128 = 100;

/// Fee minted for the maintainers on each reward round, in basis points.
pub const DEVELOPERS_REWARDS_FEE_BASIS_POINTS: u16 = 20;

/// Default cap on unstakes made for rebalancing, in basis points of
/// `total_for_staking` (100 = 1%).
pub const DEFAULT_UNSTAKE_FOR_REBALANCE_CAP_BP: u16 = 100;

/// Default operator fee on rewards, in basis points (50 = 0.5%).
pub const DEFAULT_OPERATOR_REWARDS_FEE_BP: u16 = 50;

/// Weights and fees are fractions of this denominator.
pub const MAX_BASIS_POINTS: u16 = 10_000;

} // verus!
