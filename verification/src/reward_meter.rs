//! Per-account meter of staked value, from which bonus rewards are computed.
use vstd::prelude::*;

verus! {

/// Tracks the net amount an account has staked. Unstaking can include
/// rewards, so the running delta can become negative.
pub struct RewardMeter {
    /// Added on staking, subtracted on unstaking.
    pub delta_staked: i128,
    /// Multiplier applied to rewards, in percent (100 is exactly once).
    pub last_multiplier_pct: u16,
}

impl Default for RewardMeter {
    /// A fresh meter: no delta, rewards counted exactly once.
    fn default() -> (r: Self)
        ensures
            r.delta_staked == 0,
            r.last_multiplier_pct == 100,
    {
        RewardMeter { delta_staked: 0, last_multiplier_pct: 100 }
    }
}

impl RewardMeter {
    /// Registers a stake, so rewards can be computed later.
    pub fn stake(&mut self, value: u128)
        requires
            value <= i128::MAX,
            old(self).delta_staked + value <= i128::MAX,
        ensures
            final(self).delta_staked == old(self).delta_staked + value,
            final(self).last_multiplier_pct == old(self).last_multiplier_pct,
    {
        self.delta_staked += value as i128;
    }

    /// Registers an unstake.
    pub fn unstake(&mut self, value: u128)
        requires
            value <= i128::MAX,
            old(self).delta_staked - value >= i128::MIN,
        ensures
            final(self).delta_staked == old(self).delta_staked - value,
            final(self).last_multiplier_pct == old(self).last_multiplier_pct,
    {
        self.delta_staked -= value as i128;
    }

    /// Resets the meter to a zero difference against the given valuation.
    pub fn reset(&mut self, valued_shares: u128)
        requires
            valued_shares <= i128::MAX,
        ensures
            final(self).delta_staked == valued_shares,
            final(self).last_multiplier_pct == old(self).last_multiplier_pct,
    {
        self.delta_staked = valued_shares as i128;
    }
}

} // verus!
