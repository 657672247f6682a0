//! Conversions between base currency and stake shares at the current share
//! price, and the liquidity pool's discount curve.
use vstd::prelude::*;
use vstd::arithmetic::div_mod::lemma_multiply_divide_le;
use crate::state::MetaPool;
use crate::wide::{
    amount_from_shares, apply_pct, p128, proportional, shares_from_amount, spec_amount_from_shares,
    spec_apply_pct, spec_proportional, spec_shares_from_amount,
};

verus! {

impl MetaPool {
    /// Stake shares minted for `amount` at the current share price; minting
    /// them together with the amount leaves the price unchanged.
    pub fn stake_shares_from_amount(&self, amount: u128) -> (r: u128)
        requires
            self.total_for_staking > 0 && self.total_stake_shares > 0
                ==> self.total_stake_shares * amount < self.total_for_staking * p128(),
        ensures
            r == spec_shares_from_amount(amount, self.total_for_staking, self.total_stake_shares),
    {
        shares_from_amount(amount, self.total_for_staking, self.total_stake_shares)
    }

    /// Value of `num_shares` at the current share price.
    pub fn amount_from_stake_shares(&self, num_shares: u128) -> (r: u128)
        requires
            self.total_stake_shares > 0
                ==> num_shares * self.total_for_staking < self.total_stake_shares * p128(),
        ensures
            r == spec_amount_from_shares(
                num_shares,
                self.total_for_staking,
                self.total_stake_shares,
            ),
    {
        amount_from_shares(num_shares, self.total_for_staking, self.total_stake_shares)
    }

    /// The liquidity pool's discount for a swap that takes `nears_requested`
    /// out of `available_near`: the maximum while the pool would be drained
    /// at or below zero, the minimum while it stays at or above its target,
    /// and linear in between.
    pub open spec fn spec_discount_basis_points(
        &self,
        available_near: u128,
        nears_requested: u128,
    ) -> int {
        if available_near <= nears_requested {
            self.nslp_max_discount_basis_points as int
        } else if available_near - nears_requested >= self.nslp_liquidity_target {
            self.nslp_min_discount_basis_points as int
        } else {
            let range = self.nslp_max_discount_basis_points
                - self.nslp_min_discount_basis_points;
            self.nslp_max_discount_basis_points - spec_proportional(
                range,
                available_near - nears_requested,
                self.nslp_liquidity_target as int,
            )
        }
    }

    /// The liquidity pool's discount for a swap, in basis points.
    pub fn internal_get_discount_basis_points(
        &self,
        available_near: u128,
        nears_requested: u128,
    ) -> (r: u16)
        requires
            self.nslp_min_discount_basis_points <= self.nslp_max_discount_basis_points,
        ensures
            r == self.spec_discount_basis_points(available_near, nears_requested),
            r <= self.nslp_max_discount_basis_points,
    {
        if available_near <= nears_requested {
            return self.nslp_max_discount_basis_points;
        }
        let near_after = available_near - nears_requested;
        if near_after >= self.nslp_liquidity_target {
            return self.nslp_min_discount_basis_points;
        }
        // From here the pool ends below target: interpolate linearly from the
        // maximum discount at zero down to the minimum at the target.
        let range = self.nslp_max_discount_basis_points - self.nslp_min_discount_basis_points;
        proof {
            assert((range as u128) * near_after < self.nslp_liquidity_target * p128())
                by (nonlinear_arith)
                requires
                    0 <= range < 0x1_0000_0000 < p128(),
                    0 <= near_after < self.nslp_liquidity_target,
            {
            }
            assert(range * near_after <= self.nslp_liquidity_target * range) by (nonlinear_arith)
                requires
                    0 <= range,
                    0 <= near_after <= self.nslp_liquidity_target,
            {
            }
            lemma_multiply_divide_le(
                range * near_after,
                self.nslp_liquidity_target as int,
                range as int,
            );
        }
        let proportional_bp = proportional(range as u128, near_after, self.nslp_liquidity_target);
        self.nslp_max_discount_basis_points - (proportional_bp as u16)
    }

    /// Liquidity-pool shares minted for adding `amount` of liquidity. The
    /// pool holds base currency and stake shares at once, so its whole value
    /// prices the new shares; the pool's balances arrive as plain values.
    pub fn nslp_shares_from_amount(
        &self,
        amount: u128,
        nslp_available: u128,
        nslp_stake_shares: u128,
        nslp_shares: u128,
    ) -> (r: u128)
        requires
            self.total_stake_shares > 0 ==> nslp_stake_shares * self.total_for_staking
                < self.total_stake_shares * p128(),
            nslp_available + spec_amount_from_shares(
                nslp_stake_shares,
                self.total_for_staking,
                self.total_stake_shares,
            ) <= u128::MAX,
            ({
                let total_pool_value = nslp_available + spec_amount_from_shares(
                    nslp_stake_shares,
                    self.total_for_staking,
                    self.total_stake_shares,
                );
                total_pool_value > 0 && nslp_shares > 0 ==> nslp_shares * amount
                    < total_pool_value * p128()
            }),
        ensures
            ({
                let total_pool_value = (nslp_available + spec_amount_from_shares(
                    nslp_stake_shares,
                    self.total_for_staking,
                    self.total_stake_shares,
                )) as u128;
                r == spec_shares_from_amount(amount, total_pool_value, nslp_shares)
            }),
    {
        let total_pool_value = nslp_available + self.amount_from_stake_shares(nslp_stake_shares);
        shares_from_amount(amount, total_pool_value, nslp_shares)
    }

    /// Value of `num_shares` liquidity-pool shares, at the pool's whole value.
    pub fn amount_from_nslp_shares(
        &self,
        num_shares: u128,
        nslp_available: u128,
        nslp_stake_shares: u128,
        nslp_shares: u128,
    ) -> (r: u128)
        requires
            self.total_stake_shares > 0 ==> nslp_stake_shares * self.total_for_staking
                < self.total_stake_shares * p128(),
            nslp_available + spec_amount_from_shares(
                nslp_stake_shares,
                self.total_for_staking,
                self.total_stake_shares,
            ) <= u128::MAX,
            ({
                let total_pool_value = nslp_available + spec_amount_from_shares(
                    nslp_stake_shares,
                    self.total_for_staking,
                    self.total_stake_shares,
                );
                nslp_shares > 0 ==> num_shares * total_pool_value < nslp_shares * p128()
            }),
        ensures
            ({
                let total_pool_value = (nslp_available + spec_amount_from_shares(
                    nslp_stake_shares,
                    self.total_for_staking,
                    self.total_stake_shares,
                )) as u128;
                r == spec_amount_from_shares(num_shares, total_pool_value, nslp_shares)
            }),
    {
        let total_pool_value = nslp_available + self.amount_from_stake_shares(nslp_stake_shares);
        amount_from_shares(num_shares, total_pool_value, nslp_shares)
    }

    /// Ledger side of the liquidity pool's internal clearing: a user's fresh
    /// deposit-and-mint is converted into a zero-fee swap against the pool.
    /// The contract keeps the deposited money as the pool's liquidity, and
    /// burns the pool's own shares against the ones just minted, so no stake
    /// order ever reaches an external pool. The pool's account entry is the
    /// embedding application's bookkeeping.
    pub fn nslp_try_internal_clearing(&mut self, near_value: u128, st_near_to_sell: u128)
        requires
            near_value <= old(self).epoch_stake_orders,
            near_value <= old(self).total_for_staking,
            st_near_to_sell <= old(self).total_stake_shares,
            old(self).total_available + near_value <= u128::MAX,
        ensures
            final(self)@ == (crate::state::LedgerView {
                total_for_staking: (old(self).total_for_staking - near_value) as u128,
                epoch_stake_orders: (old(self).epoch_stake_orders - near_value) as u128,
                total_available: (old(self).total_available + near_value) as u128,
                total_stake_shares: (old(self).total_stake_shares - st_near_to_sell) as u128,
                ..old(self)@
            }),
    {
        self.total_for_staking -= near_value;
        self.epoch_stake_orders -= near_value;
        self.total_available += near_value;
        self.total_stake_shares -= st_near_to_sell;
        proof {
            assert(final(self)@ =~= (crate::state::LedgerView {
                total_for_staking: (old(self).total_for_staking - near_value) as u128,
                epoch_stake_orders: (old(self).epoch_stake_orders - near_value) as u128,
                total_available: (old(self).total_available + near_value) as u128,
                total_stake_shares: (old(self).total_stake_shares - st_near_to_sell) as u128,
                ..old(self)@
            }));
        }
    }

    /// Base currency a seller gets for `st_near_to_sell` stake shares through
    /// the liquidity pool: their value at the share price, minus the swap
    /// fee, which equals the current discount.
    pub fn internal_get_near_amount_sell_stnear(
        &self,
        available_near: u128,
        st_near_to_sell: u128,
    ) -> (r: u128)
        requires
            self.nslp_min_discount_basis_points <= self.nslp_max_discount_basis_points,
            self.nslp_max_discount_basis_points < 10000,
            self.total_stake_shares > 0 ==> st_near_to_sell * self.total_for_staking
                < self.total_stake_shares * p128(),
        ensures
            ({
                let nears_out = spec_amount_from_shares(
                    st_near_to_sell,
                    self.total_for_staking,
                    self.total_stake_shares,
                );
                let fee_bp = self.spec_discount_basis_points(available_near, nears_out as u128);
                r == nears_out - spec_apply_pct(fee_bp as u16, nears_out as u128)
            }),
    {
        let nears_out = self.amount_from_stake_shares(st_near_to_sell);
        let swap_fee_basis_points = self.internal_get_discount_basis_points(
            available_near,
            nears_out,
        );
        let fee = apply_pct(swap_fee_basis_points, nears_out);
        // The seller pays the discount as a fee for skipping the unlock wait.
        nears_out - fee
    }
}

} // verus!
