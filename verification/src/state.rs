//! The liquidity pool record and the share-accounting engine.
//!
//! One `LiquidityPool` exists per unordered pair of assets. It owns two
//! reserves and the aggregate count of outstanding ownership shares. Every
//! deposit mints shares backed by a proportional reserve increase; every
//! withdrawal burns shares and releases a proportional part of each reserve.

use vstd::prelude::*;

verus! {

use crate::errors::DexProgramError;
use crate::math::{
    compute_scaled_product, is_isqrt, isqrt_u128, lemma_le_quotient_mul, lemma_payout_le_deposit,
    lemma_pow10_pos, lemma_proportional_payout_bounds, pow10, scaled_product,
};
use vstd::arithmetic::div_mod::{
    lemma_basic_div, lemma_div_is_ordered, lemma_div_multiples_vanish, lemma_fundamental_div_mod,
    lemma_mod_division_less_than_divisor, lemma_multiply_divide_lt,
};
use crate::seed::{asset_id_lt, concat_base58, seed_spec};
use vstd::arithmetic::mul::{
    lemma_mul_inequality, lemma_mul_is_commutative, lemma_mul_strict_inequality,
};

/// A 32-byte asset identity, held as plain bytes. The canonical pool
/// ordering compares these bytes lexicographically.
#[derive(Clone, Copy, Debug)]
pub struct AssetId {
    pub bytes: [u8; 32],
}

impl PartialEq for AssetId {
    fn eq(&self, other: &AssetId) -> (r: bool) {
        let mut i: usize = 0;
        while i < 32
            invariant
                i <= 32,
                forall|j: int| 0 <= j < i ==> self.bytes[j] == other.bytes[j],
            decreases 32 - i,
        {
            if self.bytes[i] != other.bytes[i] {
                proof {
                    broadcast use vstd::array::group_array_axioms;

                    assert(!(self.bytes =~= other.bytes));
                }
                return false;
            }
            i = i + 1;
        }
        proof {
            broadcast use vstd::array::group_array_axioms;

            assert(self.bytes =~= other.bytes);
        }
        true
    }
}

impl vstd::std_specs::cmp::PartialEqSpecImpl for AssetId {
    open spec fn obeys_eq_spec() -> bool {
        true
    }

    open spec fn eq_spec(&self, other: &AssetId) -> bool {
        self.bytes == other.bytes
    }
}

/// Storage footprint of a persisted pool record: an 8-byte header, the two
/// 32-byte asset identities, three 8-byte counters and the 1-byte nonce.
pub const ACCOUNT_SIZE: usize = 8 + 32 + 32 + 8 + 8 + 8 + 1;

/// The pool record: two asset identities, their reserves, the outstanding
/// shares, and the nonce that disambiguates the pool's derived signing
/// authority.
#[derive(Clone, Copy, Debug)]
pub struct LiquidityPool {
    pub token_one: AssetId,
    pub token_two: AssetId,
    pub total_shares: u64,
    pub reserve_one: u64,
    pub reserve_two: u64,
    pub bump: u8,
}

impl LiquidityPool {
    /// Well-formedness of a pool record: the pair is a real pair, an empty
    /// pool holds no reserves, and a funded pool backs its shares with
    /// positive reserves of both assets.
    pub open spec fn wf(self) -> bool {
        &&& self.token_one != self.token_two
        &&& (self.total_shares == 0 ==> self.reserve_one == 0 && self.reserve_two == 0)
        &&& (self.total_shares > 0 ==> self.reserve_one > 0 && self.reserve_two > 0)
    }

    /// Runtime check of `wf`, for callers outside verified code.
    pub fn is_well_formed(&self) -> (r: bool)
        ensures
            r == self.wf(),
    {
        (!(self.token_one == self.token_two))
            && (self.total_shares != 0 || (self.reserve_one == 0 && self.reserve_two == 0))
            && (self.total_shares == 0 || (self.reserve_one > 0 && self.reserve_two > 0))
    }

    /// A fresh pool for the given pair: no shares, no reserves.
    pub fn new(token_one: AssetId, token_two: AssetId, bump: u8) -> (pool: Self)
        ensures
            pool.token_one == token_one,
            pool.token_two == token_two,
            pool.total_shares == 0,
            pool.reserve_one == 0,
            pool.reserve_two == 0,
            pool.bump == bump,
            pool.wf() <==> token_one != token_two,
    {
        Self {
            token_one,
            token_two,
            total_shares: 0,
            reserve_one: 0,
            reserve_two: 0,
            bump,
        }
    }

    /// The canonical pair seed string: base58 of the byte-wise larger
    /// asset identity followed by base58 of the smaller, so the seed —
    /// and everything derived from it — is the same whichever order the
    /// pair is given in.
    pub fn generate_seed(token_one: AssetId, token_two: AssetId) -> (r: String)
        ensures
            r@ == seed_spec(token_one, token_two),
    {
        if asset_id_lt(&token_two, &token_one) {
            concat_base58(&token_one, &token_two)
        } else {
            concat_base58(&token_two, &token_one)
        }
    }

    /// Mints shares: raises the aggregate count, or fails without any
    /// change when the count would wrap.
    pub fn grant_shares(&mut self, shares: u64) -> (r: Result<(), DexProgramError>)
        ensures
            r is Ok <==> old(self).total_shares + shares <= u64::MAX,
            r is Ok ==> final(self).total_shares == old(self).total_shares + shares,
            r is Err ==> *final(self) == *old(self)
                && r->Err_0 == DexProgramError::OverflowOrUnderflowOccurred,
            final(self).token_one == old(self).token_one,
            final(self).token_two == old(self).token_two,
            final(self).reserve_one == old(self).reserve_one,
            final(self).reserve_two == old(self).reserve_two,
            final(self).bump == old(self).bump,
    {
        match self.total_shares.checked_add(shares) {
            Some(new_total) => {
                self.total_shares = new_total;
                Ok(())
            }
            None => Err(DexProgramError::OverflowOrUnderflowOccurred),
        }
    }

    /// Burns shares: lowers the aggregate count, or fails without any
    /// change when more shares are burned than are outstanding.
    pub fn remove_shares(&mut self, shares: u64) -> (r: Result<(), DexProgramError>)
        ensures
            r is Ok <==> shares <= old(self).total_shares,
            r is Ok ==> final(self).total_shares == old(self).total_shares - shares,
            r is Err ==> *final(self) == *old(self)
                && r->Err_0 == DexProgramError::OverflowOrUnderflowOccurred,
            final(self).token_one == old(self).token_one,
            final(self).token_two == old(self).token_two,
            final(self).reserve_one == old(self).reserve_one,
            final(self).reserve_two == old(self).reserve_two,
            final(self).bump == old(self).bump,
    {
        match self.total_shares.checked_sub(shares) {
            Some(new_total) => {
                self.total_shares = new_total;
                Ok(())
            }
            None => Err(DexProgramError::OverflowOrUnderflowOccurred),
        }
    }

    /// Shares implied by depositing `amount` of one asset against its
    /// current `reserve`, at `total` outstanding shares:
    /// `floor(amount * total / reserve)`.
    pub open spec fn ratio_shares(amount: u64, total: u64, reserve: u64) -> int {
        (amount * total) / (reserve as int)
    }

    /// Both ratio computations of a follow-up deposit go through: the
    /// products fit in 64 bits and neither reserve is zero.
    pub open spec fn ratios_computable(self, amount_one: u64, amount_two: u64) -> bool {
        &&& amount_one * self.total_shares <= u64::MAX
        &&& self.reserve_one > 0
        &&& amount_two * self.total_shares <= u64::MAX
        &&& self.reserve_two > 0
    }

    /// The share allocation of a follow-up deposit: the more constrained
    /// asset bounds the mint, so an imbalanced deposit cannot mint more
    /// than its scarcer side justifies.
    pub open spec fn follow_up_shares(self, amount_one: u64, amount_two: u64) -> int {
        let shares_one = Self::ratio_shares(amount_one, self.total_shares, self.reserve_one);
        let shares_two = Self::ratio_shares(amount_two, self.total_shares, self.reserve_two);
        if shares_one <= shares_two {
            shares_one
        } else {
            shares_two
        }
    }

    /// Exactly when a deposit fails with `OverflowOrUnderflowOccurred`: a
    /// checked product, quotient, or balance update cannot be represented.
    pub open spec fn add_would_overflow(
        self,
        amount_one: u64,
        amount_two: u64,
        decimals_one: u8,
        decimals_two: u8,
    ) -> bool {
        if self.total_shares == 0 {
            scaled_product(amount_one, amount_two, decimals_one, decimals_two) > 0 && (
            self.reserve_one + amount_one > u64::MAX || self.reserve_two + amount_two > u64::MAX)
        } else {
            !self.ratios_computable(amount_one, amount_two) || (self.follow_up_shares(
                amount_one,
                amount_two,
            ) > 0 && (self.total_shares + self.follow_up_shares(amount_one, amount_two) > u64::MAX
                || self.reserve_one + amount_one > u64::MAX || self.reserve_two + amount_two
                > u64::MAX))
        }
    }

    /// Exactly when a deposit fails with `FailedToAddLiquidity`: the
    /// computed share allocation is zero, so the deposit is too small or
    /// its ratio too degenerate to mint any share.
    pub open spec fn add_is_degenerate(
        self,
        amount_one: u64,
        amount_two: u64,
        decimals_one: u8,
        decimals_two: u8,
    ) -> bool {
        if self.total_shares == 0 {
            scaled_product(amount_one, amount_two, decimals_one, decimals_two) == 0
        } else {
            self.ratios_computable(amount_one, amount_two) && self.follow_up_shares(
                amount_one,
                amount_two,
            ) == 0
        }
    }

    /// Deposits `amount_one` and `amount_two` and mints the implied shares.
    ///
    /// Into an empty pool, the mint is the integer square root of the
    /// decimal-scaled product of the two amounts — the geometric mean, which
    /// makes the initial share price independent of the ratio the first
    /// depositor happens to choose. Into a funded pool, the mint is the
    /// smaller of the two ratio-implied share counts. The caller owes the
    /// pool both amounts; the asset transfers themselves are the gateway's
    /// work and happen outside this record.
    pub fn add_liquidity(
        &mut self,
        amount_one: u64,
        amount_two: u64,
        decimals_one: u8,
        decimals_two: u8,
    ) -> (r: Result<(), DexProgramError>)
        ensures
            r is Err ==> *final(self) == *old(self),
            r is Err ==> (r->Err_0 == DexProgramError::OverflowOrUnderflowOccurred
                <==> old(self).add_would_overflow(
                amount_one,
                amount_two,
                decimals_one,
                decimals_two,
            )),
            r is Err ==> (r->Err_0 == DexProgramError::FailedToAddLiquidity
                <==> old(self).add_is_degenerate(amount_one, amount_two, decimals_one, decimals_two)),
            r is Ok <==> !old(self).add_would_overflow(
                amount_one,
                amount_two,
                decimals_one,
                decimals_two,
            ) && !old(self).add_is_degenerate(amount_one, amount_two, decimals_one, decimals_two),
            r is Ok ==> final(self).reserve_one == old(self).reserve_one + amount_one
                && final(self).reserve_two == old(self).reserve_two + amount_two,
            r is Ok && old(self).total_shares == 0 ==> is_isqrt(
                final(self).total_shares as nat,
                scaled_product(amount_one, amount_two, decimals_one, decimals_two),
            ),
            r is Ok && old(self).total_shares > 0 ==> final(self).total_shares
                == old(self).total_shares + old(self).follow_up_shares(amount_one, amount_two),
            r is Ok ==> final(self).total_shares > old(self).total_shares,
            final(self).token_one == old(self).token_one,
            final(self).token_two == old(self).token_two,
            final(self).bump == old(self).bump,
            old(self).wf() && r is Ok ==> final(self).wf(),
    {
        let shares_to_allocate: u64 = if self.total_shares == 0 {
            let scaled = compute_scaled_product(amount_one, amount_two, decimals_one, decimals_two);
            let shares = isqrt_u128(scaled);
            proof {
                let sp = scaled_product(amount_one, amount_two, decimals_one, decimals_two);
                if shares == 0 {
                    assert((shares as nat + 1) * (shares as nat + 1) == 1) by (nonlinear_arith)
                        requires
                            shares == 0,
                    ;
                    assert(sp == 0);
                }
                if shares > 0 {
                    assert(1 <= shares * shares) by (nonlinear_arith)
                        requires
                            1 <= shares,
                    ;
                    if amount_one == 0 || amount_two == 0 {
                        assert(amount_one * amount_two == 0) by (nonlinear_arith)
                            requires
                                amount_one == 0 || amount_two == 0,
                        ;
                        lemma_pow10_pos((decimals_one + decimals_two) as nat);
                        lemma_basic_div(0, pow10((decimals_one + decimals_two) as nat) as int);
                        assert(sp == 0);
                    }
                }
            }
            shares
        } else {
            let mul_value_one = match amount_one.checked_mul(self.total_shares) {
                Some(v) => v,
                None => {
                    return Err(DexProgramError::OverflowOrUnderflowOccurred);
                }
            };
            let shares_one = match mul_value_one.checked_div(self.reserve_one) {
                Some(v) => v,
                None => {
                    return Err(DexProgramError::OverflowOrUnderflowOccurred);
                }
            };
            let mul_value_two = match amount_two.checked_mul(self.total_shares) {
                Some(v) => v,
                None => {
                    return Err(DexProgramError::OverflowOrUnderflowOccurred);
                }
            };
            let shares_two = match mul_value_two.checked_div(self.reserve_two) {
                Some(v) => v,
                None => {
                    return Err(DexProgramError::OverflowOrUnderflowOccurred);
                }
            };
            if shares_one <= shares_two {
                shares_one
            } else {
                shares_two
            }
        };
        if shares_to_allocate == 0 {
            return Err(DexProgramError::FailedToAddLiquidity);
        }
        let new_reserve_one = match self.reserve_one.checked_add(amount_one) {
            Some(v) => v,
            None => {
                return Err(DexProgramError::OverflowOrUnderflowOccurred);
            }
        };
        let new_reserve_two = match self.reserve_two.checked_add(amount_two) {
            Some(v) => v,
            None => {
                return Err(DexProgramError::OverflowOrUnderflowOccurred);
            }
        };
        match self.grant_shares(shares_to_allocate) {
            Ok(()) => {}
            Err(e) => {
                return Err(e);
            }
        }
        match self.update_reserves(new_reserve_one, new_reserve_two) {
            Ok(()) => {}
            Err(e) => {
                return Err(e);
            }
        }
        Ok(())
    }

    /// Exactly what a withdrawal of `shares` pays out of one reserve, at
    /// `total` outstanding shares: `floor(shares * reserve / total)`.
    pub open spec fn withdrawal_amount(shares: u64, reserve: u64, total: u64) -> int {
        (shares * reserve) / (total as int)
    }

    /// Redeems `shares` for a proportional part of both reserves.
    ///
    /// The payouts are computed against the share count before the burn, as
    /// the algebraic inverse of the deposit ratio. The pool owes the caller
    /// both payouts; the transfers themselves run under the pool's derived
    /// signing authority, outside this record. Burning more shares than are
    /// outstanding fails without any change.
    pub fn remove_liquidity(&mut self, shares: u64) -> (r: Result<(u64, u64), DexProgramError>)
        ensures
            r is Err <==> shares > old(self).total_shares,
            r is Err ==> *final(self) == *old(self)
                && r->Err_0 == DexProgramError::OverflowOrUnderflowOccurred,
            r is Ok && old(self).total_shares == 0 ==> r->Ok_0 == (0u64, 0u64)
                && *final(self) == *old(self),
            r is Ok && old(self).total_shares > 0 ==> ({
                &&& r->Ok_0.0 == Self::withdrawal_amount(
                    shares,
                    old(self).reserve_one,
                    old(self).total_shares,
                )
                &&& r->Ok_0.1 == Self::withdrawal_amount(
                    shares,
                    old(self).reserve_two,
                    old(self).total_shares,
                )
                &&& final(self).total_shares == old(self).total_shares - shares
                &&& final(self).reserve_one == old(self).reserve_one - r->Ok_0.0
                &&& final(self).reserve_two == old(self).reserve_two - r->Ok_0.1
            }),
            r is Ok ==> r->Ok_0.0 <= old(self).reserve_one && r->Ok_0.1 <= old(self).reserve_two,
            final(self).token_one == old(self).token_one,
            final(self).token_two == old(self).token_two,
            final(self).bump == old(self).bump,
            old(self).wf() ==> final(self).wf(),
    {
        if shares > self.total_shares {
            return Err(DexProgramError::OverflowOrUnderflowOccurred);
        }
        if self.total_shares == 0 {
            return Ok((0u64, 0u64));
        }
        let total_before = self.total_shares;
        proof {
            assert((shares as int) * (self.reserve_one as int) <= u128::MAX) by (nonlinear_arith)
                requires
                    shares <= 0xffff_ffff_ffff_ffffu64,
                    self.reserve_one <= 0xffff_ffff_ffff_ffffu64,
            ;
            assert((shares as int) * (self.reserve_two as int) <= u128::MAX) by (nonlinear_arith)
                requires
                    shares <= 0xffff_ffff_ffff_ffffu64,
                    self.reserve_two <= 0xffff_ffff_ffff_ffffu64,
            ;
            lemma_proportional_payout_bounds(
                shares as int,
                self.reserve_one as int,
                total_before as int,
            );
            lemma_proportional_payout_bounds(
                shares as int,
                self.reserve_two as int,
                total_before as int,
            );
        }
        let amount_one_128: u128 = (shares as u128) * (self.reserve_one as u128) / (
        total_before as u128);
        let amount_two_128: u128 = (shares as u128) * (self.reserve_two as u128) / (
        total_before as u128);
        let amount_one = amount_one_128 as u64;
        let amount_two = amount_two_128 as u64;
        let new_reserve_one = self.reserve_one - amount_one;
        let new_reserve_two = self.reserve_two - amount_two;
        match self.remove_shares(shares) {
            Ok(()) => {}
            Err(e) => {
                return Err(e);
            }
        }
        match self.update_reserves(new_reserve_one, new_reserve_two) {
            Ok(()) => {}
            Err(e) => {
                return Err(e);
            }
        }
        Ok((amount_one, amount_two))
    }

    /// The pool's reserve of the asset a trader pays in.
    pub open spec fn reserve_in(self, input_is_one: bool) -> u64 {
        if input_is_one {
            self.reserve_one
        } else {
            self.reserve_two
        }
    }

    /// The pool's reserve of the asset a trader is paid out of.
    pub open spec fn reserve_out(self, input_is_one: bool) -> u64 {
        if input_is_one {
            self.reserve_two
        } else {
            self.reserve_one
        }
    }

    /// The part of a swap's input that takes part in pricing, once the
    /// basis-point fee is withheld: `floor(amount_in * (10000 - fee_bps) / 10000)`.
    pub open spec fn swap_effective_input(amount_in: u64, fee_bps: u16) -> int {
        (amount_in * (10000 - fee_bps)) / 10000
    }

    /// The output the constant-product rule quotes for a given input:
    /// `floor(reserve_out * eff / (reserve_in + eff))` where `eff` is the
    /// effective input.
    pub open spec fn swap_output(
        reserve_in: u64,
        reserve_out: u64,
        amount_in: u64,
        fee_bps: u16,
    ) -> int {
        let eff = Self::swap_effective_input(amount_in, fee_bps);
        (reserve_out * eff) / (reserve_in + eff)
    }

    /// Swaps `amount_in` of one asset for the other at the constant-product
    /// price, charging `fee_bps` basis points on the input. The fee stays
    /// in the pool, so the product of the two reserves never falls.
    ///
    /// A swap against a pool missing either reserve, or one whose output
    /// rounds to zero, fails with `InsufficientFunds` and changes nothing.
    pub fn swap(&mut self, amount_in: u64, input_is_one: bool, fee_bps: u16) -> (r: Result<
        u64,
        DexProgramError,
    >)
        requires
            fee_bps <= 10000,
        ensures
            r is Err ==> *final(self) == *old(self),
            r is Err ==> (r->Err_0 == DexProgramError::InsufficientFunds <==> old(self).reserve_in(
                input_is_one,
            ) == 0 || old(self).reserve_out(input_is_one) == 0 || Self::swap_output(
                old(self).reserve_in(input_is_one),
                old(self).reserve_out(input_is_one),
                amount_in,
                fee_bps,
            ) == 0),
            r is Err ==> (r->Err_0 == DexProgramError::OverflowOrUnderflowOccurred <==> old(
                self,
            ).reserve_in(input_is_one) > 0 && old(self).reserve_out(input_is_one) > 0
                && Self::swap_output(
                old(self).reserve_in(input_is_one),
                old(self).reserve_out(input_is_one),
                amount_in,
                fee_bps,
            ) > 0 && old(self).reserve_in(input_is_one) + amount_in > u64::MAX),
            r is Ok <==> old(self).reserve_in(input_is_one) > 0 && old(self).reserve_out(
                input_is_one,
            ) > 0 && Self::swap_output(
                old(self).reserve_in(input_is_one),
                old(self).reserve_out(input_is_one),
                amount_in,
                fee_bps,
            ) > 0 && old(self).reserve_in(input_is_one) + amount_in <= u64::MAX,
            r is Ok ==> r->Ok_0 == Self::swap_output(
                old(self).reserve_in(input_is_one),
                old(self).reserve_out(input_is_one),
                amount_in,
                fee_bps,
            ),
            r is Ok ==> final(self).reserve_in(input_is_one) == old(self).reserve_in(input_is_one)
                + amount_in,
            r is Ok ==> final(self).reserve_out(input_is_one) == old(self).reserve_out(
                input_is_one,
            ) - r->Ok_0,
            r is Ok ==> r->Ok_0 < old(self).reserve_out(input_is_one),
            r is Ok ==> final(self).reserve_one * final(self).reserve_two >= old(self).reserve_one
                * old(self).reserve_two,
            final(self).total_shares == old(self).total_shares,
            final(self).token_one == old(self).token_one,
            final(self).token_two == old(self).token_two,
            final(self).bump == old(self).bump,
            old(self).wf() ==> final(self).wf(),
    {
        let reserve_in_before = if input_is_one {
            self.reserve_one
        } else {
            self.reserve_two
        };
        let reserve_out_before = if input_is_one {
            self.reserve_two
        } else {
            self.reserve_one
        };
        if reserve_in_before == 0 || reserve_out_before == 0 {
            return Err(DexProgramError::InsufficientFunds);
        }
        proof {
            assert((amount_in as int) * ((10000 - fee_bps) as int) <= u128::MAX)
                by (nonlinear_arith)
                requires
                    amount_in <= 0xffff_ffff_ffff_ffffu64,
                    fee_bps <= 10000,
            ;
        }
        let eff: u128 = (amount_in as u128) * ((10000 - fee_bps) as u128) / 10000;
        proof {
            lemma_mul_inequality((10000 - fee_bps) as int, 10000, amount_in as int);
            lemma_mul_is_commutative(amount_in as int, (10000 - fee_bps) as int);
            lemma_div_is_ordered(
                (amount_in * (10000 - fee_bps)) as int,
                10000 * (amount_in as int),
                10000,
            );
            lemma_div_multiples_vanish(amount_in as int, 10000);
            assert(eff <= amount_in);
        }
        let denom: u128 = (reserve_in_before as u128) + eff;
        proof {
            assert((reserve_out_before as int) * (eff as int) <= u128::MAX) by (nonlinear_arith)
                requires
                    reserve_out_before <= 0xffff_ffff_ffff_ffffu64,
                    eff <= 0xffff_ffff_ffff_ffffu128,
            ;
        }
        let out_128: u128 = (reserve_out_before as u128) * eff / denom;
        proof {
            lemma_mul_strict_inequality(eff as int, denom as int, reserve_out_before as int);
            lemma_mul_is_commutative(eff as int, reserve_out_before as int);
            lemma_mul_is_commutative(denom as int, reserve_out_before as int);
            lemma_multiply_divide_lt(
                (reserve_out_before * eff) as int,
                denom as int,
                reserve_out_before as int,
            );
            assert(out_128 < reserve_out_before);
        }
        let amount_out = out_128 as u64;
        if amount_out == 0 {
            return Err(DexProgramError::InsufficientFunds);
        }
        let new_reserve_in = match reserve_in_before.checked_add(amount_in) {
            Some(v) => v,
            None => {
                return Err(DexProgramError::OverflowOrUnderflowOccurred);
            }
        };
        let new_reserve_out = reserve_out_before - amount_out;
        proof {
            lemma_fundamental_div_mod((reserve_out_before * eff) as int, denom as int);
            lemma_mod_division_less_than_divisor((reserve_out_before * eff) as int, denom as int);
            assert((denom as int) * (out_128 as int) <= (reserve_out_before as int) * (eff as int));
            assert((reserve_in_before + eff) * (reserve_out_before - out_128) >= reserve_in_before
                * reserve_out_before) by (nonlinear_arith)
                requires
                    (denom as int) * (out_128 as int) <= (reserve_out_before as int) * (
                    eff as int),
                    denom == reserve_in_before + eff,
                    0 <= eff,
                    0 <= reserve_in_before,
                    0 <= out_128 <= reserve_out_before,
            ;
            lemma_mul_inequality(
                (reserve_in_before + eff) as int,
                (reserve_in_before + amount_in) as int,
                (reserve_out_before - out_128) as int,
            );
            lemma_mul_is_commutative(
                (reserve_in_before + eff) as int,
                (reserve_out_before - out_128) as int,
            );
            lemma_mul_is_commutative(
                (reserve_in_before + amount_in) as int,
                (reserve_out_before - out_128) as int,
            );
            assert((reserve_in_before + amount_in) * (reserve_out_before - out_128)
                >= reserve_in_before * reserve_out_before);
        }
        if input_is_one {
            match self.update_reserves(new_reserve_in, new_reserve_out) {
                Ok(()) => {}
                Err(e) => {
                    return Err(e);
                }
            }
        } else {
            match self.update_reserves(new_reserve_out, new_reserve_in) {
                Ok(()) => {}
                Err(e) => {
                    return Err(e);
                }
            }
        }
        proof {
            lemma_mul_is_commutative(
                (reserve_out_before - out_128) as int,
                (reserve_in_before + amount_in) as int,
            );
            lemma_mul_is_commutative(reserve_out_before as int, reserve_in_before as int);
        }
        Ok(amount_out)
    }

    /// Overwrites both reserves. The engine computes the new balances with
    /// checked arithmetic before calling this.
    pub fn update_reserves(&mut self, reserve_one: u64, reserve_two: u64) -> (r: Result<
        (),
        DexProgramError,
    >)
        ensures
            r is Ok,
            final(self).reserve_one == reserve_one,
            final(self).reserve_two == reserve_two,
            final(self).token_one == old(self).token_one,
            final(self).token_two == old(self).token_two,
            final(self).total_shares == old(self).total_shares,
            final(self).bump == old(self).bump,
    {
        self.reserve_one = reserve_one;
        self.reserve_two = reserve_two;
        Ok(())
    }
}

/// Law: no value creation across a deposit/withdrawal round trip.
///
/// Take any well-formed pool and any deposit that the engine accepts, and
/// let `shares` be exactly the count that deposit mints — the geometric
/// mean for the first deposit into an empty pool, the more constrained
/// ratio-implied count for any later one. Redeeming those same shares
/// immediately afterwards pays out at most the deposited amounts of each
/// asset: integer truncation only ever favours the pool, so the reserves
/// end at or above their pre-deposit level while the share count returns
/// to where it started. For the first deposit into an empty pool the
/// payouts equal the deposits exactly.
pub proof fn lemma_add_then_remove_never_creates_value(
    pool: LiquidityPool,
    amount_one: u64,
    amount_two: u64,
    decimals_one: u8,
    decimals_two: u8,
    shares: u64,
)
    requires
        pool.wf(),
        pool.total_shares == 0 ==> is_isqrt(
            shares as nat,
            scaled_product(amount_one, amount_two, decimals_one, decimals_two),
        ),
        pool.total_shares > 0 ==> pool.ratios_computable(amount_one, amount_two) && shares
            == pool.follow_up_shares(amount_one, amount_two),
        shares > 0,
        pool.total_shares + shares <= u64::MAX,
        pool.reserve_one + amount_one <= u64::MAX,
        pool.reserve_two + amount_two <= u64::MAX,
    ensures
        LiquidityPool::withdrawal_amount(
            shares,
            (pool.reserve_one + amount_one) as u64,
            (pool.total_shares + shares) as u64,
        ) <= amount_one,
        LiquidityPool::withdrawal_amount(
            shares,
            (pool.reserve_two + amount_two) as u64,
            (pool.total_shares + shares) as u64,
        ) <= amount_two,
        pool.total_shares == 0 ==> LiquidityPool::withdrawal_amount(
            shares,
            (pool.reserve_one + amount_one) as u64,
            (pool.total_shares + shares) as u64,
        ) == amount_one && LiquidityPool::withdrawal_amount(
            shares,
            (pool.reserve_two + amount_two) as u64,
            (pool.total_shares + shares) as u64,
        ) == amount_two,
{
    let s = shares as int;
    let t = pool.total_shares as int;
    let r1 = pool.reserve_one as int;
    let r2 = pool.reserve_two as int;
    let a1 = amount_one as int;
    let a2 = amount_two as int;
    if pool.total_shares == 0 {
        // An empty well-formed pool holds nothing, so the payout formula
        // collapses to the deposit itself: (s * a) / s == a.
        assert(r1 == 0 && r2 == 0);
        lemma_div_multiples_vanish(a1, s);
        lemma_div_multiples_vanish(a2, s);
        assert((s * (r1 + a1)) / (t + s) == a1);
        assert((s * (r2 + a2)) / (t + s) == a2);
    } else {
        // The mint is bounded by both ratio-implied counts, so scaled back
        // up it cannot outrun either deposit.
        assert(s <= (a1 * t) / r1 && s <= (a2 * t) / r2);
        assert(0 <= a1 * t) by (nonlinear_arith)
            requires
                0 <= a1,
                0 <= t,
        ;
        assert(0 <= a2 * t) by (nonlinear_arith)
            requires
                0 <= a2,
                0 <= t,
        ;
        lemma_le_quotient_mul(s, a1 * t, r1);
        lemma_le_quotient_mul(s, a2 * t, r2);
        lemma_payout_le_deposit(s, r1, a1, t);
        lemma_payout_le_deposit(s, r2, a2, t);
    }
}

} // verus!
