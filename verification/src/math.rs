//! Integer arithmetic underlying the share-accounting formulas: powers of
//! ten for decimal scaling and the integer square root used to bootstrap an
//! empty pool.

use vstd::prelude::*;

verus! {

use vstd::arithmetic::div_mod::{
    lemma_div_denominator, lemma_div_is_ordered, lemma_div_multiples_vanish, lemma_div_pos_is_pos,
    lemma_fundamental_div_mod, lemma_mod_division_less_than_divisor, lemma_multiply_divide_lt,
};
use vstd::arithmetic::mul::{
    lemma_mul_inequality, lemma_mul_is_commutative, lemma_mul_strict_inequality,
};

/// `r` is the integer square root of `x`: the greatest natural number whose
/// square does not exceed `x`.
pub open spec fn is_isqrt(r: nat, x: nat) -> bool {
    r * r <= x < (r + 1) * (r + 1)
}

/// The integer square root of a number is unique.
pub proof fn lemma_isqrt_unique(r1: nat, r2: nat, x: nat)
    requires
        is_isqrt(r1, x),
        is_isqrt(r2, x),
    ensures
        r1 == r2,
{
    if r1 < r2 {
        assert((r1 + 1) * (r1 + 1) <= r2 * r2) by (nonlinear_arith)
            requires r1 + 1 <= r2;
    }
    if r2 < r1 {
        assert((r2 + 1) * (r2 + 1) <= r1 * r1) by (nonlinear_arith)
            requires r2 + 1 <= r1;
    }
}

/// Floor of the square root of `x`, by binary search on the answer. Any
/// 128-bit input has its root below `2^64`, so the result fits in a `u64`.
pub fn isqrt_u128(x: u128) -> (r: u64)
    ensures
        is_isqrt(r as nat, x as nat),
{
    let mut lo: u128 = 0;
    let mut hi: u128 = 0x1_0000_0000_0000_0000;
    proof {
        assert(0x1_0000_0000_0000_0000int * 0x1_0000_0000_0000_0000int > x as int)
            by (nonlinear_arith)
            requires x <= u128::MAX;
    }
    while hi - lo > 1
        invariant
            lo < hi <= 0x1_0000_0000_0000_0000u128,
            lo * lo <= x,
            hi * hi > x,
        decreases hi - lo,
    {
        let mid = lo + (hi - lo) / 2;
        proof {
            assert(mid * mid <= u128::MAX) by (nonlinear_arith)
                requires mid <= 0xffff_ffff_ffff_ffffu128;
        }
        let sq: u128 = mid * mid;
        if sq <= x {
            lo = mid;
        } else {
            hi = mid;
        }
    }
    proof {
        assert(hi == lo + 1);
    }
    lo as u64
}

/// Bounds on a proportional payout `floor(shares * reserve / total)`: it
/// never exceeds the reserve, redeeming strictly fewer shares than exist
/// leaves a strictly positive reserve behind, and redeeming every share
/// drains the reserve exactly.
pub proof fn lemma_proportional_payout_bounds(shares: int, reserve: int, total: int)
    requires
        0 <= shares <= total,
        0 < total,
        0 <= reserve,
    ensures
        0 <= (shares * reserve) / total,
        (shares * reserve) / total <= reserve,
        shares < total && 0 < reserve ==> (shares * reserve) / total < reserve,
        shares == total ==> (shares * reserve) / total == reserve,
{
    assert(0 <= shares * reserve) by (nonlinear_arith)
        requires
            0 <= shares,
            0 <= reserve,
    ;
    lemma_div_pos_is_pos(shares * reserve, total);
    lemma_mul_inequality(shares, total, reserve);
    lemma_div_is_ordered(shares * reserve, total * reserve, total);
    lemma_mul_is_commutative(total, reserve);
    lemma_div_multiples_vanish(reserve, total);
    if shares < total && 0 < reserve {
        lemma_mul_strict_inequality(shares, total, reserve);
        lemma_multiply_divide_lt(shares * reserve, total, reserve);
    }
}

/// A bound below a floor quotient scales back up past the product:
/// `s <= floor(x / d)` gives `s * d <= x`.
pub proof fn lemma_le_quotient_mul(s: int, x: int, d: int)
    requires
        0 < d,
        0 <= x,
        s <= x / d,
    ensures
        s * d <= x,
{
    lemma_fundamental_div_mod(x, d);
    lemma_mod_division_less_than_divisor(x, d);
    lemma_mul_inequality(s, x / d, d);
    lemma_mul_is_commutative(x / d, d);
    lemma_mul_is_commutative(d, x / d);
}

/// A proportional payout computed after a deposit never exceeds the
/// deposit itself, provided the minted shares were no more than the
/// deposit-to-reserve ratio justified: from `s * r <= a * t` it follows
/// that `floor(s * (r + a) / (t + s)) <= a`.
pub proof fn lemma_payout_le_deposit(s: int, r: int, a: int, t: int)
    requires
        0 <= s,
        0 <= r,
        0 <= a,
        0 <= t,
        0 < t + s,
        s * r <= a * t,
    ensures
        (s * (r + a)) / (t + s) <= a,
{
    assert(s * (r + a) <= a * (t + s)) by (nonlinear_arith)
        requires
            s * r <= a * t,
            0 <= s,
            0 <= a,
    ;
    lemma_div_is_ordered(s * (r + a), a * (t + s), t + s);
    lemma_mul_is_commutative(a, t + s);
    lemma_div_multiples_vanish(a, t + s);
}

/// `10^n`, the scaling factor for `n` decimal places.
pub open spec fn pow10(n: nat) -> nat
    decreases n,
{
    if n == 0 {
        1
    } else {
        10 * pow10((n - 1) as nat)
    }
}

/// Every power of ten is positive, so dividing by one is well defined.
pub proof fn lemma_pow10_pos(n: nat)
    ensures
        pow10(n) >= 1,
    decreases n,
{
    if n > 0 {
        lemma_pow10_pos((n - 1) as nat);
    }
}

/// A deposit pair scaled down by the pair's combined decimal precision:
/// `floor(amount_one * amount_two / 10^(decimals_one + decimals_two))`.
pub open spec fn scaled_product(
    amount_one: u64,
    amount_two: u64,
    decimals_one: u8,
    decimals_two: u8,
) -> nat {
    ((amount_one * amount_two) as nat) / pow10((decimals_one + decimals_two) as nat)
}

/// Computes `scaled_product` exactly: the full 128-bit product, then one
/// floor division by ten per decimal place. Nested floor divisions compose
/// into a single division by the full power of ten.
pub fn compute_scaled_product(
    amount_one: u64,
    amount_two: u64,
    decimals_one: u8,
    decimals_two: u8,
) -> (r: u128)
    ensures
        r as nat == scaled_product(amount_one, amount_two, decimals_one, decimals_two),
{
    proof {
        assert((amount_one as int) * (amount_two as int) <= u128::MAX) by (nonlinear_arith)
            requires
                amount_one <= 0xffff_ffff_ffff_ffffu64,
                amount_two <= 0xffff_ffff_ffff_ffffu64;
    }
    let mut prod: u128 = (amount_one as u128) * (amount_two as u128);
    let total: u16 = decimals_one as u16 + decimals_two as u16;
    let ghost full: nat = (amount_one * amount_two) as nat;
    let mut i: u16 = 0;
    proof {
        assert(pow10(0) == 1);
        assert(full / 1 == full);
    }
    while i < total
        invariant
            i <= total,
            full == (amount_one * amount_two) as nat,
            prod as nat == full / pow10(i as nat),
        decreases total - i,
    {
        proof {
            lemma_pow10_pos(i as nat);
            lemma_div_denominator(full as int, pow10(i as nat) as int, 10);
            assert(pow10((i + 1) as nat) == 10 * pow10(i as nat));
        }
        prod = prod / 10;
        i = i + 1;
    }
    prod
}

} // verus!
