//! Instruction adapters: validate the caller-supplied asset identities,
//! reject duplicate-asset pools, and marshal arguments into the engine.
//!
//! Account resolution, custody transfers and persistence belong to the
//! host; these functions carry the decisions each instruction makes on the
//! in-memory pool record.

use vstd::prelude::*;

verus! {

use crate::errors::DexProgramError;
use crate::math::{is_isqrt, scaled_product};
use crate::state::{AssetId, LiquidityPool};

/// Creates the pool record for a pair of assets: zero shares, zero
/// reserves, and the bump nonce under which the pool's address was
/// derived. A pair of equal assets is rejected before any record exists.
pub fn initialize_liquidity_pool(token_one: AssetId, token_two: AssetId, bump: u8) -> (r: Result<
    LiquidityPool,
    DexProgramError,
>)
    ensures
        r is Err <==> token_one == token_two,
        r is Err ==> r->Err_0 == DexProgramError::DuplicateTokenNotAllowed,
        r is Ok ==> ({
            let pool = r->Ok_0;
            &&& pool.token_one == token_one
            &&& pool.token_two == token_two
            &&& pool.total_shares == 0
            &&& pool.reserve_one == 0
            &&& pool.reserve_two == 0
            &&& pool.bump == bump
            &&& pool.wf()
        }),
{
    if token_one == token_two {
        return Err(DexProgramError::DuplicateTokenNotAllowed);
    }
    Ok(LiquidityPool::new(token_one, token_two, bump))
}

/// Deposits into the pool: mints the implied shares and raises both
/// reserves by the deposited amounts. The decimal precisions are those of
/// the two assets' mints, used only to scale the very first deposit.
pub fn add_liquidity(
    pool: &mut LiquidityPool,
    amount_one: u64,
    amount_two: u64,
    decimals_one: u8,
    decimals_two: u8,
) -> (r: Result<(), DexProgramError>)
    ensures
        r is Err ==> *final(pool) == *old(pool),
        r is Err ==> (r->Err_0 == DexProgramError::OverflowOrUnderflowOccurred <==> old(pool).add_would_overflow(amount_one, amount_two, decimals_one, decimals_two)),
        r is Err ==> (r->Err_0 == DexProgramError::FailedToAddLiquidity <==> old(pool).add_is_degenerate(amount_one, amount_two, decimals_one, decimals_two)),
        r is Ok <==> !old(pool).add_would_overflow(amount_one, amount_two, decimals_one, decimals_two)
            && !old(pool).add_is_degenerate(amount_one, amount_two, decimals_one, decimals_two),
        r is Ok ==> final(pool).reserve_one == old(pool).reserve_one + amount_one && final(pool).reserve_two == old(pool).reserve_two + amount_two,
        r is Ok && old(pool).total_shares == 0 ==> is_isqrt(
            final(pool).total_shares as nat,
            scaled_product(amount_one, amount_two, decimals_one, decimals_two),
        ),
        r is Ok && old(pool).total_shares > 0 ==> final(pool).total_shares == old(pool).total_shares + old(pool).follow_up_shares(amount_one, amount_two),
        final(pool).token_one == old(pool).token_one,
        final(pool).token_two == old(pool).token_two,
        final(pool).bump == old(pool).bump,
        old(pool).wf() && r is Ok ==> final(pool).wf(),
{
    pool.add_liquidity(amount_one, amount_two, decimals_one, decimals_two)
}

/// Withdraws from the pool: burns `shares` and pays out the proportional
/// part of both reserves. The two asset identities are those the caller
/// supplied; a duplicated identity is rejected before any change, and a
/// pair that does not name this pool never reaches the engine, because the
/// pool's own address is derived from the pair.
pub fn remove_liquidity(
    pool: &mut LiquidityPool,
    token_one: AssetId,
    token_two: AssetId,
    shares: u64,
) -> (r: Result<(u64, u64), DexProgramError>)
    requires
        token_one != token_two ==> (old(pool).token_one == token_one && old(pool).token_two
            == token_two) || (old(pool).token_one == token_two && old(pool).token_two == token_one),
    ensures
        token_one == token_two ==> r is Err && r->Err_0
            == DexProgramError::DuplicateTokenNotAllowed && *final(pool) == *old(pool),
        token_one != token_two ==> (r is Err <==> shares > old(pool).total_shares),
        r is Err ==> *final(pool) == *old(pool),
        token_one != token_two && r is Err ==> r->Err_0
            == DexProgramError::OverflowOrUnderflowOccurred,
        r is Ok && old(pool).total_shares == 0 ==> r->Ok_0 == (0u64, 0u64) && *final(pool) == *old(pool),
        r is Ok && old(pool).total_shares > 0 ==> ({
            &&& r->Ok_0.0 == LiquidityPool::withdrawal_amount(
                shares,
                old(pool).reserve_one,
                old(pool).total_shares,
            )
            &&& r->Ok_0.1 == LiquidityPool::withdrawal_amount(
                shares,
                old(pool).reserve_two,
                old(pool).total_shares,
            )
            &&& final(pool).total_shares == old(pool).total_shares - shares
            &&& final(pool).reserve_one == old(pool).reserve_one - r->Ok_0.0
            &&& final(pool).reserve_two == old(pool).reserve_two - r->Ok_0.1
        }),
        r is Ok ==> r->Ok_0.0 <= old(pool).reserve_one && r->Ok_0.1 <= old(pool).reserve_two,
        final(pool).token_one == old(pool).token_one,
        final(pool).token_two == old(pool).token_two,
        final(pool).bump == old(pool).bump,
        old(pool).wf() ==> final(pool).wf(),
{
    if token_one == token_two {
        return Err(DexProgramError::DuplicateTokenNotAllowed);
    }
    pool.remove_liquidity(shares)
}

/// Exchanges `amount_in` of one asset for the other at the
/// constant-product price, charging `fee_bps` basis points on the input.
pub fn swap(pool: &mut LiquidityPool, amount_in: u64, input_is_one: bool, fee_bps: u16) -> (r:
    Result<u64, DexProgramError>)
    requires
        fee_bps <= 10000,
    ensures
        r is Err ==> *final(pool) == *old(pool),
        r is Err ==> (r->Err_0 == DexProgramError::InsufficientFunds <==> old(pool).reserve_in(
            input_is_one,
        ) == 0 || old(pool).reserve_out(input_is_one) == 0 || LiquidityPool::swap_output(
            old(pool).reserve_in(input_is_one),
            old(pool).reserve_out(input_is_one),
            amount_in,
            fee_bps,
        ) == 0),
        r is Err ==> (r->Err_0 == DexProgramError::OverflowOrUnderflowOccurred <==> old(
            pool,
        ).reserve_in(input_is_one) > 0 && old(pool).reserve_out(input_is_one) > 0
            && LiquidityPool::swap_output(
            old(pool).reserve_in(input_is_one),
            old(pool).reserve_out(input_is_one),
            amount_in,
            fee_bps,
        ) > 0 && old(pool).reserve_in(input_is_one) + amount_in > u64::MAX),
        r is Ok <==> old(pool).reserve_in(input_is_one) > 0 && old(pool).reserve_out(input_is_one)
            > 0 && LiquidityPool::swap_output(
            old(pool).reserve_in(input_is_one),
            old(pool).reserve_out(input_is_one),
            amount_in,
            fee_bps,
        ) > 0 && old(pool).reserve_in(input_is_one) + amount_in <= u64::MAX,
        r is Ok ==> r->Ok_0 == LiquidityPool::swap_output(
            old(pool).reserve_in(input_is_one),
            old(pool).reserve_out(input_is_one),
            amount_in,
            fee_bps,
        ),
        r is Ok ==> final(pool).reserve_in(input_is_one) == old(pool).reserve_in(input_is_one)
            + amount_in && final(pool).reserve_out(input_is_one) == old(pool).reserve_out(
            input_is_one,
        ) - r->Ok_0,
        r is Ok ==> final(pool).reserve_one * final(pool).reserve_two >= old(pool).reserve_one
            * old(pool).reserve_two,
        final(pool).total_shares == old(pool).total_shares,
        final(pool).token_one == old(pool).token_one,
        final(pool).token_two == old(pool).token_two,
        final(pool).bump == old(pool).bump,
        old(pool).wf() ==> final(pool).wf(),
{
    pool.swap(amount_in, input_is_one, fee_bps)
}

} // verus!
