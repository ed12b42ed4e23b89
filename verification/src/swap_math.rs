//! One step of a swap inside a single range of constant liquidity.
//!
//! The fixed-point arithmetic of the step is the work of `uniswap_v3_math`;
//! this module gives it a checked interface over the crate's own integer types.

use crate::error::SwapError;
use crate::i256::{pow255, I256};
use crate::u256::U256;
use uniswap_v3_math::error::UniswapV3MathError;
use vstd::prelude::*;

verus! {

/// The fee, in hundredths of a basis point, that takes the whole input.
pub const FEE_DENOMINATOR: u32 = 1_000_000;

/// What one swap step yields.
pub struct StepOutcome {
    /// The square-root price after the step.
    pub sqrt_price_next: nat,
    /// The amount of the input token taken by the pool, fee excluded.
    pub amount_in: nat,
    /// The amount of the output token paid out.
    pub amount_out: nat,
    /// The part of the input kept as fee.
    pub fee_amount: nat,
}

/// The outcome that `uniswap_v3_math` computes for a swap step from the
/// current price toward the target, or `None` where it reports an error.
pub uninterp spec fn swap_step(
    sqrt_price_current: nat,
    sqrt_price_target: nat,
    liquidity: nat,
    amount_remaining: int,
    fee_pips: nat,
) -> Option<(nat, nat, nat, nat)>;

/// Whether the swap step is defined on these inputs at all: the fee is at
/// most the whole amount and the remaining amount can be negated.
pub open spec fn step_inputs_valid(amount_remaining: int, fee_pips: nat) -> bool {
    fee_pips <= FEE_DENOMINATOR && amount_remaining > -pow255()
}

/// What `compute_swap_step` returns on given inputs.
pub open spec fn swap_step_result(
    sqrt_price_current: nat,
    sqrt_price_target: nat,
    liquidity: nat,
    amount_remaining: int,
    fee_pips: nat,
) -> Result<StepOutcome, SwapError> {
    if !step_inputs_valid(amount_remaining, fee_pips) {
        Err(SwapError::SwapMath)
    } else {
        match swap_step(sqrt_price_current, sqrt_price_target, liquidity, amount_remaining, fee_pips) {
            Some(out) => Ok(
                StepOutcome {
                    sqrt_price_next: out.0,
                    amount_in: out.1,
                    amount_out: out.2,
                    fee_amount: out.3,
                },
            ),
            None => Err(SwapError::SwapMath),
        }
    }
}

/// Calls `uniswap_v3_math::swap_math::compute_swap_step`.
///
/// Trusted: the call's outcome is the one named `swap_step`. Fees above one
/// million and the least signed amount are left out, because the outside
/// function subtracts the fee from one million and negates the amount.
#[verifier::external_body]
fn math_compute_swap_step(
    sqrt_price_current: U256,
    sqrt_price_target: U256,
    liquidity: u128,
    amount_remaining: I256,
    fee_pips: u32,
) -> (r: Result<(U256, U256, U256, U256), UniswapV3MathError>)
    requires
        step_inputs_valid(amount_remaining@, fee_pips as nat),
    ensures
        r is Ok ==> swap_step(
            sqrt_price_current@,
            sqrt_price_target@,
            liquidity as nat,
            amount_remaining@,
            fee_pips as nat,
        ) == Some((r->Ok_0.0@, r->Ok_0.1@, r->Ok_0.2@, r->Ok_0.3@)),
        r is Err ==> swap_step(
            sqrt_price_current@,
            sqrt_price_target@,
            liquidity as nat,
            amount_remaining@,
            fee_pips as nat,
        ) is None,
{
    let amount = ethers::types::I256::from_raw(ethers::types::U256(amount_remaining.0.0));
    match uniswap_v3_math::swap_math::compute_swap_step(
        ethers::types::U256(sqrt_price_current.0),
        ethers::types::U256(sqrt_price_target.0),
        liquidity,
        amount,
        fee_pips,
    ) {
        Ok((next, amount_in, amount_out, fee)) => Ok(
            (U256(next.0), U256(amount_in.0), U256(amount_out.0), U256(fee.0)),
        ),
        Err(e) => Err(e),
    }
}

/// Moves the price from `sqrt_price_current` toward `sqrt_price_target` as far
/// as `amount_remaining` and `liquidity` allow, and returns the new price, the
/// amount taken in, the amount paid out and the fee.
///
/// A positive `amount_remaining` is an input still to be spent, a negative one
/// an output still to be received.
pub fn compute_swap_step(
    sqrt_price_current: U256,
    sqrt_price_target: U256,
    liquidity: u128,
    amount_remaining: I256,
    fee_pips: u32,
) -> (r: Result<(U256, U256, U256, U256), SwapError>)
    ensures
        step_result_view(r) == swap_step_result(
            sqrt_price_current@,
            sqrt_price_target@,
            liquidity as nat,
            amount_remaining@,
            fee_pips as nat,
        ),
{
    if fee_pips > FEE_DENOMINATOR {
        return Err(SwapError::SwapMath);
    }
    if amount_remaining.is_min() {
        return Err(SwapError::SwapMath);
    }
    match math_compute_swap_step(
        sqrt_price_current,
        sqrt_price_target,
        liquidity,
        amount_remaining,
        fee_pips,
    ) {
        Ok(out) => Ok(out),
        Err(_) => Err(SwapError::SwapMath),
    }
}

/// The numbers that a returned step stands for.
pub open spec fn step_result_view(r: Result<(U256, U256, U256, U256), SwapError>) -> Result<
    StepOutcome,
    SwapError,
> {
    match r {
        Ok(out) => Ok(
            StepOutcome {
                sqrt_price_next: out.0@,
                amount_in: out.1@,
                amount_out: out.2@,
                fee_amount: out.3@,
            },
        ),
        Err(e) => Err(e),
    }
}

} // verus!
