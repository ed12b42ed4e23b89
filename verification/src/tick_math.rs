//! Conversions between tick indices and Q64.96 square-root prices.
//!
//! The conversions themselves are the work of `uniswap_v3_math`; this module
//! gives them a checked interface over the crate's own integer types.

use crate::error::SwapError;
use crate::u256::U256;
use uniswap_v3_math::error::UniswapV3MathError;
use vstd::prelude::*;

verus! {

/// The error type of `uniswap_v3_math`, carried through without inspection.
#[verifier::external_type_specification]
#[verifier::external_body]
pub struct ExUniswapV3MathError(uniswap_v3_math::error::UniswapV3MathError);

/// The least tick at which a price is defined.
pub const MIN_TICK: i32 = -887272;

/// The greatest tick at which a price is defined.
pub const MAX_TICK: i32 = 887272;

/// The square-root price at `MIN_TICK`.
pub open spec fn min_sqrt_ratio_value() -> nat {
    4295128739
}

/// The square-root price at `MAX_TICK`.
pub open spec fn max_sqrt_ratio_value() -> nat {
    1461446703485210103287273052203988822378723970342nat
}

/// Whether `tick` lies in `[MIN_TICK, MAX_TICK]`.
pub open spec fn tick_in_bounds(tick: int) -> bool {
    MIN_TICK <= tick <= MAX_TICK
}

/// Whether `price` lies in `[MIN_SQRT_RATIO, MAX_SQRT_RATIO)`.
pub open spec fn price_in_bounds(price: nat) -> bool {
    min_sqrt_ratio_value() <= price < max_sqrt_ratio_value()
}

/// The square-root price that `uniswap_v3_math` computes for a tick in bounds.
pub uninterp spec fn sqrt_ratio_at_tick(tick: int) -> nat;

/// The tick that `uniswap_v3_math` computes for a square-root price, or `None`
/// where it reports an error.
pub uninterp spec fn tick_at_sqrt_ratio(price: nat) -> Option<int>;

/// The least square-root price of any pool.
pub fn min_sqrt_ratio() -> (r: U256)
    ensures
        r@ == min_sqrt_ratio_value(),
{
    U256([4295128739, 0, 0, 0])
}

/// The bound that no pool's square-root price reaches.
pub fn max_sqrt_ratio() -> (r: U256)
    ensures
        r@ == max_sqrt_ratio_value(),
{
    U256([6743328256752651558, 17280870778742802505, 4294805859, 0])
}

/// Calls `uniswap_v3_math::tick_math::get_sqrt_ratio_at_tick`.
///
/// Trusted: the call fails exactly when the tick is out of bounds, and
/// otherwise returns the price named `sqrt_ratio_at_tick`. The least `i32` is
/// left out because the outside function negates its argument.
#[verifier::external_body]
fn math_sqrt_ratio_at_tick(tick: i32) -> (r: Result<U256, UniswapV3MathError>)
    requires
        tick > i32::MIN,
    ensures
        tick_in_bounds(tick as int) <==> r is Ok,
        r is Ok ==> r->Ok_0@ == sqrt_ratio_at_tick(tick as int),
{
    match uniswap_v3_math::tick_math::get_sqrt_ratio_at_tick(tick) {
        Ok(v) => Ok(U256(v.0)),
        Err(e) => Err(e),
    }
}

/// Calls `uniswap_v3_math::tick_math::get_tick_at_sqrt_ratio`.
///
/// Trusted: the call fails on every price out of bounds, and its outcome is
/// the one named `tick_at_sqrt_ratio`.
#[verifier::external_body]
fn math_tick_at_sqrt_ratio(price: U256) -> (r: Result<i32, UniswapV3MathError>)
    ensures
        !price_in_bounds(price@) ==> r is Err,
        r is Ok ==> tick_at_sqrt_ratio(price@) == Some(r->Ok_0 as int),
        r is Err ==> tick_at_sqrt_ratio(price@) is None,
{
    uniswap_v3_math::tick_math::get_tick_at_sqrt_ratio(ethers::types::U256(price.0))
}

/// The square-root price at `tick`, as a Q64.96 number.
pub fn get_sqrt_ratio_at_tick(tick: i32) -> (r: Result<U256, SwapError>)
    ensures
        tick_in_bounds(tick as int) ==> (r matches Ok(v) && v@ == sqrt_ratio_at_tick(tick as int)),
        !tick_in_bounds(tick as int) ==> r == Err::<U256, SwapError>(SwapError::OutOfBoundsTick),
{
    if tick == i32::MIN {
        return Err(SwapError::OutOfBoundsTick);
    }
    match math_sqrt_ratio_at_tick(tick) {
        Ok(v) => Ok(v),
        Err(_) => Err(SwapError::OutOfBoundsTick),
    }
}

/// What `get_tick_at_sqrt_ratio` returns for a price.
pub open spec fn tick_at_sqrt_ratio_result(price: nat) -> Result<i32, SwapError> {
    match tick_at_sqrt_ratio(price) {
        Some(t) if i32::MIN <= t <= i32::MAX => Ok(t as i32),
        _ => Err(SwapError::OutOfBoundsPrice),
    }
}

/// The tick whose price range holds `price`.
pub fn get_tick_at_sqrt_ratio(price: U256) -> (r: Result<i32, SwapError>)
    ensures
        r == tick_at_sqrt_ratio_result(price@),
        !price_in_bounds(price@) ==> r == Err::<i32, SwapError>(SwapError::OutOfBoundsPrice),
{
    match math_tick_at_sqrt_ratio(price) {
        Ok(t) => Ok(t),
        Err(_) => Err(SwapError::OutOfBoundsPrice),
    }
}

} // verus!
