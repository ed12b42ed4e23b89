//! The ways in which a simulation can fail.

use vstd::prelude::*;

verus! {

/// Why a price conversion or a swap simulation gave no result.
#[derive(Clone, Copy, Debug, PartialEq, Eq, Hash, Structural)]
pub enum SwapError {
    /// A tick outside the range in which prices are defined.
    OutOfBoundsTick,
    /// A square-root price outside the range in which ticks are defined.
    OutOfBoundsPrice,
    /// The tick source had no further tick in the direction of the trade.
    NoInitializedTicks,
    /// The pool snapshot is incomplete or inconsistent.
    PoolDataError,
    /// The fixed-point arithmetic of a single step failed.
    SwapMath,
    /// Crossing a tick would take the active liquidity below zero.
    LiquidityUnderflow,
    /// Crossing a tick would take the active liquidity above 128 bits.
    LiquidityOverflow,
    /// A signed 256-bit amount left its range.
    AmountOverflow,
    /// An event log is too short or holds a value that does not fit its field.
    InvalidEventLog,
}

} // verus!
