//! Off-chain simulation of swaps against a concentrated-liquidity pool.
//!
//! The crate keeps an in-memory snapshot of one pool and walks a trade across
//! its initialized ticks, step by step and in exact integer arithmetic, so
//! that a quote agrees with what the pool itself would pay.
//!
//! - [`u256`], [`i256`] and [`h160`] hold the value types.
//! - [`tick_math`] and [`swap_math`] give the fixed-point arithmetic of
//!   `uniswap_v3_math` a checked interface.
//! - [`tick_bitmap`] addresses ticks in the bitmap of initialized ticks;
//!   [`tick_search`] searches the bitmap for the next initialized tick.
//! - [`swap`] is the simulation itself; [`pool`] holds the pool snapshot and
//!   its entry points; [`laws`] states what holds of every simulation.
//! - [`abi`] and [`event_log`] read and write the ledger's words.

pub mod abi;
pub mod error;
pub mod event_log;
pub mod h160;
pub mod i256;
pub mod laws;
pub mod pool;
pub mod swap;
pub mod swap_math;
pub mod tick_bitmap;
pub mod tick_math;
pub mod tick_search;
pub mod u256;
