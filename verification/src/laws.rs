//! What holds of every simulation, whatever the pool and the ticks.

use crate::error::SwapError;
use crate::h160::H160;
use crate::pool::{initial_state, simulated_output, UniswapV3Pool};
use crate::swap::{
    advance_spec, cross, finished, net_in_direction, pinned_block, run_spec, simulate_spec,
    step_spec, steps_taken, SimState, TickBatch, TickData,
};
use crate::tick_bitmap::{compressed_tick, lemma_floor_division};
use vstd::prelude::*;

verus! {

/// A swap of nothing yields nothing, whatever the tick source answers.
pub proof fn lemma_zero_input_yields_zero(
    pool: UniswapV3Pool,
    token_in: H160,
    num_ticks: u16,
    batches: Seq<TickBatch>,
)
    ensures
        simulated_output(pool, token_in, 0, num_ticks, batches) == Ok::<nat, SwapError>(0),
{
}

/// A swap of nothing is finished as it begins: it never asks for ticks.
pub proof fn lemma_zero_input_asks_for_no_ticks(
    pool: UniswapV3Pool,
    token_in: H160,
    num_ticks: u16,
)
    ensures
        finished(initial_state(pool, token_in, 0, num_ticks)),
{
}

/// A compressed tick brackets its tick from below, and lies strictly below
/// it wherever the tick is no multiple of the spacing: negative ticks round
/// away from zero.
pub proof fn lemma_compression_rounds_down(tick: int, spacing: int)
    requires
        spacing > 0,
    ensures
        compressed_tick(tick, spacing) * spacing <= tick < compressed_tick(tick, spacing) * spacing
            + spacing,
        tick % spacing != 0 ==> compressed_tick(tick, spacing) * spacing < tick,
{
    lemma_floor_division(tick, spacing);
    vstd::arithmetic::div_mod::lemma_fundamental_div_mod(tick, spacing);
    assert(spacing * (tick / spacing) == (tick / spacing) * spacing) by (nonlinear_arith);
}

/// Stepping through a batch takes no more steps than the batch has ticks.
pub proof fn lemma_steps_bounded_by_ticks(sim: SimState, ticks: Seq<TickData>)
    ensures
        steps_taken(sim, ticks) <= ticks.len(),
    decreases ticks.len(),
{
    if !finished(sim) && ticks.len() > 0 {
        match step_spec(sim, ticks[0]) {
            Err(_) => {},
            Ok(next) => {
                lemma_steps_bounded_by_ticks(next, ticks.skip(1));
            },
        }
    }
}

/// Crossing an initialized tick adds its liquidity change, taken in the
/// direction of the trade, exactly: the result is never negative and never
/// past 128 bits, and a change that would take it below zero is an error.
pub proof fn lemma_crossing_keeps_liquidity_in_range(
    liquidity: nat,
    liquidity_net: int,
    initialized: bool,
    tick_liquidity_net: int,
    zero_for_one: bool,
)
    requires
        liquidity <= u128::MAX,
    ensures
        cross(liquidity, liquidity_net, initialized, tick_liquidity_net, zero_for_one) matches Ok(
            after,
        ) ==> after.0 <= u128::MAX && after.0 == liquidity + (if initialized {
            net_in_direction(tick_liquidity_net, zero_for_one)
        } else {
            0
        }),
        initialized && liquidity + net_in_direction(tick_liquidity_net, zero_for_one) < 0 ==> cross(
            liquidity,
            liquidity_net,
            initialized,
            tick_liquidity_net,
            zero_for_one,
        ) is Err,
{
}

/// What a step never changes: the direction, the fee, the batch size and the
/// block; and it keeps the liquidity inside 128 bits.
pub proof fn lemma_step_keeps_frame(sim: SimState, tick: TickData)
    requires
        sim.state.liquidity <= u128::MAX,
    ensures
        step_spec(sim, tick) matches Ok(next) ==> {
            &&& next.zero_for_one == sim.zero_for_one
            &&& next.fee == sim.fee
            &&& next.num_ticks == sim.num_ticks
            &&& next.block_number == sim.block_number
            &&& next.state.liquidity <= u128::MAX
        },
{
}

/// Throughout a batch the working liquidity stays inside 128 bits, and the
/// direction, the fee, the batch size and the block stay what they were.
pub proof fn lemma_run_keeps_frame(sim: SimState, ticks: Seq<TickData>)
    requires
        sim.state.liquidity <= u128::MAX,
    ensures
        run_spec(sim, ticks) matches Ok(done) ==> {
            &&& done.zero_for_one == sim.zero_for_one
            &&& done.fee == sim.fee
            &&& done.num_ticks == sim.num_ticks
            &&& done.block_number == sim.block_number
            &&& done.state.liquidity <= u128::MAX
        },
    decreases ticks.len(),
{
    if !finished(sim) && ticks.len() > 0 {
        lemma_step_keeps_frame(sim, ticks[0]);
        match step_spec(sim, ticks[0]) {
            Err(_) => {},
            Ok(next) => {
                lemma_run_keeps_frame(next, ticks.skip(1));
            },
        }
    }
}

/// Once a batch has arrived, every later request names the block of the
/// first batch.
pub proof fn lemma_block_is_pinned(sim: SimState, ticks: Seq<TickData>, block_number: u64)
    requires
        sim.state.liquidity <= u128::MAX,
        !finished(sim),
    ensures
        advance_spec(sim, ticks, block_number) matches Ok(next) ==> next.block_number
            == pinned_block(sim, block_number) && next.block_number is Some,
{
    lemma_run_keeps_frame(
        SimState { block_number: pinned_block(sim, block_number), ..sim },
        ticks,
    );
}

/// Stepping through two runs of ticks one after the other is stepping
/// through both at once: where a batch ends does not change the swap.
pub proof fn lemma_run_splits(sim: SimState, first: Seq<TickData>, rest: Seq<TickData>)
    ensures
        run_spec(sim, first + rest) == match run_spec(sim, first) {
            Err(e) => Err(e),
            Ok(mid) => run_spec(mid, rest),
        },
    decreases first.len(),
{
    if first.len() == 0 {
        assert(first + rest =~= rest);
    } else if !finished(sim) {
        assert((first + rest)[0] == first[0]);
        assert((first + rest).skip(1) =~= first.skip(1) + rest);
        match step_spec(sim, first[0]) {
            Err(_) => {},
            Ok(next) => {
                lemma_run_splits(next, first.skip(1), rest);
            },
        }
    }
}

/// Two batches that arrive one after the other leave the swap where a single
/// batch holding the ticks of both would: the size of the batches asked for
/// does not change the result.
pub proof fn lemma_batch_size_is_immaterial(
    sim: SimState,
    first: Seq<TickData>,
    rest: Seq<TickData>,
    block_number: u64,
    later_block_number: u64,
)
    requires
        sim.state.liquidity <= u128::MAX,
        first.len() > 0,
        rest.len() > 0,
    ensures
        advance_spec(sim, first + rest, block_number) == match advance_spec(
            sim,
            first,
            block_number,
        ) {
            Err(e) => Err(e),
            Ok(mid) => advance_spec(mid, rest, later_block_number),
        },
{
    if !finished(sim) {
        let pinned = SimState { block_number: pinned_block(sim, block_number), ..sim };
        lemma_run_splits(pinned, first, rest);
        lemma_run_keeps_frame(pinned, first);
        match run_spec(pinned, first) {
            Err(_) => {},
            Ok(mid) => {
                assert(pinned_block(mid, later_block_number) == mid.block_number);
                assert(SimState { block_number: mid.block_number, ..mid } == mid);
            },
        }
    }
}

/// An unfinished swap fails for want of liquidity when the tick source has
/// nothing to give: no batch at all, or an empty first batch.
pub proof fn lemma_no_ticks_no_swap(
    pool: UniswapV3Pool,
    token_in: H160,
    amount_in: nat,
    num_ticks: u16,
    batches: Seq<TickBatch>,
)
    requires
        !finished(initial_state(pool, token_in, amount_in, num_ticks)),
        batches.len() == 0 || batches[0].ticks@.len() == 0,
    ensures
        simulated_output(pool, token_in, amount_in, num_ticks, batches) == Err::<nat, SwapError>(
            SwapError::NoInitializedTicks,
        ),
{
}

/// Batches that come after the swap has finished do not change its result.
pub proof fn lemma_finished_ignores_batches(sim: SimState, batches: Seq<TickBatch>)
    requires
        finished(sim),
    ensures
        simulate_spec(sim, batches) == Ok::<SimState, SwapError>(sim),
{
}

} // verus!
