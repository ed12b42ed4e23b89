//! The step-wise swap simulation.
//!
//! A simulation walks a trade across the initialized ticks of a pool. The
//! ticks arrive in batches from outside; between two batches the simulation is
//! an ordinary value that says which ticks it needs next.

use crate::error::SwapError;
use crate::i256::{fits_signed, pow255, to_signed, wrap_signed, I256};
use crate::swap_math::{compute_swap_step, swap_step_result};
use crate::tick_math::{
    get_sqrt_ratio_at_tick, get_tick_at_sqrt_ratio, max_sqrt_ratio, max_sqrt_ratio_value,
    min_sqrt_ratio, min_sqrt_ratio_value, sqrt_ratio_at_tick, tick_at_sqrt_ratio_result, MAX_TICK,
    MIN_TICK,
};
use crate::u256::{lemma_value_bounds, pow256, U256};
use vstd::prelude::*;

verus! {

/// One entry of a tick batch: a tick in the direction of the trade, whether
/// it is initialized, and the liquidity that becomes active when the price
/// crosses it upward.
#[derive(Clone, Copy, Debug, PartialEq, Eq, Hash, Structural)]
pub struct TickData {
    pub initialized: bool,
    pub tick: i32,
    pub liquidity_net: i128,
}

/// What a pool records at one tick.
#[derive(Clone, Copy, Debug, PartialEq, Eq)]
pub struct Tick {
    /// The liquidity that uses the tick as a bound.
    pub liquidity_gross: u128,
    /// The liquidity that becomes active when the price crosses the tick upward.
    pub liquidity_net: i128,
    pub fee_growth_outside_0_x_128: U256,
    pub fee_growth_outside_1_x_128: U256,
    pub tick_cumulative_outside: U256,
    pub seconds_per_liquidity_outside_x_128: U256,
    pub seconds_outside: u32,
    /// Whether any liquidity uses the tick as a bound.
    pub initialized: bool,
}

impl Tick {
    /// The entry that stands for this record at `tick` in a batch.
    pub fn data(&self, tick: i32) -> (r: TickData)
        ensures
            r == (TickData {
                initialized: self.initialized,
                tick,
                liquidity_net: self.liquidity_net,
            }),
    {
        TickData { initialized: self.initialized, tick, liquidity_net: self.liquidity_net }
    }
}

/// Ticks in the order in which the trade meets them, and the block at which
/// they were read.
#[derive(Clone, Debug)]
pub struct TickBatch {
    pub ticks: Vec<TickData>,
    pub block_number: u64,
}

/// The ticks a simulation asks for next.
#[derive(Clone, Copy, Debug, PartialEq, Eq, Hash, Structural)]
pub struct TickRequest {
    /// The tick from which to search.
    pub tick: i32,
    /// Whether to search toward lower ticks.
    pub zero_for_one: bool,
    /// How many ticks to return at most.
    pub num_ticks: u16,
    /// The block to read at; `None` asks for the latest.
    pub block_number: Option<u64>,
}

/// The working state of a swap between two steps.
#[derive(Clone, Copy, Debug, PartialEq, Eq)]
pub struct CurrentState {
    /// The input not yet swapped.
    pub amount_specified_remaining: I256,
    /// The output so far, counted negative.
    pub amount_calculated: I256,
    /// The working square-root price.
    pub sqrt_price_x_96: U256,
    /// The working tick.
    pub tick: i32,
    /// The liquidity in range at the working price.
    pub liquidity: u128,
}

/// The numbers of one step.
#[derive(Clone, Copy, Debug, PartialEq, Eq)]
pub struct StepComputations {
    /// The price at which the step began.
    pub sqrt_price_start_x_96: U256,
    /// The next tick in the direction of the trade, held inside the tick bounds.
    pub tick_next: i32,
    /// Whether that tick is initialized.
    pub initialized: bool,
    /// The price at that tick.
    pub sqrt_price_next_x96: U256,
    /// The input taken by the step, fee excluded.
    pub amount_in: U256,
    /// The output paid by the step.
    pub amount_out: U256,
    /// The fee kept from the input.
    pub fee_amount: U256,
}

/// A swap in progress.
#[derive(Clone, Copy, Debug, PartialEq, Eq)]
pub struct SwapSimulation {
    /// Whether token A is sold for token B, which moves the price down.
    pub zero_for_one: bool,
    /// The pool's fee in hundredths of a basis point.
    pub fee: u32,
    /// The size of the tick batches to ask for.
    pub num_ticks: u16,
    /// The block of the first batch, at which every later batch is read.
    pub block_number: Option<u64>,
    /// The working state.
    pub state: CurrentState,
    /// The liquidity change of the last initialized tick that was crossed,
    /// in the direction of the trade.
    pub liquidity_net: i128,
}

/// Where a step left the price.
#[derive(Clone, Copy, Debug, PartialEq, Eq, Hash, Structural)]
pub enum Landing {
    /// Exactly at the price of the next tick.
    OnNextTick,
    /// Away from where it began, short of the next tick.
    BetweenTicks,
    /// Where it began.
    Unmoved,
}

/// The working state as numbers.
pub struct SwapState {
    pub remaining: int,
    pub calculated: int,
    pub sqrt_price: nat,
    pub tick: int,
    pub liquidity: nat,
}

/// A swap in progress as numbers.
pub struct SimState {
    pub zero_for_one: bool,
    pub fee: nat,
    pub num_ticks: u16,
    pub block_number: Option<u64>,
    pub state: SwapState,
    pub liquidity_net: int,
}

impl CurrentState {
    /// The working state as numbers.
    pub open spec fn view(&self) -> SwapState {
        SwapState {
            remaining: self.amount_specified_remaining@,
            calculated: self.amount_calculated@,
            sqrt_price: self.sqrt_price_x_96@,
            tick: self.tick as int,
            liquidity: self.liquidity as nat,
        }
    }
}

impl SwapSimulation {
    /// The swap in progress as numbers.
    pub open spec fn view(&self) -> SimState {
        SimState {
            zero_for_one: self.zero_for_one,
            fee: self.fee as nat,
            num_ticks: self.num_ticks,
            block_number: self.block_number,
            state: self.state@,
            liquidity_net: self.liquidity_net as int,
        }
    }
}

/// A returned simulation as numbers.
pub open spec fn sim_result_view(r: Result<SwapSimulation, SwapError>) -> Result<
    SimState,
    SwapError,
> {
    match r {
        Ok(sim) => Ok(sim@),
        Err(e) => Err(e),
    }
}

/// The price at which a trade in the given direction stops at the latest:
/// one above the least price when selling token A, one below the bound on
/// prices otherwise.
pub open spec fn price_limit(zero_for_one: bool) -> nat {
    if zero_for_one {
        min_sqrt_ratio_value() + 1
    } else {
        (max_sqrt_ratio_value() - 1) as nat
    }
}

/// `tick` held inside `[MIN_TICK, MAX_TICK]`.
pub open spec fn clamp_tick(tick: int) -> int {
    if tick < MIN_TICK {
        MIN_TICK as int
    } else if tick > MAX_TICK {
        MAX_TICK as int
    } else {
        tick
    }
}

/// The price a step aims for: that of the next tick, or the limit where the
/// limit comes first in the direction of the trade.
pub open spec fn step_target(zero_for_one: bool, sqrt_price_next: nat) -> nat {
    let limit = price_limit(zero_for_one);
    if zero_for_one {
        if sqrt_price_next < limit {
            limit
        } else {
            sqrt_price_next
        }
    } else if sqrt_price_next > limit {
        limit
    } else {
        sqrt_price_next
    }
}

/// Whether nothing is left to do: the input is spent or the price is at its limit.
pub open spec fn finished(sim: SimState) -> bool {
    sim.state.remaining == 0 || sim.state.sqrt_price == price_limit(sim.zero_for_one)
}

/// The numbers of one step as mathematical integers.
pub struct Step {
    pub sqrt_price_start: nat,
    pub tick_next: int,
    pub initialized: bool,
    pub sqrt_price_next: nat,
    pub amount_in: nat,
    pub amount_out: nat,
    pub fee_amount: nat,
}

impl StepComputations {
    /// The numbers of the step as mathematical integers.
    pub open spec fn view(&self) -> Step {
        Step {
            sqrt_price_start: self.sqrt_price_start_x_96@,
            tick_next: self.tick_next as int,
            initialized: self.initialized,
            sqrt_price_next: self.sqrt_price_next_x96@,
            amount_in: self.amount_in@,
            amount_out: self.amount_out@,
            fee_amount: self.fee_amount@,
        }
    }
}

/// The state after the amounts of a step are booked and the price is moved to
/// `sqrt_price_after`: the input and the fee leave the remaining amount, which
/// wraps as 256-bit numbers do; the output leaves the calculated amount, which
/// must stay in range.
pub open spec fn account(s: SwapState, step: Step, sqrt_price_after: nat) -> Result<
    SwapState,
    SwapError,
> {
    let spent = to_signed(((step.amount_in + step.fee_amount) % pow256()) as nat);
    let calculated = s.calculated - to_signed(step.amount_out);
    if !fits_signed(calculated) {
        Err(SwapError::AmountOverflow)
    } else {
        Ok(
            SwapState {
                remaining: wrap_signed(s.remaining - spent),
                calculated,
                sqrt_price: sqrt_price_after,
                tick: s.tick,
                liquidity: s.liquidity,
            },
        )
    }
}

/// The liquidity change of a tick as the trade meets it: as recorded when the
/// price rises, negated when it falls.
pub open spec fn net_in_direction(tick_liquidity_net: int, zero_for_one: bool) -> int {
    if zero_for_one {
        -tick_liquidity_net
    } else {
        tick_liquidity_net
    }
}

/// The liquidity in range, and the liquidity change last applied, after the
/// price has reached a tick. An uninitialized tick changes neither.
pub open spec fn cross(
    liquidity: nat,
    liquidity_net: int,
    initialized: bool,
    tick_liquidity_net: int,
    zero_for_one: bool,
) -> Result<(nat, int), SwapError> {
    let net = net_in_direction(tick_liquidity_net, zero_for_one);
    if !initialized {
        Ok((liquidity, liquidity_net))
    } else if net > i128::MAX {
        Err(SwapError::LiquidityOverflow)
    } else if liquidity + net < 0 {
        Err(SwapError::LiquidityUnderflow)
    } else if liquidity + net > u128::MAX {
        Err(SwapError::LiquidityOverflow)
    } else {
        Ok(((liquidity + net) as nat, net))
    }
}

/// Where a step that began at `sqrt_price_start` and aimed at or short of
/// `sqrt_price_next` left the price.
pub open spec fn landing(sqrt_price_after: nat, sqrt_price_next: nat, sqrt_price_start: nat)
    -> Landing {
    if sqrt_price_after == sqrt_price_next {
        Landing::OnNextTick
    } else if sqrt_price_after != sqrt_price_start {
        Landing::BetweenTicks
    } else {
        Landing::Unmoved
    }
}

/// The working tick once the price has reached `tick_next`: the tick below it
/// when the price falls, the tick itself when it rises.
pub open spec fn tick_after_crossing(tick_next: int, zero_for_one: bool) -> int {
    if zero_for_one {
        if tick_next == i32::MIN {
            i32::MAX as int
        } else {
            tick_next - 1
        }
    } else {
        tick_next
    }
}

/// The simulation after a step with the numbers `step` has moved the price to
/// `sqrt_price_after`; `tick_liquidity_net` is the liquidity change recorded
/// at the step's tick.
pub open spec fn settle_spec(
    sim: SimState,
    step: Step,
    sqrt_price_after: nat,
    tick_liquidity_net: int,
) -> Result<SimState, SwapError> {
    match account(sim.state, step, sqrt_price_after) {
        Err(e) => Err(e),
        Ok(booked) => match landing(sqrt_price_after, step.sqrt_price_next, step.sqrt_price_start) {
            Landing::OnNextTick => match cross(
                booked.liquidity,
                sim.liquidity_net,
                step.initialized,
                tick_liquidity_net,
                sim.zero_for_one,
            ) {
                Err(e) => Err(e),
                Ok(crossed) => Ok(
                    SimState {
                        state: SwapState {
                            liquidity: crossed.0,
                            tick: tick_after_crossing(step.tick_next, sim.zero_for_one),
                            ..booked
                        },
                        liquidity_net: crossed.1,
                        ..sim
                    },
                ),
            },
            Landing::BetweenTicks => match tick_at_sqrt_ratio_result(sqrt_price_after) {
                Err(e) => Err(e),
                Ok(t) => Ok(SimState { state: SwapState { tick: t as int, ..booked }, ..sim }),
            },
            Landing::Unmoved => Ok(SimState { state: booked, ..sim }),
        },
    }
}

/// The simulation after one step toward the tick entry `tick`.
pub open spec fn step_spec(sim: SimState, tick: TickData) -> Result<SimState, SwapError> {
    let tick_next = clamp_tick(tick.tick as int);
    let sqrt_price_next = sqrt_ratio_at_tick(tick_next);
    let target = step_target(sim.zero_for_one, sqrt_price_next);
    match swap_step_result(
        sim.state.sqrt_price,
        target,
        sim.state.liquidity,
        sim.state.remaining,
        sim.fee,
    ) {
        Err(e) => Err(e),
        Ok(out) => settle_spec(
            sim,
            Step {
                sqrt_price_start: sim.state.sqrt_price,
                tick_next,
                initialized: tick.initialized,
                sqrt_price_next,
                amount_in: out.amount_in,
                amount_out: out.amount_out,
                fee_amount: out.fee_amount,
            },
            out.sqrt_price_next,
            tick.liquidity_net as int,
        ),
    }
}

/// The simulation after it has stepped through `ticks` in order, stopping
/// early once it is finished or a step fails.
pub open spec fn run_spec(sim: SimState, ticks: Seq<TickData>) -> Result<SimState, SwapError>
    decreases ticks.len(),
{
    if finished(sim) || ticks.len() == 0 {
        Ok(sim)
    } else {
        match step_spec(sim, ticks[0]) {
            Err(e) => Err(e),
            Ok(next) => run_spec(next, ticks.skip(1)),
        }
    }
}

/// The number of steps that `run_spec` takes.
pub open spec fn steps_taken(sim: SimState, ticks: Seq<TickData>) -> nat
    decreases ticks.len(),
{
    if finished(sim) || ticks.len() == 0 {
        0
    } else {
        match step_spec(sim, ticks[0]) {
            Err(e) => 1,
            Ok(next) => 1 + steps_taken(next, ticks.skip(1)),
        }
    }
}

/// The block a simulation reads at once a batch read at `block_number` has arrived.
pub open spec fn pinned_block(sim: SimState, block_number: u64) -> Option<u64> {
    match sim.block_number {
        Some(b) => Some(b),
        None => Some(block_number),
    }
}

/// The simulation after a batch has arrived. A finished simulation ignores
/// the batch; an unfinished one fails on an empty batch.
pub open spec fn advance_spec(sim: SimState, ticks: Seq<TickData>, block_number: u64) -> Result<
    SimState,
    SwapError,
> {
    if finished(sim) {
        Ok(sim)
    } else if ticks.len() == 0 {
        Err(SwapError::NoInitializedTicks)
    } else {
        run_spec(SimState { block_number: pinned_block(sim, block_number), ..sim }, ticks)
    }
}

/// The output of a simulation: the calculated amount negated, as 256 bits.
pub open spec fn amount_out_spec(sim: SimState) -> Result<nat, SwapError> {
    if sim.state.calculated == -pow255() {
        Err(SwapError::AmountOverflow)
    } else {
        Ok(((-sim.state.calculated) % (pow256() as int)) as nat)
    }
}

/// The simulation after it has been fed `batches` one after the other for as
/// long as it asks for ticks. A simulation that still asks when none is left
/// has run out of liquidity.
pub open spec fn simulate_spec(sim: SimState, batches: Seq<TickBatch>) -> Result<
    SimState,
    SwapError,
>
    decreases batches.len(),
{
    if finished(sim) {
        Ok(sim)
    } else if batches.len() == 0 {
        Err(SwapError::NoInitializedTicks)
    } else {
        match advance_spec(sim, batches[0].ticks@, batches[0].block_number) {
            Err(e) => Err(e),
            Ok(next) => simulate_spec(next, batches.skip(1)),
        }
    }
}

/// The price at which a trade in the given direction stops at the latest.
pub fn sqrt_price_limit(zero_for_one: bool) -> (r: U256)
    ensures
        r@ == price_limit(zero_for_one),
{
    if zero_for_one {
        min_sqrt_ratio().overflowing_add(U256::one()).0
    } else {
        max_sqrt_ratio().overflowing_sub(U256::one()).0
    }
}

/// `tick` held inside the tick bounds.
pub fn clamp(tick: i32) -> (r: i32)
    ensures
        r == clamp_tick(tick as int),
{
    if tick < MIN_TICK {
        MIN_TICK
    } else if tick > MAX_TICK {
        MAX_TICK
    } else {
        tick
    }
}

/// The working tick once the price has reached `tick_next`: the tick below
/// it when the price falls, the tick itself when it rises.
pub fn tick_past(tick_next: i32, zero_for_one: bool) -> (r: i32)
    ensures
        r == tick_after_crossing(tick_next as int, zero_for_one),
{
    if zero_for_one {
        if tick_next == i32::MIN {
            i32::MAX
        } else {
            tick_next - 1
        }
    } else {
        tick_next
    }
}

/// The price a step aims for: `sqrt_price_next`, or the limit where the limit
/// comes first in the direction of the trade.
pub fn swap_target(zero_for_one: bool, sqrt_price_next: U256) -> (r: U256)
    ensures
        r@ == step_target(zero_for_one, sqrt_price_next@),
{
    let limit = sqrt_price_limit(zero_for_one);
    if zero_for_one {
        if sqrt_price_next.lt(&limit) {
            limit
        } else {
            sqrt_price_next
        }
    } else if sqrt_price_next.gt(&limit) {
        limit
    } else {
        sqrt_price_next
    }
}

/// Applies the liquidity change of a tick that the price has reached.
///
/// The liquidity never leaves the 128-bit range: a change that would take it
/// below zero or past the top is an error.
pub fn cross_tick(liquidity: u128, liquidity_net: i128, tick: &TickData, zero_for_one: bool) -> (r:
    Result<(u128, i128), SwapError>)
    ensures
        match cross(
            liquidity as nat,
            liquidity_net as int,
            tick.initialized,
            tick.liquidity_net as int,
            zero_for_one,
        ) {
            Ok(c) => r matches Ok(x) && x.0 == c.0 && x.1 == c.1,
            Err(e) => r == Err::<(u128, i128), SwapError>(e),
        },
{
    if !tick.initialized {
        return Ok((liquidity, liquidity_net));
    }
    if zero_for_one && tick.liquidity_net == i128::MIN {
        return Err(SwapError::LiquidityOverflow);
    }
    let net: i128 = if zero_for_one {
        -tick.liquidity_net
    } else {
        tick.liquidity_net
    };
    if net < 0 {
        let drop: u128 = if net == i128::MIN {
            0x8000_0000_0000_0000_0000_0000_0000_0000
        } else {
            (-net) as u128
        };
        if drop > liquidity {
            Err(SwapError::LiquidityUnderflow)
        } else {
            Ok((liquidity - drop, net))
        }
    } else {
        let rise: u128 = net as u128;
        if rise > u128::MAX - liquidity {
            Err(SwapError::LiquidityOverflow)
        } else {
            Ok((liquidity + rise, net))
        }
    }
}

/// A returned working state as numbers.
pub open spec fn state_result_view(r: Result<CurrentState, SwapError>) -> Result<
    SwapState,
    SwapError,
> {
    match r {
        Ok(s) => Ok(s@),
        Err(e) => Err(e),
    }
}

impl CurrentState {
    /// Books the amounts of a step and moves the price to `sqrt_price_after`.
    pub fn book(self, step: &StepComputations, sqrt_price_after: U256) -> (r: Result<
        CurrentState,
        SwapError,
    >)
        ensures
            state_result_view(r) == account(self@, step@, sqrt_price_after@),
    {
        let spent = I256::from_raw(step.amount_in.overflowing_add(step.fee_amount).0);
        let remaining = self.amount_specified_remaining.wrapping_sub(spent);
        match self.amount_calculated.checked_sub(I256::from_raw(step.amount_out)) {
            None => Err(SwapError::AmountOverflow),
            Some(calculated) => Ok(
                CurrentState {
                    amount_specified_remaining: remaining,
                    amount_calculated: calculated,
                    sqrt_price_x_96: sqrt_price_after,
                    tick: self.tick,
                    liquidity: self.liquidity,
                },
            ),
        }
    }
}

impl StepComputations {
    /// Where the step left the price.
    pub fn landing(&self, sqrt_price_after: &U256) -> (r: Landing)
        ensures
            r == landing(sqrt_price_after@, self.sqrt_price_next_x96@, self.sqrt_price_start_x_96@),
    {
        proof {
            if sqrt_price_after@ == self.sqrt_price_next_x96@ {
                crate::u256::lemma_value_injective(*sqrt_price_after, self.sqrt_price_next_x96);
            }
            if sqrt_price_after@ == self.sqrt_price_start_x_96@ {
                crate::u256::lemma_value_injective(*sqrt_price_after, self.sqrt_price_start_x_96);
            }
        }
        if *sqrt_price_after == self.sqrt_price_next_x96 {
            Landing::OnNextTick
        } else if *sqrt_price_after != self.sqrt_price_start_x_96 {
            Landing::BetweenTicks
        } else {
            Landing::Unmoved
        }
    }
}

impl SwapSimulation {
    /// Whether nothing is left to do.
    pub fn is_finished(&self) -> (r: bool)
        ensures
            r == finished(self@),
    {
        let limit = sqrt_price_limit(self.zero_for_one);
        proof {
            if self.state.sqrt_price_x_96@ == limit@ {
                crate::u256::lemma_value_injective(self.state.sqrt_price_x_96, limit);
            }
        }
        self.state.amount_specified_remaining.is_zero() || self.state.sqrt_price_x_96 == limit
    }

    /// The ticks to fetch next, or `None` once the simulation is finished.
    pub fn request(&self) -> (r: Option<TickRequest>)
        ensures
            finished(self@) <==> r is None,
            r matches Some(q) ==> q == (TickRequest {
                tick: self.state.tick,
                zero_for_one: self.zero_for_one,
                num_ticks: self.num_ticks,
                block_number: self.block_number,
            }),
    {
        if self.is_finished() {
            None
        } else {
            Some(
                TickRequest {
                    tick: self.state.tick,
                    zero_for_one: self.zero_for_one,
                    num_ticks: self.num_ticks,
                    block_number: self.block_number,
                },
            )
        }
    }

    /// The output so far.
    pub fn amount_out(&self) -> (r: Result<U256, SwapError>)
        ensures
            match amount_out_spec(self@) {
                Ok(v) => r matches Ok(x) && x@ == v,
                Err(e) => r == Err::<U256, SwapError>(e),
            },
    {
        match self.state.amount_calculated.checked_neg() {
            None => Err(SwapError::AmountOverflow),
            Some(n) => {
                proof {
                    lemma_raw_of_signed(n);
                }
                Ok(n.into_raw())
            },
        }
    }

    /// Completes a step whose numbers are `step` and which moved the price to
    /// `sqrt_price_after`: books the amounts, then either crosses the tick,
    /// looks the working tick up from the new price, or leaves both alone.
    pub fn settle(self, step: &StepComputations, sqrt_price_after: U256, tick_liquidity_net: i128)
        -> (r: Result<SwapSimulation, SwapError>)
        ensures
            sim_result_view(r) == settle_spec(
                self@,
                step@,
                sqrt_price_after@,
                tick_liquidity_net as int,
            ),
    {
        let booked = match self.state.book(step, sqrt_price_after) {
            Ok(s) => s,
            Err(e) => {
                return Err(e);
            },
        };
        match step.landing(&sqrt_price_after) {
            Landing::OnNextTick => {
                let entry = TickData {
                    initialized: step.initialized,
                    tick: step.tick_next,
                    liquidity_net: tick_liquidity_net,
                };
                let (liquidity, liquidity_net) = match cross_tick(
                    booked.liquidity,
                    self.liquidity_net,
                    &entry,
                    self.zero_for_one,
                ) {
                    Ok(c) => c,
                    Err(e) => {
                        return Err(e);
                    },
                };
                let tick = tick_past(step.tick_next, self.zero_for_one);
                Ok(
                    SwapSimulation {
                        state: CurrentState { liquidity, tick, ..booked },
                        liquidity_net,
                        ..self
                    },
                )
            },
            Landing::BetweenTicks => match get_tick_at_sqrt_ratio(sqrt_price_after) {
                Ok(tick) => Ok(SwapSimulation { state: CurrentState { tick, ..booked }, ..self }),
                Err(e) => Err(e),
            },
            Landing::Unmoved => Ok(SwapSimulation { state: booked, ..self }),
        }
    }

    /// Takes one step toward the tick entry `tick`.
    pub fn step(self, tick: TickData) -> (r: Result<SwapSimulation, SwapError>)
        ensures
            sim_result_view(r) == step_spec(self@, tick),
    {
        let tick_next = clamp(tick.tick);
        let sqrt_price_next = match get_sqrt_ratio_at_tick(tick_next) {
            Ok(p) => p,
            Err(e) => {
                return Err(e);
            },
        };
        let target = swap_target(self.zero_for_one, sqrt_price_next);
        let (sqrt_price_after, amount_in, amount_out, fee_amount) = match compute_swap_step(
            self.state.sqrt_price_x_96,
            target,
            self.state.liquidity,
            self.state.amount_specified_remaining,
            self.fee,
        ) {
            Ok(out) => out,
            Err(e) => {
                return Err(e);
            },
        };
        let step = StepComputations {
            sqrt_price_start_x_96: self.state.sqrt_price_x_96,
            tick_next,
            initialized: tick.initialized,
            sqrt_price_next_x96: sqrt_price_next,
            amount_in,
            amount_out,
            fee_amount,
        };
        self.settle(&step, sqrt_price_after, tick.liquidity_net)
    }

    /// Takes in a batch of ticks and steps through it until the simulation is
    /// finished or the batch is used up.
    ///
    /// The block of the first batch is kept for every later request. An
    /// unfinished simulation that is handed an empty batch has run out of
    /// liquidity and fails.
    pub fn advance(self, batch: &TickBatch) -> (r: Result<SwapSimulation, SwapError>)
        ensures
            sim_result_view(r) == advance_spec(self@, batch.ticks@, batch.block_number),
    {
        if self.is_finished() {
            return Ok(self);
        }
        if batch.ticks.len() == 0 {
            return Err(SwapError::NoInitializedTicks);
        }
        let block_number = match self.block_number {
            Some(b) => Some(b),
            None => Some(batch.block_number),
        };
        let mut sim = SwapSimulation { block_number, ..self };
        let ghost start = sim@;
        let mut i: usize = 0;
        assert(batch.ticks@.skip(0) =~= batch.ticks@);
        while i < batch.ticks.len() && !sim.is_finished()
            invariant
                i <= batch.ticks.len(),
                advance_spec(self@, batch.ticks@, batch.block_number) == run_spec(
                    start,
                    batch.ticks@,
                ),
                run_spec(start, batch.ticks@) == run_spec(sim@, batch.ticks@.skip(i as int)),
            decreases batch.ticks.len() - i,
        {
            let entry = batch.ticks[i];
            proof {
                assert(batch.ticks@.skip(i as int)[0] == entry);
                assert(batch.ticks@.skip(i as int).skip(1) =~= batch.ticks@.skip(i + 1));
                assert(run_spec(sim@, batch.ticks@.skip(i as int)) == match step_spec(sim@, entry) {
                    Err(e) => Err(e),
                    Ok(next) => run_spec(next, batch.ticks@.skip(i + 1)),
                });
            }
            match sim.step(entry) {
                Ok(next) => {
                    sim = next;
                },
                Err(e) => {
                    return Err(e);
                },
            }
            i += 1;
        }
        Ok(sim)
    }
}

impl SwapSimulation {
    /// Feeds the simulation `batches` one after the other for as long as it
    /// asks for ticks, and returns it finished.
    pub fn run(self, batches: &Vec<TickBatch>) -> (r: Result<SwapSimulation, SwapError>)
        ensures
            sim_result_view(r) == simulate_spec(self@, batches@),
            r matches Ok(done) ==> finished(done@),
    {
        let mut sim = self;
        let mut i: usize = 0;
        assert(batches@.skip(0) =~= batches@);
        while i < batches.len() && !sim.is_finished()
            invariant
                i <= batches.len(),
                simulate_spec(self@, batches@) == simulate_spec(sim@, batches@.skip(i as int)),
            decreases batches.len() - i,
        {
            proof {
                assert(batches@.skip(i as int)[0] == batches@[i as int]);
                assert(batches@.skip(i as int).skip(1) =~= batches@.skip(i + 1));
                assert(simulate_spec(sim@, batches@.skip(i as int)) == match advance_spec(
                    sim@,
                    batches@[i as int].ticks@,
                    batches@[i as int].block_number,
                ) {
                    Err(e) => Err(e),
                    Ok(next) => simulate_spec(next, batches@.skip(i + 1)),
                });
            }
            match sim.advance(&batches[i]) {
                Ok(next) => {
                    sim = next;
                },
                Err(e) => {
                    return Err(e);
                },
            }
            i += 1;
        }
        if sim.is_finished() {
            Ok(sim)
        } else {
            Err(SwapError::NoInitializedTicks)
        }
    }
}

/// The bits of a signed value are the value modulo 2^256.
proof fn lemma_raw_of_signed(x: I256)
    ensures
        x.0@ == x@ % (pow256() as int),
{
    lemma_value_bounds(x.0);
    if x@ >= 0 {
        vstd::arithmetic::div_mod::lemma_fundamental_div_mod_converse(
            x@,
            pow256() as int,
            0,
            x.0@ as int,
        );
    } else {
        vstd::arithmetic::div_mod::lemma_fundamental_div_mod_converse(
            x@,
            pow256() as int,
            -1,
            x.0@ as int,
        );
    }
}

} // verus!
