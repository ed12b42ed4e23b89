use uniswap_v3_pool::error::SwapError;
use uniswap_v3_pool::h160::H160;
use uniswap_v3_pool::i256::I256;
use uniswap_v3_pool::pool::UniswapV3Pool;
use uniswap_v3_pool::swap::{
    clamp, cross_tick, sqrt_price_limit, swap_target, CurrentState, Landing, StepComputations,
    SwapSimulation, TickBatch, TickData, TickRequest,
};
use uniswap_v3_pool::tick_math::{max_sqrt_ratio, min_sqrt_ratio, MAX_TICK, MIN_TICK};
use uniswap_v3_pool::u256::U256;

fn dec(s: &str) -> U256 {
    U256(ethers::types::U256::from_dec_str(s).unwrap().0)
}

fn signed(x: i128) -> I256 {
    I256(U256(ethers::types::I256::from(x).into_raw().0))
}

fn token_a() -> H160 {
    H160([0xaa; 20])
}

fn token_b() -> H160 {
    H160([0xbb; 20])
}

fn q96() -> U256 {
    U256([0, 1 << 32, 0, 0])
}

fn pool() -> UniswapV3Pool {
    UniswapV3Pool::new(H160([1; 20]), token_a(), 6, token_b(), 18, 500, 1_000_000_000, q96(), 0, 10, 0)
}

fn entry(initialized: bool, tick: i32, liquidity_net: i128) -> TickData {
    TickData { initialized, tick, liquidity_net }
}

fn batch(ticks: Vec<TickData>, block_number: u64) -> TickBatch {
    TickBatch { ticks, block_number }
}

fn state(remaining: i128, calculated: i128, price: U256, tick: i32, liquidity: u128) -> CurrentState {
    CurrentState {
        amount_specified_remaining: signed(remaining),
        amount_calculated: signed(calculated),
        sqrt_price_x_96: price,
        tick,
        liquidity,
    }
}

#[test]
fn price_limits_sit_just_inside_the_bounds() {
    assert_eq!(sqrt_price_limit(true), U256::from_u64(4295128740));
    assert_eq!(sqrt_price_limit(true), min_sqrt_ratio().overflowing_add(U256::one()).0);
    assert_eq!(sqrt_price_limit(false), max_sqrt_ratio().overflowing_sub(U256::one()).0);
    assert_eq!(
        sqrt_price_limit(false),
        dec("1461446703485210103287273052203988822378723970341")
    );
}

#[test]
fn clamp_holds_ticks_inside_the_bounds() {
    assert_eq!(clamp(0), 0);
    assert_eq!(clamp(MIN_TICK), MIN_TICK);
    assert_eq!(clamp(MAX_TICK), MAX_TICK);
    assert_eq!(clamp(MIN_TICK - 1), MIN_TICK);
    assert_eq!(clamp(MAX_TICK + 1), MAX_TICK);
    assert_eq!(clamp(i32::MIN), MIN_TICK);
    assert_eq!(clamp(i32::MAX), MAX_TICK);
}

#[test]
fn target_is_the_nearer_of_tick_and_limit() {
    let inside = dec("79267784519130042428790663799");
    assert_eq!(swap_target(true, inside), inside);
    assert_eq!(swap_target(false, inside), inside);
    assert_eq!(swap_target(true, min_sqrt_ratio()), sqrt_price_limit(true));
    assert_eq!(swap_target(false, max_sqrt_ratio()), sqrt_price_limit(false));
    assert_eq!(swap_target(true, sqrt_price_limit(true)), sqrt_price_limit(true));
    assert_eq!(swap_target(false, sqrt_price_limit(false)), sqrt_price_limit(false));
    assert_eq!(swap_target(true, max_sqrt_ratio()), max_sqrt_ratio());
    assert_eq!(swap_target(false, min_sqrt_ratio()), min_sqrt_ratio());
}

#[test]
fn crossing_upward_adds_the_recorded_change() {
    assert_eq!(cross_tick(1_000_000_000, 5, &entry(true, 10, -200_000_000), false), Ok((800_000_000, -200_000_000)));
    assert_eq!(cross_tick(1_000_000_000, 5, &entry(true, 10, 200_000_000), false), Ok((1_200_000_000, 200_000_000)));
    assert_eq!(cross_tick(7, 5, &entry(true, 10, -7), false), Ok((0, -7)));
    assert_eq!(cross_tick(0, 5, &entry(true, 10, 0), false), Ok((0, 0)));
}

#[test]
fn crossing_downward_negates_the_recorded_change() {
    assert_eq!(cross_tick(1_000_000_000, 5, &entry(true, -10, 300_000_000), true), Ok((700_000_000, -300_000_000)));
    assert_eq!(cross_tick(1_000_000_000, 5, &entry(true, -10, -300_000_000), true), Ok((1_300_000_000, 300_000_000)));
}

#[test]
fn crossing_an_uninitialized_tick_changes_nothing() {
    assert_eq!(cross_tick(1_000_000_000, 5, &entry(false, 10, -200_000_000), false), Ok((1_000_000_000, 5)));
    assert_eq!(cross_tick(1_000_000_000, 5, &entry(false, 10, i128::MIN), true), Ok((1_000_000_000, 5)));
    assert_eq!(cross_tick(0, -3, &entry(false, 10, -1), false), Ok((0, -3)));
}

#[test]
fn liquidity_below_zero_is_an_error() {
    assert_eq!(cross_tick(100, 0, &entry(true, 10, -101), false), Err(SwapError::LiquidityUnderflow));
    assert_eq!(cross_tick(100, 0, &entry(true, 10, 101), true), Err(SwapError::LiquidityUnderflow));
    assert_eq!(cross_tick(0, 0, &entry(true, 10, -1), false), Err(SwapError::LiquidityUnderflow));
    assert_eq!(cross_tick(u128::MAX, 0, &entry(true, 10, i128::MIN), false), Ok((u128::MAX - (1 << 127), i128::MIN)));
    assert_eq!(cross_tick((1 << 127) - 1, 0, &entry(true, 10, i128::MIN), false), Err(SwapError::LiquidityUnderflow));
}

#[test]
fn liquidity_past_128_bits_is_an_error() {
    assert_eq!(cross_tick(u128::MAX, 0, &entry(true, 10, 1), false), Err(SwapError::LiquidityOverflow));
    assert_eq!(cross_tick(u128::MAX, 0, &entry(true, 10, -1), true), Err(SwapError::LiquidityOverflow));
    assert_eq!(cross_tick(u128::MAX - 1, 0, &entry(true, 10, 1), false), Ok((u128::MAX, 1)));
    assert_eq!(cross_tick(0, 0, &entry(true, 10, i128::MIN), true), Err(SwapError::LiquidityOverflow));
}

fn step_numbers(start: U256, next: U256, amount_in: u64, amount_out: u64, fee: u64) -> StepComputations {
    StepComputations {
        sqrt_price_start_x_96: start,
        tick_next: 10,
        initialized: true,
        sqrt_price_next_x96: next,
        amount_in: U256::from_u64(amount_in),
        amount_out: U256::from_u64(amount_out),
        fee_amount: U256::from_u64(fee),
    }
}

#[test]
fn landing_tells_the_three_cases_apart() {
    let start = q96();
    let next = dec("79267784519130042428790663799");
    let step = step_numbers(start, next, 0, 0, 0);
    assert_eq!(step.landing(&next), Landing::OnNextTick);
    assert_eq!(step.landing(&dec("79228241663198689343617206286")), Landing::BetweenTicks);
    assert_eq!(step.landing(&start), Landing::Unmoved);
    let still = step_numbers(start, start, 0, 0, 0);
    assert_eq!(still.landing(&start), Landing::OnNextTick);
}

#[test]
fn booking_takes_input_and_fee_and_gives_output() {
    let start = state(1000, -5, q96(), 0, 1_000_000_000);
    let after = dec("79228241663198689343617206286");
    let step = step_numbers(q96(), after, 999, 998, 1);
    assert_eq!(start.book(&step, after), Ok(state(0, -1003, after, 0, 1_000_000_000)));
    let step = step_numbers(q96(), after, 600, 500, 3);
    assert_eq!(start.book(&step, after), Ok(state(397, -505, after, 0, 1_000_000_000)));
}

#[test]
fn booking_wraps_the_remaining_amount() {
    let start = state(10, 0, q96(), 0, 5);
    let step = step_numbers(q96(), q96(), 8, 0, 7);
    assert_eq!(start.book(&step, q96()), Ok(state(-5, 0, q96(), 0, 5)));
    let mut huge = step_numbers(q96(), q96(), 0, 0, 0);
    huge.amount_in = U256::max_value();
    huge.fee_amount = U256::from_u64(3);
    assert_eq!(start.book(&huge, q96()), Ok(state(8, 0, q96(), 0, 5)));
}

#[test]
fn booking_refuses_an_output_out_of_range() {
    let mut start = state(10, 0, q96(), 0, 5);
    start.amount_calculated = I256(U256([0, 0, 0, 1 << 63]));
    let step = step_numbers(q96(), q96(), 1, 1, 0);
    assert_eq!(start.book(&step, q96()), Err(SwapError::AmountOverflow));
    let none = step_numbers(q96(), q96(), 1, 0, 0);
    assert!(start.book(&none, q96()).is_ok());
}

#[test]
fn settle_on_the_tick_crosses_it() {
    let sim = pool().begin_swap(token_b(), U256::from_u64(1_000_000), 150);
    let next = dec("79267784519130042428790663799");
    let step = step_numbers(q96(), next, 500101, 499850, 251);
    let done = sim.settle(&step, next, -200_000_000).unwrap();
    assert_eq!(done.state, state(499648, -499850, next, 10, 800_000_000));
    assert_eq!(done.liquidity_net, -200_000_000);

    let sim = pool().begin_swap(token_a(), U256::from_u64(1_000_000), 150);
    let mut step = step_numbers(q96(), dec("79188560314459151373725315960"), 500101, 499850, 251);
    step.tick_next = -10;
    let done = sim.settle(&step, dec("79188560314459151373725315960"), 300_000_000).unwrap();
    assert_eq!(done.state.tick, -11);
    assert_eq!(done.state.liquidity, 700_000_000);
    assert_eq!(done.liquidity_net, -300_000_000);
}

#[test]
fn settle_between_ticks_looks_the_tick_up() {
    let sim = pool().begin_swap(token_b(), U256::from_u64(1000), 150);
    let next = dec("79267784519130042428790663799");
    let after = dec("79228241663198689343617206286");
    let step = step_numbers(q96(), next, 999, 998, 1);
    let done = sim.settle(&step, after, -200_000_000).unwrap();
    assert_eq!(done.state, state(0, -998, after, 0, 1_000_000_000));
    assert_eq!(done.liquidity_net, 0);
    let after = dec("79317242501509165655872589626");
    assert_eq!(sim.settle(&step, after, -200_000_000).unwrap().state.tick, 22);
}

#[test]
fn settle_between_ticks_refuses_a_price_out_of_bounds() {
    let sim = pool().begin_swap(token_b(), U256::from_u64(1000), 150);
    let step = step_numbers(q96(), dec("79267784519130042428790663799"), 999, 998, 1);
    assert_eq!(sim.settle(&step, max_sqrt_ratio(), 0), Err(SwapError::OutOfBoundsPrice));
    assert_eq!(sim.settle(&step, U256::one(), 0), Err(SwapError::OutOfBoundsPrice));
}

#[test]
fn settle_unmoved_only_books() {
    let sim = pool().begin_swap(token_b(), U256::from_u64(1000), 150);
    let step = step_numbers(q96(), dec("79267784519130042428790663799"), 0, 0, 0);
    let done = sim.settle(&step, q96(), -200_000_000).unwrap();
    assert_eq!(done, sim);
}

#[test]
fn a_swap_begins_with_the_pool_state() {
    let sim = pool().begin_swap(token_a(), U256::from_u64(1000), 7);
    assert_eq!(
        sim,
        SwapSimulation {
            zero_for_one: true,
            fee: 500,
            num_ticks: 7,
            block_number: None,
            state: state(1000, 0, q96(), 0, 1_000_000_000),
            liquidity_net: 0,
        }
    );
    assert!(!pool().begin_swap(token_b(), U256::from_u64(1000), 7).zero_for_one);
    assert!(!pool().begin_swap(H160([9; 20]), U256::from_u64(1000), 7).zero_for_one);
}

#[test]
fn an_unfinished_swap_asks_from_its_tick() {
    let sim = pool().begin_swap(token_a(), U256::from_u64(1000), 7);
    assert!(!sim.is_finished());
    assert_eq!(
        sim.request(),
        Some(TickRequest { tick: 0, zero_for_one: true, num_ticks: 7, block_number: None })
    );
}

#[test]
fn a_swap_of_nothing_asks_for_nothing() {
    let sim = pool().begin_swap(token_a(), U256::zero(), 150);
    assert!(sim.is_finished());
    assert_eq!(sim.request(), None);
    assert_eq!(sim.amount_out(), Ok(U256::zero()));
}

#[test]
fn a_swap_at_the_price_limit_is_finished() {
    let mut at_bottom = pool();
    at_bottom.sqrt_price = sqrt_price_limit(true);
    assert!(at_bottom.begin_swap(token_a(), U256::from_u64(5), 150).is_finished());
    assert!(!at_bottom.begin_swap(token_b(), U256::from_u64(5), 150).is_finished());
    let mut at_top = pool();
    at_top.sqrt_price = sqrt_price_limit(false);
    assert!(at_top.begin_swap(token_b(), U256::from_u64(5), 150).is_finished());
    assert!(!at_top.begin_swap(token_a(), U256::from_u64(5), 150).is_finished());
}

#[test]
fn one_step_inside_the_range() {
    let sim = pool().begin_swap(token_b(), U256::from_u64(1000), 150);
    let done = sim.step(entry(true, 10, -200_000_000)).unwrap();
    assert_eq!(done.state, state(0, -998, dec("79228241663198689343617206286"), 0, 1_000_000_000));
    assert_eq!(done.liquidity_net, 0);
    assert!(done.is_finished());
    assert_eq!(done.amount_out(), Ok(U256::from_u64(998)));
}

#[test]
fn one_step_onto_the_tick() {
    let sim = pool().begin_swap(token_b(), U256::from_u64(1_000_000), 150);
    let done = sim.step(entry(true, 10, -200_000_000)).unwrap();
    assert_eq!(done.state, state(499648, -499850, dec("79267784519130042428790663799"), 10, 800_000_000));
    assert_eq!(done.liquidity_net, -200_000_000);
    assert!(!done.is_finished());
}

#[test]
fn a_step_clamps_the_tick() {
    let sim = pool().begin_swap(token_b(), U256(ethers::types::U256::exp10(30).0), 150);
    let done = sim.step(entry(false, 900_000, 0)).unwrap();
    assert!(done.is_finished());
    assert_eq!(done.state.sqrt_price_x_96, sqrt_price_limit(false));
    assert_eq!(done.state.tick, 887271);
    assert_eq!(done.state.amount_specified_remaining.into_raw(), dec("981544721649727160050711321657"));
    assert_eq!(done.amount_out(), Ok(U256::from_u64(999_999_999)));

    let sim = pool().begin_swap(token_a(), U256(ethers::types::U256::exp10(30).0), 150);
    let done = sim.step(entry(false, -900_000, 0)).unwrap();
    assert!(done.is_finished());
    assert_eq!(done.state.sqrt_price_x_96, sqrt_price_limit(true));
    assert_eq!(done.state.tick, -887272);
    assert_eq!(done.state.amount_specified_remaining.into_raw(), dec("981544721657756276503207523197"));
    assert_eq!(done.amount_out(), Ok(U256::from_u64(999_999_999)));
}

#[test]
fn a_step_that_drains_the_liquidity_fails() {
    let sim = pool().begin_swap(token_b(), U256::from_u64(1_000_000), 150);
    assert_eq!(sim.step(entry(true, 10, -2_000_000_000)), Err(SwapError::LiquidityUnderflow));
    let sim = pool().begin_swap(token_a(), U256::from_u64(1_000_000), 150);
    assert_eq!(sim.step(entry(true, -10, 2_000_000_000)), Err(SwapError::LiquidityUnderflow));
}

#[test]
fn a_step_with_a_fee_above_the_whole_fails() {
    let mut odd = pool();
    odd.fee = 1_000_001;
    let sim = odd.begin_swap(token_b(), U256::from_u64(1000), 150);
    assert_eq!(sim.step(entry(true, 10, 0)), Err(SwapError::SwapMath));
}

#[test]
fn advance_steps_until_the_input_is_spent() {
    let sim = pool().begin_swap(token_b(), U256::from_u64(1_000_000), 150);
    let ticks = vec![entry(true, 10, -200_000_000), entry(false, 2550, 0), entry(true, 2560, 77)];
    let done = sim.advance(&batch(ticks, 1234)).unwrap();
    assert!(done.is_finished());
    assert_eq!(done.state, state(0, -998437, dec("79317242501509165655872589626"), 22, 800_000_000));
    assert_eq!(done.liquidity_net, -200_000_000);
    assert_eq!(done.block_number, Some(1234));
    assert_eq!(done.request(), None);
    assert_eq!(done.amount_out(), Ok(U256::from_u64(998437)));
}

#[test]
fn advance_downward_negates_the_liquidity_change() {
    let sim = pool().begin_swap(token_a(), U256::from_u64(1_000_000), 150);
    let ticks = vec![entry(true, -10, 300_000_000), entry(false, -2560, 0)];
    let done = sim.advance(&batch(ticks, 9)).unwrap();
    assert!(done.is_finished());
    assert_eq!(done.state, state(0, -998393, dec("79132133634481240247211972701"), -25, 700_000_000));
    assert_eq!(done.liquidity_net, -300_000_000);
}

#[test]
fn advance_asks_again_when_the_batch_runs_out() {
    let sim = pool().begin_swap(token_b(), U256::from_u64(1_000_000), 1);
    let first = sim.advance(&batch(vec![entry(true, 10, -200_000_000)], 1234)).unwrap();
    assert!(!first.is_finished());
    assert_eq!(first.state, state(499648, -499850, dec("79267784519130042428790663799"), 10, 800_000_000));
    assert_eq!(
        first.request(),
        Some(TickRequest { tick: 10, zero_for_one: false, num_ticks: 1, block_number: Some(1234) })
    );
    let second = first.advance(&batch(vec![entry(false, 2550, 0)], 5678)).unwrap();
    assert!(second.is_finished());
    assert_eq!(second.block_number, Some(1234));
    assert_eq!(second.state, state(0, -998437, dec("79317242501509165655872589626"), 22, 800_000_000));
}

#[test]
fn advance_downward_asks_from_below_the_crossed_tick() {
    let sim = pool().begin_swap(token_a(), U256::from_u64(1_000_000), 1);
    let first = sim.advance(&batch(vec![entry(true, -10, 300_000_000)], 4)).unwrap();
    assert_eq!(first.state, state(499648, -499850, dec("79188560314459151373725315960"), -11, 700_000_000));
    assert_eq!(
        first.request(),
        Some(TickRequest { tick: -11, zero_for_one: true, num_ticks: 1, block_number: Some(4) })
    );
}

#[test]
fn advance_fails_on_an_empty_batch() {
    let sim = pool().begin_swap(token_b(), U256::from_u64(1000), 150);
    assert_eq!(sim.advance(&batch(vec![], 1)), Err(SwapError::NoInitializedTicks));
}

#[test]
fn advance_leaves_a_finished_swap_alone() {
    let sim = pool().begin_swap(token_b(), U256::zero(), 150);
    assert_eq!(sim.advance(&batch(vec![], 1)), Ok(sim));
    assert_eq!(sim.advance(&batch(vec![entry(true, 10, 5)], 1)), Ok(sim));
}

#[test]
fn advance_stops_at_the_first_failing_step() {
    let sim = pool().begin_swap(token_b(), U256::from_u64(1_000_000), 150);
    let ticks = vec![entry(true, 10, -2_000_000_000), entry(false, 2550, 0)];
    assert_eq!(sim.advance(&batch(ticks, 1)), Err(SwapError::LiquidityUnderflow));
}

#[test]
fn run_feeds_batches_in_order() {
    let sim = pool().begin_swap(token_b(), U256::from_u64(1_000_000), 1);
    let batches = vec![
        batch(vec![entry(true, 10, -200_000_000)], 11),
        batch(vec![entry(false, 2550, 0)], 12),
        batch(vec![entry(true, 2560, 5)], 13),
    ];
    let done = sim.run(&batches).unwrap();
    assert_eq!(done.state, state(0, -998437, dec("79317242501509165655872589626"), 22, 800_000_000));
    assert_eq!(done.block_number, Some(11));
}

#[test]
fn run_fails_when_the_batches_run_out() {
    let sim = pool().begin_swap(token_b(), U256::from_u64(1_000_000), 1);
    let batches = vec![batch(vec![entry(true, 10, -200_000_000)], 11)];
    assert_eq!(sim.run(&batches), Err(SwapError::NoInitializedTicks));
    assert_eq!(sim.run(&vec![]), Err(SwapError::NoInitializedTicks));
    let batches = vec![batch(vec![entry(true, 10, -200_000_000)], 11), batch(vec![], 11)];
    assert_eq!(sim.run(&batches), Err(SwapError::NoInitializedTicks));
}

#[test]
fn the_output_is_the_negated_calculated_amount() {
    let mut sim = pool().begin_swap(token_b(), U256::from_u64(1), 150);
    sim.state.amount_calculated = signed(-12345);
    assert_eq!(sim.amount_out(), Ok(U256::from_u64(12345)));
    sim.state.amount_calculated = signed(1);
    assert_eq!(sim.amount_out(), Ok(U256::max_value()));
    sim.state.amount_calculated = I256(U256([0, 0, 0, 1 << 63]));
    assert_eq!(sim.amount_out(), Err(SwapError::AmountOverflow));
}

#[test]
fn a_walk_across_several_ticks() {
    let start = dec("79208358939348018173455069825");
    let deep = UniswapV3Pool::new(H160([1; 20]), token_a(), 6, token_b(), 18, 3000, 5_000_000_000_000, start, -5, 60, 7);
    let up = vec![
        entry(true, 60, -1_000_000_000_000),
        entry(true, 120, 2_000_000_000_000),
        entry(true, 180, -3_000_000_000_000),
        entry(false, 15300, 0),
    ];
    let done = deep.begin_swap(token_b(), U256::from_u64(100_000_000_000), 150).advance(&batch(up, 1)).unwrap();
    assert_eq!(done.state, state(0, -97423865873, dec("81350442813433043072933811350"), 528, 3_000_000_000_000));
    assert_eq!(done.liquidity_net, -3_000_000_000_000);
    let down = vec![
        entry(true, -60, 1_000_000_000_000),
        entry(true, -120, -2_000_000_000_000),
        entry(true, -180, 3_000_000_000_000),
        entry(false, -15360, 0),
    ];
    let done = deep.begin_swap(token_a(), U256::from_u64(100_000_000_000), 150).advance(&batch(down, 1)).unwrap();
    assert_eq!(done.state, state(0, -97293210426, dec("77098678884866739451270940857"), -545, 3_000_000_000_000));
    assert_eq!(done.liquidity_net, -3_000_000_000_000);
}
