use uniswap_v3_pool::error::SwapError;
use uniswap_v3_pool::h160::H160;
use uniswap_v3_pool::pool::{UniswapV3Pool, DEFAULT_NUM_TICKS};
use uniswap_v3_pool::swap::{TickBatch, TickData};
use uniswap_v3_pool::u256::U256;

fn dec(s: &str) -> U256 {
    U256(ethers::types::U256::from_dec_str(s).unwrap().0)
}

fn token_a() -> H160 {
    H160([0xaa; 20])
}

fn token_b() -> H160 {
    H160([0xbb; 20])
}

fn q96() -> U256 {
    U256([0, 1 << 32, 0, 0])
}

fn pool() -> UniswapV3Pool {
    UniswapV3Pool::new(H160([1; 20]), token_a(), 6, token_b(), 18, 500, 1_000_000_000, q96(), 0, 10, 0)
}

fn entry(initialized: bool, tick: i32, liquidity_net: i128) -> TickData {
    TickData { initialized, tick, liquidity_net }
}

fn upward() -> Vec<TickBatch> {
    vec![TickBatch {
        ticks: vec![entry(true, 10, -200_000_000), entry(false, 2550, 0)],
        block_number: 16_515_398,
    }]
}

fn downward() -> Vec<TickBatch> {
    vec![TickBatch { ticks: vec![entry(false, 0, 0), entry(false, -2560, 0)], block_number: 16_515_398 }]
}

#[test]
fn new_keeps_every_field() {
    let p = pool();
    assert_eq!(p.address, H160([1; 20]));
    assert_eq!(p.token_a, token_a());
    assert_eq!(p.token_a_decimals, 6);
    assert_eq!(p.token_b, token_b());
    assert_eq!(p.token_b_decimals, 18);
    assert_eq!(p.fee, 500);
    assert_eq!(p.liquidity, 1_000_000_000);
    assert_eq!(p.sqrt_price, q96());
    assert_eq!(p.tick, 0);
    assert_eq!(p.tick_spacing, 10);
    assert_eq!(p.liquidity_net, 0);
    assert_eq!(p.fee(), 500);
    assert_eq!(p.address(), H160([1; 20]));
}

#[test]
fn default_pool_is_empty() {
    let p = UniswapV3Pool::default();
    assert_eq!(p, UniswapV3Pool::new(H160::zero(), H160::zero(), 0, H160::zero(), 0, 0, 0, U256::zero(), 0, 0, 0));
    assert!(!p.data_is_populated());
}

#[test]
fn data_is_populated_needs_both_tokens() {
    assert!(pool().data_is_populated());
    let mut p = pool();
    p.token_a = H160::zero();
    assert!(!p.data_is_populated());
    let mut p = pool();
    p.token_b = H160::zero();
    assert!(!p.data_is_populated());
}

#[test]
fn decimal_shift_is_the_difference_of_the_scales() {
    assert_eq!(pool().decimal_shift(), -12);
    let mut p = pool();
    p.token_a_decimals = 255;
    p.token_b_decimals = 0;
    assert_eq!(p.decimal_shift(), 255);
    p.token_a_decimals = 0;
    p.token_b_decimals = 255;
    assert_eq!(p.decimal_shift(), -255);
}

#[test]
fn compressed_tick_uses_the_pool_spacing() {
    assert_eq!(pool().calculate_compressed(-5), -1);
    assert_eq!(pool().calculate_compressed(5), 0);
    assert_eq!(pool().calculate_compressed(-10), -1);
    assert_eq!(pool().calculate_compressed(-887272), -88728);
    assert_eq!(pool().calculate_compressed(887272), 88727);
}

#[test]
fn word_and_bit_of_a_compressed_tick() {
    assert_eq!(pool().calculate_word_pos_bit_pos(-88728), (-347, 104));
    assert_eq!(pool().calculate_word_pos_bit_pos(88727), (346, 151));
    assert_eq!(pool().calculate_word_pos_bit_pos(-1), (-1, 255));
}

#[test]
fn small_upward_trade_stays_in_the_range() {
    let input = U256::from_u64(1000);
    let out = pool().simulate_swap(token_b(), input, &upward()).unwrap();
    assert_eq!(out, U256::from_u64(998));
    assert!(out.lt(&input));
    let mut p = pool();
    assert_eq!(p.simulate_swap_mut(token_b(), input, &upward()), Ok(U256::from_u64(998)));
    assert_eq!(p.tick, 0);
    assert_eq!(p.liquidity, 1_000_000_000);
    assert_eq!(p.liquidity_net, 0);
    assert_eq!(p.sqrt_price, dec("79228241663198689343617206286"));
    assert!(p.sqrt_price.lt(&dec("79267784519130042428790663799")));
}

#[test]
fn small_downward_trade_pays_less_than_it_takes() {
    let input = U256::from_u64(1000);
    let out = pool().simulate_swap(token_a(), input, &downward()).unwrap();
    assert_eq!(out, U256::from_u64(998));
    assert!(out.lt(&input));
    let mut p = pool();
    assert_eq!(p.simulate_swap_mut(token_a(), input, &downward()), Ok(U256::from_u64(998)));
    assert_eq!(p.tick, -1);
    assert_eq!(p.sqrt_price, dec("79228083365409055549897455989"));
}

#[test]
fn crossing_trade_commits_the_new_range() {
    let mut p = pool();
    let out = p.simulate_swap_mut_with_cache(token_b(), U256::from_u64(1_000_000), 2, &upward());
    assert_eq!(out, Ok(U256::from_u64(998437)));
    let mut expected = pool();
    expected.liquidity = 800_000_000;
    expected.sqrt_price = dec("79317242501509165655872589626");
    expected.tick = 22;
    expected.liquidity_net = -200_000_000;
    assert_eq!(p, expected);
}

#[test]
fn chained_trades_continue_from_the_committed_state() {
    let mut p = pool();
    let first = p.simulate_swap_mut(token_b(), U256::from_u64(400_000), &upward()).unwrap();
    let second = p.simulate_swap_mut(token_b(), U256::from_u64(600_000), &upward()).unwrap();
    assert_eq!(p.tick, 22);
    assert_eq!(p.liquidity, 800_000_000);
    let whole = pool().simulate_swap(token_b(), U256::from_u64(1_000_000), &upward()).unwrap();
    let sum = first.overflowing_add(second).0;
    assert!(sum.le(&whole));
    assert!(whole.overflowing_sub(sum).0.le(&U256::from_u64(2)));
}

#[test]
fn read_only_simulation_repeats_itself() {
    let p = pool();
    let before = p;
    let first = p.simulate_swap_with_cache(token_b(), U256::from_u64(1_000_000), 7, &upward());
    let second = p.simulate_swap_with_cache(token_b(), U256::from_u64(1_000_000), 7, &upward());
    assert_eq!(first, Ok(U256::from_u64(998437)));
    assert_eq!(first, second);
    assert_eq!(p, before);
}

#[test]
fn read_only_and_mutating_agree() {
    for amount in [1u64, 999, 1000, 500_351, 500_352, 1_000_000, 5_000_000] {
        let read_only = pool().simulate_swap(token_b(), U256::from_u64(amount), &upward());
        let mut p = pool();
        assert_eq!(p.simulate_swap_mut(token_b(), U256::from_u64(amount), &upward()), read_only);
    }
}

#[test]
fn zero_input_gives_zero_output() {
    assert_eq!(pool().simulate_swap(token_a(), U256::zero(), &vec![]), Ok(U256::zero()));
    assert_eq!(pool().simulate_swap(token_b(), U256::zero(), &upward()), Ok(U256::zero()));
    assert_eq!(pool().simulate_swap_with_cache(token_b(), U256::zero(), 0, &upward()), Ok(U256::zero()));
    let mut p = pool();
    assert_eq!(p.simulate_swap_mut(token_a(), U256::zero(), &vec![]), Ok(U256::zero()));
    assert_eq!(p, pool());
    assert_eq!(p.simulate_swap_mut_with_cache(token_a(), U256::zero(), 3, &downward()), Ok(U256::zero()));
    assert_eq!(p, pool());
    assert_eq!(pool().begin_swap(token_a(), U256::zero(), DEFAULT_NUM_TICKS).request(), None);
}

#[test]
fn no_ticks_in_the_direction_is_an_error() {
    let empty = vec![TickBatch { ticks: vec![], block_number: 1 }];
    assert_eq!(pool().simulate_swap(token_b(), U256::from_u64(1000), &empty), Err(SwapError::NoInitializedTicks));
    assert_eq!(pool().simulate_swap(token_a(), U256::from_u64(1000), &empty), Err(SwapError::NoInitializedTicks));
    assert_eq!(pool().simulate_swap(token_a(), U256::from_u64(1000), &vec![]), Err(SwapError::NoInitializedTicks));
    let mut p = pool();
    assert_eq!(p.simulate_swap_mut(token_b(), U256::from_u64(1000), &empty), Err(SwapError::NoInitializedTicks));
    assert_eq!(p, pool());
}

#[test]
fn a_failed_trade_leaves_the_pool_alone() {
    let drained = vec![TickBatch { ticks: vec![entry(true, 10, -2_000_000_000)], block_number: 1 }];
    let mut p = pool();
    assert_eq!(p.simulate_swap_mut(token_b(), U256::from_u64(1_000_000), &drained), Err(SwapError::LiquidityUnderflow));
    assert_eq!(p, pool());
    let short = vec![TickBatch { ticks: vec![entry(true, 10, -200_000_000)], block_number: 1 }];
    assert_eq!(p.simulate_swap_mut(token_b(), U256::from_u64(1_000_000), &short), Err(SwapError::NoInitializedTicks));
    assert_eq!(p, pool());
}

#[test]
fn commit_writes_the_working_state_back() {
    let sim = pool().begin_swap(token_b(), U256::from_u64(1_000_000), 150);
    let done = sim.run(&upward()).unwrap();
    let mut p = pool();
    p.commit(&done);
    assert_eq!(p.tick, 22);
    assert_eq!(p.liquidity, 800_000_000);
    assert_eq!(p.liquidity_net, -200_000_000);
    assert_eq!(p.sqrt_price, dec("79317242501509165655872589626"));
    assert_eq!(p.fee, 500);
    assert_eq!(p.token_a, token_a());
}

#[test]
fn steps_never_exceed_the_ticks_supplied() {
    let ticks = vec![entry(true, 10, -200_000_000), entry(false, 2550, 0), entry(false, 5110, 0)];
    let mut sim = pool().begin_swap(token_b(), U256::from_u64(1_000_000), 150);
    let mut steps = 0;
    for tick in &ticks {
        if sim.is_finished() {
            break;
        }
        sim = sim.step(*tick).unwrap();
        steps += 1;
    }
    assert!(sim.is_finished());
    assert_eq!(steps, 2);
    assert!(steps <= ticks.len());
    let whole = pool().begin_swap(token_b(), U256::from_u64(1_000_000), 150);
    let advanced = whole.advance(&TickBatch { ticks, block_number: 0 }).unwrap();
    assert_eq!(advanced.state, sim.state);
    assert_eq!(advanced.liquidity_net, sim.liquidity_net);
}

#[test]
fn an_empty_pool_knows_only_its_tokens_and_fee() {
    let p = UniswapV3Pool::new_empty_pool(H160([1; 20]), token_a(), token_b(), 3000);
    assert_eq!(p, UniswapV3Pool::new(H160([1; 20]), token_a(), 0, token_b(), 0, 3000, 0, U256::zero(), 0, 0, 0));
}

#[test]
fn a_pool_without_tokens_is_refused() {
    assert_eq!(pool().require_populated(), Ok(pool()));
    let mut p = pool();
    p.token_b = H160::zero();
    assert_eq!(p.require_populated(), Err(SwapError::PoolDataError));
    assert_eq!(UniswapV3Pool::default().require_populated(), Err(SwapError::PoolDataError));
}

#[test]
fn update_state_touches_only_the_moving_parts() {
    let mut p = pool();
    p.update_state(dec("79317242501509165655872589626"), 42, 22, -7);
    let mut expected = pool();
    expected.sqrt_price = dec("79317242501509165655872589626");
    expected.liquidity = 42;
    expected.tick = 22;
    expected.liquidity_net = -7;
    assert_eq!(p, expected);
}
