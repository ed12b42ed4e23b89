use uniswap_v3_pool::error::SwapError;
use uniswap_v3_pool::tick_math::{
    get_sqrt_ratio_at_tick, get_tick_at_sqrt_ratio, max_sqrt_ratio, min_sqrt_ratio, MAX_TICK,
    MIN_TICK,
};
use uniswap_v3_pool::u256::U256;

#[test]
fn sqrt_ratio_at_the_bounds() {
    assert_eq!(get_sqrt_ratio_at_tick(MIN_TICK), Ok(min_sqrt_ratio()));
    assert_eq!(get_sqrt_ratio_at_tick(MAX_TICK), Ok(max_sqrt_ratio()));
    assert_eq!(get_sqrt_ratio_at_tick(MIN_TICK + 1), Ok(U256::from_u64(4295343490)));
}

#[test]
fn sqrt_ratio_at_tick_zero_is_two_to_the_96() {
    assert_eq!(get_sqrt_ratio_at_tick(0), Ok(U256([0, 1 << 32, 0, 0])));
}

#[test]
fn sqrt_ratio_rejects_ticks_out_of_bounds() {
    assert_eq!(get_sqrt_ratio_at_tick(MIN_TICK - 1), Err(SwapError::OutOfBoundsTick));
    assert_eq!(get_sqrt_ratio_at_tick(MAX_TICK + 1), Err(SwapError::OutOfBoundsTick));
    assert_eq!(get_sqrt_ratio_at_tick(i32::MIN), Err(SwapError::OutOfBoundsTick));
    assert_eq!(get_sqrt_ratio_at_tick(i32::MAX), Err(SwapError::OutOfBoundsTick));
}

#[test]
fn tick_at_the_bounds() {
    assert_eq!(get_tick_at_sqrt_ratio(min_sqrt_ratio()), Ok(MIN_TICK));
    let below_max = max_sqrt_ratio().overflowing_sub(U256::one()).0;
    assert_eq!(get_tick_at_sqrt_ratio(below_max), Ok(MAX_TICK - 1));
}

#[test]
fn tick_rejects_prices_out_of_bounds() {
    let below_min = min_sqrt_ratio().overflowing_sub(U256::one()).0;
    assert_eq!(get_tick_at_sqrt_ratio(below_min), Err(SwapError::OutOfBoundsPrice));
    assert_eq!(get_tick_at_sqrt_ratio(max_sqrt_ratio()), Err(SwapError::OutOfBoundsPrice));
    assert_eq!(get_tick_at_sqrt_ratio(U256::zero()), Err(SwapError::OutOfBoundsPrice));
    assert_eq!(get_tick_at_sqrt_ratio(U256::max_value()), Err(SwapError::OutOfBoundsPrice));
}

fn dec(s: &str) -> U256 {
    U256(ethers::types::U256::from_dec_str(s).unwrap().0)
}

#[test]
fn sqrt_ratio_at_chosen_ticks() {
    assert_eq!(get_sqrt_ratio_at_tick(1), Ok(dec("79232123823359799118286999568")));
    assert_eq!(get_sqrt_ratio_at_tick(-1), Ok(dec("79224201403219477170569942574")));
    assert_eq!(get_sqrt_ratio_at_tick(10), Ok(dec("79267784519130042428790663799")));
    assert_eq!(get_sqrt_ratio_at_tick(-10), Ok(dec("79188560314459151373725315960")));
    assert_eq!(
        get_sqrt_ratio_at_tick(500000),
        Ok(dec("5697689776495288729098254600827762987878"))
    );
    assert_eq!(get_sqrt_ratio_at_tick(-500000), Ok(dec("1101692437043807371")));
    assert_eq!(
        get_sqrt_ratio_at_tick(MAX_TICK - 1),
        Ok(dec("1461373636630004318706518188784493106690254656249"))
    );
}

#[test]
fn tick_is_the_floor_of_the_price() {
    let at_zero = U256([0, 1 << 32, 0, 0]);
    assert_eq!(get_tick_at_sqrt_ratio(at_zero), Ok(0));
    assert_eq!(get_tick_at_sqrt_ratio(at_zero.overflowing_sub(U256::one()).0), Ok(-1));
    let at_ten = dec("79267784519130042428790663799");
    assert_eq!(get_tick_at_sqrt_ratio(at_ten), Ok(10));
    assert_eq!(get_tick_at_sqrt_ratio(at_ten.overflowing_sub(U256::one()).0), Ok(9));
    assert_eq!(get_tick_at_sqrt_ratio(at_ten.overflowing_add(U256::one()).0), Ok(10));
}

#[test]
fn tick_round_trips_through_its_price() {
    let mut tick = MIN_TICK;
    while tick < MAX_TICK {
        let price = get_sqrt_ratio_at_tick(tick).unwrap();
        assert_eq!(get_tick_at_sqrt_ratio(price), Ok(tick));
        tick += 1009;
    }
    for tick in [-3, -2, -1, 0, 1, 2, 3, MAX_TICK - 1] {
        let price = get_sqrt_ratio_at_tick(tick).unwrap();
        assert_eq!(get_tick_at_sqrt_ratio(price), Ok(tick));
    }
}

#[test]
fn the_price_at_the_top_tick_has_no_tick() {
    let price = get_sqrt_ratio_at_tick(MAX_TICK).unwrap();
    assert_eq!(get_tick_at_sqrt_ratio(price), Err(SwapError::OutOfBoundsPrice));
}

#[test]
fn sqrt_ratio_rises_with_the_tick() {
    let mut tick = MIN_TICK;
    let mut last = get_sqrt_ratio_at_tick(tick).unwrap();
    while tick + 997 <= MAX_TICK {
        tick += 997;
        let next = get_sqrt_ratio_at_tick(tick).unwrap();
        assert!(last.lt(&next));
        last = next;
    }
    for tick in -50..50 {
        let low = get_sqrt_ratio_at_tick(tick).unwrap();
        let high = get_sqrt_ratio_at_tick(tick + 1).unwrap();
        assert!(low.lt(&high));
    }
    let below_top = get_sqrt_ratio_at_tick(MAX_TICK - 1).unwrap();
    assert!(below_top.lt(&max_sqrt_ratio()));
}
