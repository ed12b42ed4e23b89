use uniswap_v3_pool::tick_math::{get_sqrt_ratio_at_tick, get_tick_at_sqrt_ratio};

/// Checks, for every tick from `low` up to and excluding `high`, that the
/// price rises to the next tick and that the tick comes back from its price.
fn rises_and_returns(low: i32, high: i32) {
    let mut price = get_sqrt_ratio_at_tick(low).unwrap();
    for tick in low..high {
        let above = get_sqrt_ratio_at_tick(tick + 1).unwrap();
        assert!(price.lt(&above), "price does not rise at tick {tick}");
        assert_eq!(get_tick_at_sqrt_ratio(price), Ok(tick));
        price = above;
    }
}

#[test]
fn every_tick_rises_and_returns_first_part() {
    rises_and_returns(-887272, -739393);
}

#[test]
fn every_tick_rises_and_returns_second_part() {
    rises_and_returns(-739393, -591514);
}

#[test]
fn every_tick_rises_and_returns_third_part() {
    rises_and_returns(-591514, -443635);
}

#[test]
fn every_tick_rises_and_returns_fourth_part() {
    rises_and_returns(-443635, -295756);
}

#[test]
fn every_tick_rises_and_returns_fifth_part() {
    rises_and_returns(-295756, -147877);
}

#[test]
fn every_tick_rises_and_returns_sixth_part() {
    rises_and_returns(-147877, 2);
}

#[test]
fn every_tick_rises_and_returns_seventh_part() {
    rises_and_returns(2, 147881);
}

#[test]
fn every_tick_rises_and_returns_eighth_part() {
    rises_and_returns(147881, 295760);
}

#[test]
fn every_tick_rises_and_returns_ninth_part() {
    rises_and_returns(295760, 443639);
}

#[test]
fn every_tick_rises_and_returns_tenth_part() {
    rises_and_returns(443639, 591518);
}

#[test]
fn every_tick_rises_and_returns_eleventh_part() {
    rises_and_returns(591518, 739397);
}

#[test]
fn every_tick_rises_and_returns_twelfth_part() {
    rises_and_returns(739397, 887272);
}
