//! Addressing of ticks inside the bitmap of initialized ticks.

use crate::error::SwapError;
use crate::u256::{bit_is_set, U256};
use vstd::arithmetic::div_mod::{lemma_fundamental_div_mod, lemma_fundamental_div_mod_converse};
use vstd::prelude::*;

verus! {

/// The compressed index of `tick`: its quotient by `spacing`, rounded toward
/// negative infinity.
pub open spec fn compressed_tick(tick: int, spacing: int) -> int
    recommends
        spacing > 0,
{
    tick / spacing
}

/// The bitmap word that holds the bit of a compressed index.
pub open spec fn word_index(compressed: int) -> int {
    compressed / 256
}

/// The bit, inside its word, of a compressed index.
pub open spec fn bit_index(compressed: int) -> int {
    compressed % 256
}

/// The compressed index of `tick` for a positive `spacing`.
pub fn compress(tick: i32, spacing: i32) -> (c: i32)
    requires
        spacing > 0,
    ensures
        c == compressed_tick(tick as int, spacing as int),
        c * spacing <= tick < c * spacing + spacing,
{
    let q: i32 = tick / spacing;
    let m: i32 = tick % spacing;
    proof {
        lemma_floor_division(tick as int, spacing as int);
        if tick < 0 {
            let a: int = -tick;
            let s: int = spacing as int;
            lemma_fundamental_div_mod(a, s);
            if m != 0 {
                assert(2 * (a / s) <= a) by (nonlinear_arith)
                    requires
                        a == s * (a / s) + a % s,
                        0 <= a % s,
                        0 <= a / s,
                        s >= 2,
                ;
                assert(-a == (-(a / s) - 1) * s + (s - a % s)) by (nonlinear_arith)
                    requires
                        a == s * (a / s) + a % s,
                ;
                lemma_fundamental_div_mod_converse(tick as int, s, -(a / s) - 1, s - a % s);
            } else {
                assert(-a == (-(a / s)) * s + 0) by (nonlinear_arith)
                    requires
                        a == s * (a / s) + a % s,
                        a % s == 0,
                ;
                lemma_fundamental_div_mod_converse(tick as int, s, -(a / s), 0);
            }
        }
    }
    if tick < 0 && m != 0 {
        q - 1
    } else {
        q
    }
}

/// Calls `uniswap_v3_math::tick_bitmap::position`.
///
/// Trusted: the word is the compressed index shifted right by eight bits and
/// cut to sixteen bits, the bit is its low eight bits.
#[verifier::external_body]
fn math_position(compressed: i32) -> (r: (i16, u8))
    ensures
        r.1 == bit_index(compressed as int),
        (r.0 - word_index(compressed as int)) % 65536 == 0,
{
    uniswap_v3_math::tick_bitmap::position(compressed)
}

/// The bitmap word and the bit inside it at which a compressed index lives.
///
/// The word is exact wherever it fits sixteen bits, which it does for every
/// compressed index of a tick in bounds.
pub fn position(compressed: i32) -> (r: (i16, u8))
    ensures
        r.1 == bit_index(compressed as int),
        (r.0 - word_index(compressed as int)) % 65536 == 0,
        -8388608 <= compressed < 8388608 ==> r.0 == word_index(compressed as int),
        compressed == 256 * word_index(compressed as int) + r.1,
{
    let r = math_position(compressed);
    proof {
        let c: int = compressed as int;
        lemma_fundamental_div_mod(c, 256);
        if -8388608 <= c < 8388608 {
            let d: int = r.0 - word_index(c);
            assert(-32768 <= word_index(c) < 32768);
            lemma_small_multiple(d);
        }
    }
    r
}

/// The highest set bit of `word` at or below bit `from`.
pub open spec fn highest_set_bit(word: nat, from: int) -> Option<int>
    decreases from + 1,
{
    if from < 0 {
        None
    } else if bit_is_set(word, from as nat) {
        Some(from)
    } else {
        highest_set_bit(word, from - 1)
    }
}

/// The lowest set bit of `word` at or above bit `from`.
pub open spec fn lowest_set_bit(word: nat, from: int) -> Option<int>
    decreases 256 - from,
{
    if from > 255 {
        None
    } else if from >= 0 && bit_is_set(word, from as nat) {
        Some(from)
    } else {
        lowest_set_bit(word, from + 1)
    }
}

/// The compressed index at which a search from `tick` begins: that of the
/// tick itself when searching downward, the one above it when searching
/// upward.
pub open spec fn search_anchor(tick: int, spacing: int, lte: bool) -> int {
    if lte {
        compressed_tick(tick, spacing)
    } else {
        compressed_tick(tick, spacing) + 1
    }
}

/// The next tick within the word that holds the search anchor of `tick`, and
/// whether it is initialized. Downward the search takes in the tick itself;
/// upward it begins above it. Where no bit is set the result is the tick at
/// the word's far end.
pub open spec fn next_in_word(word: nat, tick: int, spacing: int, lte: bool) -> (int, bool) {
    let anchor = search_anchor(tick, spacing, lte);
    let first = anchor - bit_index(anchor);
    if lte {
        match highest_set_bit(word, bit_index(anchor)) {
            Some(bit) => ((first + bit) * spacing, true),
            None => (first * spacing, false),
        }
    } else {
        match lowest_set_bit(word, bit_index(anchor)) {
            Some(bit) => ((first + bit) * spacing, true),
            None => ((first + 255) * spacing, false),
        }
    }
}

/// The highest set bit of `word` at or below bit `from`.
pub fn highest_set_bit_from(word: &U256, from: u8) -> (r: Option<u8>)
    ensures
        match r {
            Some(bit) => highest_set_bit(word@, from as int) == Some(bit as int),
            None => highest_set_bit(word@, from as int) is None,
        },
{
    let mut i: u8 = from;
    loop
        invariant
            i <= from,
            highest_set_bit(word@, from as int) == highest_set_bit(word@, i as int),
        decreases i,
    {
        if word.bit(i) {
            return Some(i);
        }
        if i == 0 {
            assert(highest_set_bit(word@, -1) is None);
            return None;
        }
        i -= 1;
    }
}

/// The lowest set bit of `word` at or above bit `from`.
pub fn lowest_set_bit_from(word: &U256, from: u8) -> (r: Option<u8>)
    ensures
        match r {
            Some(bit) => lowest_set_bit(word@, from as int) == Some(bit as int),
            None => lowest_set_bit(word@, from as int) is None,
        },
{
    let mut i: u8 = from;
    loop
        invariant
            from <= i,
            lowest_set_bit(word@, from as int) == lowest_set_bit(word@, i as int),
        decreases 255 - i,
    {
        if word.bit(i) {
            return Some(i);
        }
        if i == 255 {
            assert(lowest_set_bit(word@, 256) is None);
            return None;
        }
        i += 1;
    }
}

/// The tick at compressed index `first + bit`, if it fits 32 bits.
pub(crate) fn tick_at_index(first: i64, bit: u8, spacing: i32) -> (r: Option<i32>)
    requires
        -0x8000_0100 <= first <= 0x8000_0100,
        spacing > 0,
    ensures
        match r {
            Some(tick) => tick == (first + bit) * spacing,
            None => !(i32::MIN <= (first + bit) * spacing <= i32::MAX),
        },
{
    let index: i64 = first + bit as i64;
    assert(-0x8000_0200 * 0x8000_0000 <= index * spacing <= 0x8000_0200 * 0x8000_0000)
        by (nonlinear_arith)
        requires
            -0x8000_0200 <= index <= 0x8000_0200,
            0 < spacing <= 0x8000_0000,
    ;
    let tick: i64 = index * (spacing as i64);
    if tick < i32::MIN as i64 || tick > i32::MAX as i64 {
        None
    } else {
        Some(tick as i32)
    }
}

/// The next tick within one bitmap word, and whether it is initialized.
///
/// `word` is the bitmap word that holds the search anchor of `tick`.
/// Downward (`lte`) the search takes in the tick itself; upward it begins
/// above it. A result that does not fit 32 bits is out of bounds.
pub fn next_initialized_tick_within_one_word(word: &U256, tick: i32, tick_spacing: i32, lte: bool)
    -> (r: Result<(i32, bool), SwapError>)
    requires
        tick_spacing > 0,
    ensures
        match r {
            Ok(found) => found.0 == next_in_word(word@, tick as int, tick_spacing as int, lte).0
                && found.1 == next_in_word(word@, tick as int, tick_spacing as int, lte).1,
            Err(e) => e == SwapError::OutOfBoundsTick && !(i32::MIN <= next_in_word(
                word@,
                tick as int,
                tick_spacing as int,
                lte,
            ).0 <= i32::MAX),
        },
{
    let compressed = compress(tick, tick_spacing);
    if !lte && compressed == i32::MAX {
        proof {
            lemma_top_anchor_is_out_of_bounds(word@, tick as int, tick_spacing as int);
        }
        return Err(SwapError::OutOfBoundsTick);
    }
    let anchor: i32 = if lte {
        compressed
    } else {
        compressed + 1
    };
    let (_, bit_pos) = position(anchor);
    let first: i64 = anchor as i64 - bit_pos as i64;
    let (bit, initialized) = if lte {
        match highest_set_bit_from(word, bit_pos) {
            Some(bit) => (bit, true),
            None => (0u8, false),
        }
    } else {
        match lowest_set_bit_from(word, bit_pos) {
            Some(bit) => (bit, true),
            None => (255u8, false),
        }
    };
    match tick_at_index(first, bit, tick_spacing) {
        Some(next) => Ok((next, initialized)),
        None => Err(SwapError::OutOfBoundsTick),
    }
}

/// The bitmap word to hand to `next_initialized_tick_within_one_word` for a
/// search from `tick`, if its index fits sixteen bits.
pub fn word_to_search(tick: i32, tick_spacing: i32, lte: bool) -> (r: Option<i16>)
    requires
        tick_spacing > 0,
    ensures
        match r {
            Some(w) => w == word_index(search_anchor(tick as int, tick_spacing as int, lte)),
            None => !(i16::MIN <= word_index(search_anchor(tick as int, tick_spacing as int, lte))
                <= i16::MAX),
        },
{
    let compressed = compress(tick, tick_spacing);
    let anchor: i64 = if lte {
        compressed as i64
    } else {
        compressed as i64 + 1
    };
    proof {
        lemma_fundamental_div_mod(anchor as int, 256);
    }
    if anchor < -8388608 || anchor >= 8388608 {
        None
    } else {
        Some(position(anchor as i32).0)
    }
}

/// A lower tick has no higher compressed index.
pub proof fn lemma_compress_is_monotonic(low: int, high: int, spacing: int)
    requires
        spacing > 0,
        low <= high,
    ensures
        compressed_tick(low, spacing) <= compressed_tick(high, spacing),
{
    lemma_floor_division(low, spacing);
    lemma_floor_division(high, spacing);
    let (a, b) = (compressed_tick(low, spacing), compressed_tick(high, spacing));
    if a > b {
        assert(a * spacing >= b * spacing + spacing) by (nonlinear_arith)
            requires
                a >= b + 1,
                spacing > 0,
        ;
    }
}

/// A set bit found downward lies at or below where the search began, and no
/// bit between the two is set.
pub proof fn lemma_highest_set_bit(word: nat, from: int)
    requires
        from <= 255,
    ensures
        match highest_set_bit(word, from) {
            Some(bit) => 0 <= bit <= from && bit_is_set(word, bit as nat) && forall|k: nat|
                bit < k <= from ==> !bit_is_set(word, k),
            None => forall|k: nat| k <= from ==> !bit_is_set(word, k),
        },
    decreases from + 1,
{
    if from >= 0 && !bit_is_set(word, from as nat) {
        lemma_highest_set_bit(word, from - 1);
    }
}

/// A set bit found upward lies at or above where the search began, and no
/// bit between the two is set.
pub proof fn lemma_lowest_set_bit(word: nat, from: int)
    requires
        0 <= from,
    ensures
        match lowest_set_bit(word, from) {
            Some(bit) => from <= bit <= 255 && bit_is_set(word, bit as nat) && forall|k: nat|
                from <= k < bit ==> !bit_is_set(word, k),
            None => forall|k: nat| from <= k <= 255 ==> !bit_is_set(word, k),
        },
    decreases 256 - from,
{
    if from <= 255 && !bit_is_set(word, from as nat) {
        lemma_lowest_set_bit(word, from + 1);
    }
}

/// The next tick within a word lies at or below the tick when searching
/// downward, and above it when searching upward.
pub proof fn lemma_next_in_word_direction(word: nat, tick: int, spacing: int, lte: bool)
    requires
        spacing > 0,
    ensures
        lte ==> next_in_word(word, tick, spacing, lte).0 <= tick,
        !lte ==> next_in_word(word, tick, spacing, lte).0 > tick,
{
    let anchor = search_anchor(tick, spacing, lte);
    let first = anchor - bit_index(anchor);
    lemma_floor_division(tick, spacing);
    lemma_fundamental_div_mod(anchor, 256);
    let c = compressed_tick(tick, spacing);
    if lte {
        lemma_highest_set_bit(word, bit_index(anchor));
        let index = match highest_set_bit(word, bit_index(anchor)) {
            Some(bit) => first + bit,
            None => first,
        };
        assert(index * spacing <= c * spacing) by (nonlinear_arith)
            requires
                index <= c,
                spacing > 0,
        ;
    } else {
        lemma_lowest_set_bit(word, bit_index(anchor));
        let index = match lowest_set_bit(word, bit_index(anchor)) {
            Some(bit) => first + bit,
            None => first + 255,
        };
        assert(index * spacing >= c * spacing + spacing) by (nonlinear_arith)
            requires
                index >= c + 1,
                spacing > 0,
        ;
    }
}

/// An upward search from the greatest compressed index ends outside 32 bits.
proof fn lemma_top_anchor_is_out_of_bounds(word: nat, tick: int, spacing: int)
    requires
        spacing > 0,
        tick <= i32::MAX,
        compressed_tick(tick, spacing) == i32::MAX,
    ensures
        next_in_word(word, tick, spacing, false).0 > i32::MAX,
{
    lemma_next_in_word_direction(word, tick, spacing, false);
    lemma_floor_division(tick, spacing);
    assert(spacing == 1) by (nonlinear_arith)
        requires
            0x7fff_ffff * spacing <= tick,
            tick <= 0x7fff_ffff,
            spacing > 0,
    ;
}

/// The quotient by a positive divisor is the floor: it brackets the dividend.
pub proof fn lemma_floor_division(tick: int, spacing: int)
    requires
        spacing > 0,
    ensures
        compressed_tick(tick, spacing) * spacing <= tick < compressed_tick(tick, spacing) * spacing
            + spacing,
{
    lemma_fundamental_div_mod(tick, spacing);
    assert(spacing * (tick / spacing) == (tick / spacing) * spacing) by (nonlinear_arith);
}

/// A multiple of 65536 strictly between -65536 and 65536 is zero.
proof fn lemma_small_multiple(d: int)
    requires
        -65536 < d < 65536,
        d % 65536 == 0,
    ensures
        d == 0,
{
    lemma_fundamental_div_mod(d, 65536);
}

} // verus!
