//! The bitmap words read so far, and the search for the next initialized
//! tick across them.

use crate::tick_bitmap::{
    bit_index, compress, compressed_tick, highest_set_bit, highest_set_bit_from,
    lemma_compress_is_monotonic, lemma_floor_division, lemma_highest_set_bit,
    lemma_lowest_set_bit, lowest_set_bit, lowest_set_bit_from, next_in_word,
    next_initialized_tick_within_one_word, position, search_anchor, tick_at_index, word_index,
    word_to_search,
};
use crate::tick_math::{MAX_TICK, MIN_TICK};
use crate::u256::{bit_is_set, U256};
use std::collections::HashMap;
use vstd::arithmetic::div_mod::{lemma_fundamental_div_mod, lemma_fundamental_div_mod_converse};
use vstd::prelude::*;

verus! {

/// The bitmap words that have been read so far, by their index.
#[derive(Clone, Debug)]
pub struct TickBitmap {
    pub words: HashMap<i16, U256>,
}

/// How a search for the next initialized tick ended.
#[derive(Clone, Copy, Debug, PartialEq, Eq, Hash, Structural)]
pub enum TickSearch {
    /// The next initialized tick.
    Found(i32),
    /// The search reached a word that has not been read; the word's index.
    Missing(i16),
    /// No tick between the start and the tick bound is initialized.
    Exhausted,
}

/// What to do next when listing the ticks that a trade meets, one bitmap word
/// at a time.
#[derive(Clone, Copy, Debug, PartialEq, Eq, Hash, Structural)]
pub enum BatchStep {
    /// Read the bitmap word with this index, then ask again.
    ReadWord(i16),
    /// The next entry: a tick, and whether it is initialized.
    Entry(i32, bool),
    /// The ticks that 32 bits can hold are used up.
    End,
}

/// The next entry of a tick batch from `tick`, as far as the words read so
/// far tell.
pub open spec fn batch_step(words: Map<i16, U256>, tick: int, spacing: int, zero_for_one: bool)
    -> BatchStep {
    let word = word_index(search_anchor(tick, spacing, zero_for_one));
    if !(i16::MIN <= word <= i16::MAX) {
        BatchStep::End
    } else if !words.contains_key(word as i16) {
        BatchStep::ReadWord(word as i16)
    } else {
        let next = next_in_word(words[word as i16]@, tick, spacing, zero_for_one);
        if i32::MIN <= next.0 <= i32::MAX {
            BatchStep::Entry(next.0 as i32, next.1)
        } else {
            BatchStep::End
        }
    }
}

/// The word that holds the least tick in bounds.
pub open spec fn lowest_word(spacing: int) -> int {
    word_index(compressed_tick(MIN_TICK as int, spacing))
}

/// The word that holds the greatest tick in bounds.
pub open spec fn highest_word(spacing: int) -> int {
    word_index(compressed_tick(MAX_TICK as int, spacing))
}

/// A tick that was found, if it lies inside the tick bounds.
pub open spec fn found_in_bounds(tick: int) -> TickSearch {
    if MIN_TICK <= tick <= MAX_TICK {
        TickSearch::Found(tick as i32)
    } else {
        TickSearch::Exhausted
    }
}

/// The search downward through the words from bit `from_bit` of word `w`.
pub open spec fn scan_down(words: Map<i16, U256>, w: int, from_bit: int, spacing: int)
    -> TickSearch
    decreases w - lowest_word(spacing) + 1,
{
    if w < lowest_word(spacing) || w < i16::MIN {
        TickSearch::Exhausted
    } else if !words.contains_key(w as i16) {
        TickSearch::Missing(w as i16)
    } else {
        match highest_set_bit(words[w as i16]@, from_bit) {
            Some(bit) => found_in_bounds((256 * w + bit) * spacing),
            None => scan_down(words, w - 1, 255, spacing),
        }
    }
}

/// The search upward through the words from bit `from_bit` of word `w`.
pub open spec fn scan_up(words: Map<i16, U256>, w: int, from_bit: int, spacing: int) -> TickSearch
    decreases highest_word(spacing) - w + 1,
{
    if w > highest_word(spacing) || w > i16::MAX {
        TickSearch::Exhausted
    } else if !words.contains_key(w as i16) {
        TickSearch::Missing(w as i16)
    } else {
        match lowest_set_bit(words[w as i16]@, from_bit) {
            Some(bit) => found_in_bounds((256 * w + bit) * spacing),
            None => scan_up(words, w + 1, 0, spacing),
        }
    }
}

/// The next initialized tick from `from_tick`: at or below it when
/// `zero_for_one`, above it otherwise, and inside the tick bounds.
pub open spec fn next_initialized(
    words: Map<i16, U256>,
    from_tick: int,
    spacing: int,
    zero_for_one: bool,
) -> TickSearch {
    if zero_for_one {
        if from_tick < MIN_TICK {
            TickSearch::Exhausted
        } else {
            let start = if from_tick > MAX_TICK {
                MAX_TICK as int
            } else {
                from_tick
            };
            let anchor = compressed_tick(start, spacing);
            scan_down(words, word_index(anchor), bit_index(anchor), spacing)
        }
    } else if from_tick >= MAX_TICK {
        TickSearch::Exhausted
    } else {
        let start = if from_tick < MIN_TICK {
            MIN_TICK - 1
        } else {
            from_tick
        };
        let anchor = compressed_tick(start, spacing) + 1;
        scan_up(words, word_index(anchor), bit_index(anchor), spacing)
    }
}

impl TickBitmap {
    /// The words read so far.
    pub open spec fn view(&self) -> Map<i16, U256> {
        self.words@
    }

    /// A bitmap of which no word has been read.
    pub fn new() -> (r: TickBitmap)
        ensures
            r@ == Map::<i16, U256>::empty(),
    {
        TickBitmap { words: HashMap::new() }
    }

    /// Records the word at `word_pos`, in place of any read before.
    pub fn insert_word(&mut self, word_pos: i16, word: U256)
        ensures
            final(self)@ == old(self)@.insert(word_pos, word),
    {
        broadcast use vstd::std_specs::hash::group_hash_axioms;

        self.words.insert(word_pos, word);
    }

    /// The word at `word_pos`, if it has been read.
    pub fn word(&self, word_pos: i16) -> (r: Option<U256>)
        ensures
            match r {
                Some(word) => self@.contains_key(word_pos) && self@[word_pos] == word,
                None => !self@.contains_key(word_pos),
            },
    {
        broadcast use vstd::std_specs::hash::group_hash_axioms;

        match self.words.get(&word_pos) {
            Some(word) => Some(*word),
            None => None,
        }
    }

    /// The next entry of a tick batch from `tick`: the next tick within the
    /// bitmap word of `tick`, initialized or not, or the word to read first.
    pub fn next_entry(&self, tick: i32, tick_spacing: i32, zero_for_one: bool) -> (r: BatchStep)
        requires
            tick_spacing > 0,
        ensures
            r == batch_step(self@, tick as int, tick_spacing as int, zero_for_one),
    {
        let word_position = match word_to_search(tick, tick_spacing, zero_for_one) {
            Some(position) => position,
            None => {
                return BatchStep::End;
            },
        };
        let word = match self.word(word_position) {
            Some(word) => word,
            None => {
                return BatchStep::ReadWord(word_position);
            },
        };
        match next_initialized_tick_within_one_word(&word, tick, tick_spacing, zero_for_one) {
            Ok((next, initialized)) => BatchStep::Entry(next, initialized),
            Err(_) => BatchStep::End,
        }
    }

    /// Searches the words, one at a time from the one that holds `from_tick`,
    /// for the next initialized tick in the direction of the trade.
    pub fn next_initialized_tick(&self, from_tick: i32, tick_spacing: i32, zero_for_one: bool) -> (r:
        TickSearch)
        requires
            tick_spacing > 0,
        ensures
            r == next_initialized(self@, from_tick as int, tick_spacing as int, zero_for_one),
    {
        proof {
            lemma_bounds_compress_inward(tick_spacing as int);
        }
        if zero_for_one {
            if from_tick < MIN_TICK {
                return TickSearch::Exhausted;
            }
            let start: i32 = if from_tick > MAX_TICK {
                MAX_TICK
            } else {
                from_tick
            };
            let anchor = compress(start, tick_spacing);
            proof {
                lemma_compress_is_monotonic(MIN_TICK as int, start as int, tick_spacing as int);
                lemma_compress_is_monotonic(start as int, MAX_TICK as int, tick_spacing as int);
            }
            let (lowest, _) = position(compress(MIN_TICK, tick_spacing));
            let (w0, b0) = position(anchor);
            let mut w: i16 = w0;
            let mut bit: u8 = b0;
            loop
                invariant
                    tick_spacing > 0,
                    lowest == lowest_word(tick_spacing as int),
                    -3467 <= lowest,
                    lowest - 1 <= w <= 3466,
                    next_initialized(self@, from_tick as int, tick_spacing as int, zero_for_one)
                        == scan_down(self@, w as int, bit as int, tick_spacing as int),
                decreases w - lowest + 1,
            {
                if w < lowest {
                    return TickSearch::Exhausted;
                }
                let word = match self.word(w) {
                    Some(word) => word,
                    None => {
                        return TickSearch::Missing(w);
                    },
                };
                match highest_set_bit_from(&word, bit) {
                    Some(found) => {
                        return in_bounds(tick_at_index(256 * (w as i64), found, tick_spacing));
                    },
                    None => {
                        w -= 1;
                        bit = 255;
                    },
                }
            }
        } else {
            if from_tick >= MAX_TICK {
                return TickSearch::Exhausted;
            }
            let start: i32 = if from_tick < MIN_TICK {
                MIN_TICK - 1
            } else {
                from_tick
            };
            proof {
                lemma_compress_is_monotonic(
                    MIN_TICK as int - 1,
                    start as int,
                    tick_spacing as int,
                );
                lemma_compress_is_monotonic(start as int, MAX_TICK as int, tick_spacing as int);
                lemma_compress_is_monotonic(
                    MIN_TICK as int - 1,
                    MIN_TICK as int,
                    tick_spacing as int,
                );
                lemma_floor_division(MIN_TICK as int - 1, tick_spacing as int);
                lemma_floor_division(MIN_TICK as int, tick_spacing as int);
            }
            let anchor = compress(start, tick_spacing) + 1;
            let (highest, _) = position(compress(MAX_TICK, tick_spacing));
            let (w0, b0) = position(anchor);
            let mut w: i16 = w0;
            let mut bit: u8 = b0;
            loop
                invariant
                    tick_spacing > 0,
                    highest == highest_word(tick_spacing as int),
                    highest <= 3466,
                    -3467 <= w <= highest + 1,
                    next_initialized(self@, from_tick as int, tick_spacing as int, zero_for_one)
                        == scan_up(self@, w as int, bit as int, tick_spacing as int),
                decreases highest - w + 1,
            {
                if w > highest {
                    return TickSearch::Exhausted;
                }
                let word = match self.word(w) {
                    Some(word) => word,
                    None => {
                        return TickSearch::Missing(w);
                    },
                };
                match lowest_set_bit_from(&word, bit) {
                    Some(found) => {
                        return in_bounds(tick_at_index(256 * (w as i64), found, tick_spacing));
                    },
                    None => {
                        w += 1;
                        bit = 0;
                    },
                }
            }
        }
    }
}

/// A tick that was found, if it exists and lies inside the tick bounds.
fn in_bounds(tick: Option<i32>) -> (r: TickSearch)
    ensures
        r == match tick {
            Some(t) => found_in_bounds(t as int),
            None => TickSearch::Exhausted,
        },
{
    match tick {
        Some(t) => if t < MIN_TICK || t > MAX_TICK {
            TickSearch::Exhausted
        } else {
            TickSearch::Found(t)
        },
        None => TickSearch::Exhausted,
    }
}

/// The compressed indices of the tick bounds lie inside the tick bounds, so
/// their words fit sixteen bits with room to spare.
proof fn lemma_bounds_compress_inward(spacing: int)
    requires
        spacing > 0,
    ensures
        MIN_TICK - 1 <= compressed_tick(MIN_TICK as int - 1, spacing),
        MIN_TICK <= compressed_tick(MIN_TICK as int, spacing) <= 0,
        0 <= compressed_tick(MAX_TICK as int, spacing) <= MAX_TICK,
        -3467 <= lowest_word(spacing) <= 0,
        0 <= highest_word(spacing) <= 3466,
{
    lemma_floor_division(MIN_TICK as int, spacing);
    lemma_floor_division(MIN_TICK as int - 1, spacing);
    lemma_floor_division(MAX_TICK as int, spacing);
    let lo = compressed_tick(MIN_TICK as int, spacing);
    let lo1 = compressed_tick(MIN_TICK as int - 1, spacing);
    let hi = compressed_tick(MAX_TICK as int, spacing);
    assert(lo >= MIN_TICK && lo < 0) by (nonlinear_arith)
        requires
            lo * spacing <= MIN_TICK < lo * spacing + spacing,
            spacing > 0,
            MIN_TICK == -887272,
    ;
    assert(lo1 >= MIN_TICK - 1) by (nonlinear_arith)
        requires
            lo1 * spacing <= MIN_TICK - 1 < lo1 * spacing + spacing,
            spacing > 0,
            MIN_TICK == -887272,
    ;
    assert(0 <= hi <= MAX_TICK) by (nonlinear_arith)
        requires
            hi * spacing <= MAX_TICK < hi * spacing + spacing,
            spacing > 0,
            MAX_TICK == 887272,
    ;
    lemma_fundamental_div_mod(lo, 256);
    lemma_fundamental_div_mod(hi, 256);
}

/// Whether the bit of a compressed index is set in the words read so far.
pub open spec fn index_initialized(words: Map<i16, U256>, index: int) -> bool {
    let w = word_index(index);
    i16::MIN <= w <= i16::MAX && words.contains_key(w as i16) && bit_is_set(
        words[w as i16]@,
        bit_index(index) as nat,
    )
}

/// Whether the tick at a compressed index lies inside the tick bounds.
pub open spec fn index_in_bounds(index: int, spacing: int) -> bool {
    MIN_TICK <= index * spacing <= MAX_TICK
}

/// Whether the words read so far show `tick` as initialized. Only a multiple
/// of the spacing can be.
pub open spec fn tick_initialized(words: Map<i16, U256>, tick: int, spacing: int) -> bool {
    tick % spacing == 0 && index_initialized(words, tick / spacing)
}

/// What a downward scan from bit `from_bit` of word `w` has seen: the index
/// it found is set and every index above it, up to the start, is clear.
proof fn lemma_scan_down(words: Map<i16, U256>, w: int, from_bit: int, spacing: int)
    requires
        spacing > 0,
        0 <= from_bit <= 255,
        (256 * w + from_bit) * spacing <= MAX_TICK,
    ensures
        match scan_down(words, w, from_bit, spacing) {
            TickSearch::Found(t) => {
                &&& t as int % spacing == 0
                &&& MIN_TICK <= t <= MAX_TICK
                &&& t as int / spacing <= 256 * w + from_bit
                &&& index_initialized(words, t as int / spacing)
                &&& forall|i: int|
                    t as int / spacing < i <= 256 * w + from_bit ==> !index_initialized(words, i)
            },
            TickSearch::Exhausted => forall|i: int|
                i <= 256 * w + from_bit && index_in_bounds(i, spacing) ==> !index_initialized(
                    words,
                    i,
                ),
            TickSearch::Missing(m) => !words.contains_key(m),
        },
    decreases w - lowest_word(spacing) + 1,
{
    lemma_bounds_compress_inward(spacing);
    let low = compressed_tick(MIN_TICK as int, spacing);
    lemma_floor_division(MIN_TICK as int, spacing);
    lemma_fundamental_div_mod(low, 256);
    let top = 256 * w + from_bit;
    assert(top <= MAX_TICK) by (nonlinear_arith)
        requires
            top * spacing <= MAX_TICK,
            spacing > 0,
            MAX_TICK > 0,
    ;
    if w < lowest_word(spacing) || w < i16::MIN {
        assert forall|i: int| i <= top && index_in_bounds(i, spacing) implies !index_initialized(
            words,
            i,
        ) by {
            assert(i * spacing < MIN_TICK) by (nonlinear_arith)
                requires
                    i < low,
                    low * spacing <= MIN_TICK,
                    spacing > 0,
            ;
        }
    } else if words.contains_key(w as i16) {
        let word = words[w as i16]@;
        lemma_highest_set_bit(word, from_bit);
        match highest_set_bit(word, from_bit) {
            Some(bit) => {
                let found = 256 * w + bit;
                let t = found * spacing;
                lemma_index_of_tick(found, spacing);
                lemma_fundamental_div_mod_converse(found, 256, w, bit);
                assert(t <= MAX_TICK) by (nonlinear_arith)
                    requires
                        t == found * spacing,
                        found <= top,
                        top * spacing <= MAX_TICK,
                        spacing > 0,
                ;
                assert forall|i: int| found < i <= top implies !index_initialized(words, i) by {
                    lemma_fundamental_div_mod_converse(i, 256, w, i - 256 * w);
                    assert(!bit_is_set(word, (i - 256 * w) as nat));
                }
                if t < MIN_TICK {
                    assert forall|i: int|
                        i <= top && index_in_bounds(i, spacing) implies !index_initialized(
                        words,
                        i,
                    ) by {
                        if i <= found {
                            assert(i * spacing <= t) by (nonlinear_arith)
                                requires
                                    i <= found,
                                    t == found * spacing,
                                    spacing > 0,
                            ;
                        }
                    }
                }
            },
            None => {
                assert((256 * (w - 1) + 255) * spacing <= MAX_TICK) by (nonlinear_arith)
                    requires
                        (256 * w + from_bit) * spacing <= MAX_TICK,
                        from_bit >= 0,
                        spacing > 0,
                ;
                lemma_scan_down(words, w - 1, 255, spacing);
                let rest = scan_down(words, w - 1, 255, spacing);
                assert forall|i: int| 256 * w <= i <= top implies !index_initialized(words, i) by {
                    lemma_fundamental_div_mod_converse(i, 256, w, i - 256 * w);
                    assert(!bit_is_set(word, (i - 256 * w) as nat));
                }
            },
        }
    }
}

/// What an upward scan from bit `from_bit` of word `w` has seen: the index
/// it found is set and every index below it, down to the start, is clear.
proof fn lemma_scan_up(words: Map<i16, U256>, w: int, from_bit: int, spacing: int)
    requires
        spacing > 0,
        0 <= from_bit <= 255,
        MIN_TICK <= (256 * w + from_bit) * spacing,
    ensures
        match scan_up(words, w, from_bit, spacing) {
            TickSearch::Found(t) => {
                &&& t as int % spacing == 0
                &&& MIN_TICK <= t <= MAX_TICK
                &&& 256 * w + from_bit <= t as int / spacing
                &&& index_initialized(words, t as int / spacing)
                &&& forall|i: int|
                    256 * w + from_bit <= i < t as int / spacing ==> !index_initialized(words, i)
            },
            TickSearch::Exhausted => forall|i: int|
                256 * w + from_bit <= i && index_in_bounds(i, spacing) ==> !index_initialized(
                    words,
                    i,
                ),
            TickSearch::Missing(m) => !words.contains_key(m),
        },
    decreases highest_word(spacing) - w + 1,
{
    lemma_bounds_compress_inward(spacing);
    let high = compressed_tick(MAX_TICK as int, spacing);
    lemma_floor_division(MAX_TICK as int, spacing);
    lemma_fundamental_div_mod(high, 256);
    let bottom = 256 * w + from_bit;
    assert(bottom >= MIN_TICK) by (nonlinear_arith)
        requires
            MIN_TICK <= bottom * spacing,
            spacing > 0,
            MIN_TICK < 0,
    ;
    if w > highest_word(spacing) || w > i16::MAX {
        assert forall|i: int|
            bottom <= i && index_in_bounds(i, spacing) implies !index_initialized(words, i) by {
            assert(i * spacing > MAX_TICK) by (nonlinear_arith)
                requires
                    i >= high + 1,
                    MAX_TICK < high * spacing + spacing,
                    spacing > 0,
            ;
        }
    } else if words.contains_key(w as i16) {
        let word = words[w as i16]@;
        lemma_lowest_set_bit(word, from_bit);
        match lowest_set_bit(word, from_bit) {
            Some(bit) => {
                let found = 256 * w + bit;
                let t = found * spacing;
                lemma_index_of_tick(found, spacing);
                lemma_fundamental_div_mod_converse(found, 256, w, bit);
                assert(t >= MIN_TICK) by (nonlinear_arith)
                    requires
                        t == found * spacing,
                        found >= bottom,
                        bottom * spacing >= MIN_TICK,
                        spacing > 0,
                ;
                assert forall|i: int| bottom <= i < found implies !index_initialized(words, i) by {
                    lemma_fundamental_div_mod_converse(i, 256, w, i - 256 * w);
                    assert(!bit_is_set(word, (i - 256 * w) as nat));
                }
                if t > MAX_TICK {
                    assert forall|i: int|
                        bottom <= i && index_in_bounds(i, spacing) implies !index_initialized(
                        words,
                        i,
                    ) by {
                        if i >= found {
                            assert(i * spacing >= t) by (nonlinear_arith)
                                requires
                                    i >= found,
                                    t == found * spacing,
                                    spacing > 0,
                            ;
                        }
                    }
                }
            },
            None => {
                assert(MIN_TICK <= (256 * (w + 1) + 0) * spacing) by (nonlinear_arith)
                    requires
                        MIN_TICK <= (256 * w + from_bit) * spacing,
                        from_bit <= 255,
                        spacing > 0,
                ;
                lemma_scan_up(words, w + 1, 0, spacing);
                assert forall|i: int|
                    bottom <= i <= 256 * w + 255 implies !index_initialized(words, i) by {
                    lemma_fundamental_div_mod_converse(i, 256, w, i - 256 * w);
                    assert(!bit_is_set(word, (i - 256 * w) as nat));
                }
            },
        }
    }
}

/// A multiple of the spacing is the tick of its quotient.
proof fn lemma_index_of_tick(index: int, spacing: int)
    requires
        spacing > 0,
    ensures
        (index * spacing) % spacing == 0,
        (index * spacing) / spacing == index,
{
    lemma_fundamental_div_mod_converse(index * spacing, spacing, index, 0);
}

/// The search finds the nearest initialized tick in its direction: the tick
/// it returns is initialized and in bounds, and no tick between the start
/// and it is; where it returns none, no tick in bounds beyond the start is
/// initialized; where it stops at a word, that word has not been read.
pub proof fn lemma_next_initialized_is_nearest(
    words: Map<i16, U256>,
    from_tick: int,
    spacing: int,
    zero_for_one: bool,
)
    requires
        spacing > 0,
    ensures
        match next_initialized(words, from_tick, spacing, zero_for_one) {
            TickSearch::Found(t) => {
                &&& MIN_TICK <= t <= MAX_TICK
                &&& tick_initialized(words, t as int, spacing)
                &&& zero_for_one ==> t <= from_tick
                &&& !zero_for_one ==> t > from_tick
                &&& forall|u: int|
                    MIN_TICK <= u <= MAX_TICK && #[trigger] tick_initialized(words, u, spacing)
                        ==> if zero_for_one {
                        u <= t || u > from_tick
                    } else {
                        u >= t || u <= from_tick
                    }
            },
            TickSearch::Exhausted => forall|u: int|
                MIN_TICK <= u <= MAX_TICK && #[trigger] tick_initialized(words, u, spacing)
                    ==> if zero_for_one {
                    u > from_tick
                } else {
                    u <= from_tick
                },
            TickSearch::Missing(m) => !words.contains_key(m),
        },
{
    lemma_bounds_compress_inward(spacing);
    if zero_for_one {
        if from_tick >= MIN_TICK {
            let start = if from_tick > MAX_TICK {
                MAX_TICK as int
            } else {
                from_tick
            };
            let anchor = compressed_tick(start, spacing);
            lemma_floor_division(start, spacing);
            lemma_fundamental_div_mod(anchor, 256);
            let (w, b) = (word_index(anchor), bit_index(anchor));
            assert(256 * w + b == anchor);
            lemma_scan_down(words, w, b, spacing);
            match scan_down(words, w, b, spacing) {
                TickSearch::Found(t) => {
                    let found = t as int / spacing;
                    lemma_fundamental_div_mod(t as int, spacing);
                    assert(t <= start) by (nonlinear_arith)
                        requires
                            t == spacing * found,
                            found <= anchor,
                            anchor * spacing <= start,
                            spacing > 0,
                    ;
                    assert forall|u: int|
                        MIN_TICK <= u <= MAX_TICK && #[trigger] tick_initialized(
                            words,
                            u,
                            spacing,
                        ) implies u <= t || u > from_tick by {
                        if t < u <= from_tick {
                            lemma_multiples_between(t as int, u, start, spacing);
                        }
                    }
                },
                TickSearch::Exhausted => {
                    assert forall|u: int|
                        MIN_TICK <= u <= MAX_TICK && #[trigger] tick_initialized(
                            words,
                            u,
                            spacing,
                        ) implies u > from_tick by {
                        if u <= from_tick {
                            lemma_fundamental_div_mod(u, spacing);
                            lemma_compress_is_monotonic(u, start, spacing);
                            assert((u / spacing) * spacing == u) by (nonlinear_arith)
                                requires
                                    u == spacing * (u / spacing) + u % spacing,
                                    u % spacing == 0,
                            ;
                            assert(index_in_bounds(u / spacing, spacing));
                        }
                    }
                },
                TickSearch::Missing(m) => {},
            }
        } else {
            assert forall|u: int|
                MIN_TICK <= u <= MAX_TICK && #[trigger] tick_initialized(
                    words,
                    u,
                    spacing,
                ) implies u > from_tick by {}
        }
    } else if from_tick < MAX_TICK {
        let start = if from_tick < MIN_TICK {
            MIN_TICK - 1
        } else {
            from_tick
        };
        let anchor = compressed_tick(start, spacing) + 1;
        lemma_floor_division(start, spacing);
        lemma_fundamental_div_mod(anchor, 256);
        let (w, b) = (word_index(anchor), bit_index(anchor));
        assert(256 * w + b == anchor);
        assert(anchor * spacing > start) by (nonlinear_arith)
            requires
                start < (anchor - 1) * spacing + spacing,
        ;
        lemma_scan_up(words, w, b, spacing);
        match scan_up(words, w, b, spacing) {
            TickSearch::Found(t) => {
                let found = t as int / spacing;
                lemma_fundamental_div_mod(t as int, spacing);
                assert(t > start) by (nonlinear_arith)
                    requires
                        t == spacing * found,
                        found >= anchor,
                        anchor * spacing > start,
                        spacing > 0,
                ;
                assert forall|u: int|
                    MIN_TICK <= u <= MAX_TICK && #[trigger] tick_initialized(
                        words,
                        u,
                        spacing,
                    ) implies u >= t || u <= from_tick by {
                    if from_tick < u < t {
                        lemma_fundamental_div_mod(u, spacing);
                        lemma_compress_is_monotonic(start, u, spacing);
                        lemma_compress_is_monotonic(u, t as int, spacing);
                        let i = u / spacing;
                        assert(i * spacing == u) by (nonlinear_arith)
                            requires
                                u == spacing * i + u % spacing,
                                u % spacing == 0,
                        ;
                        assert(i != anchor - 1) by (nonlinear_arith)
                            requires
                                i * spacing == u,
                                u > start,
                                (anchor - 1) * spacing <= start,
                        ;
                        assert(i != found) by (nonlinear_arith)
                            requires
                                i * spacing == u,
                                u < t,
                                t == spacing * found,
                        ;
                    }
                }
            },
            TickSearch::Exhausted => {
                assert forall|u: int|
                    MIN_TICK <= u <= MAX_TICK && #[trigger] tick_initialized(
                        words,
                        u,
                        spacing,
                    ) implies u <= from_tick by {
                    if u > from_tick {
                        lemma_fundamental_div_mod(u, spacing);
                        lemma_compress_is_monotonic(start, u, spacing);
                        let i = u / spacing;
                        assert(i * spacing == u) by (nonlinear_arith)
                            requires
                                u == spacing * i + u % spacing,
                                u % spacing == 0,
                        ;
                        assert(i != anchor - 1) by (nonlinear_arith)
                            requires
                                i * spacing == u,
                                u > start,
                                (anchor - 1) * spacing <= start,
                        ;
                        assert(index_in_bounds(i, spacing));
                    }
                }
            },
            TickSearch::Missing(m) => {},
        }
    } else {
        assert forall|u: int|
            MIN_TICK <= u <= MAX_TICK && #[trigger] tick_initialized(
                words,
                u,
                spacing,
            ) implies u <= from_tick by {}
    }
}

/// A multiple of the spacing strictly above `t` and at most `start` has its
/// compressed index strictly above that of `t` and at most that of `start`.
proof fn lemma_multiples_between(t: int, u: int, start: int, spacing: int)
    requires
        spacing > 0,
        t % spacing == 0,
        u % spacing == 0,
        t < u <= start,
    ensures
        t / spacing < u / spacing <= start / spacing,
        (u / spacing) * spacing == u,
{
    lemma_fundamental_div_mod(t, spacing);
    lemma_fundamental_div_mod(u, spacing);
    lemma_compress_is_monotonic(u, start, spacing);
    let (a, b) = (t / spacing, u / spacing);
    assert(a < b) by (nonlinear_arith)
        requires
            t == spacing * a,
            u == spacing * b,
            t < u,
            spacing > 0,
    ;
    assert(b * spacing == u) by (nonlinear_arith)
        requires
            u == spacing * b,
    ;
}

} // verus!
