//! Unsigned 256-bit integers held as four 64-bit limbs.

use vstd::arithmetic::div_mod::{
    lemma_div_denominator, lemma_fundamental_div_mod, lemma_fundamental_div_mod_converse,
    lemma_mod_multiples_vanish,
};
use vstd::arithmetic::power2::{lemma2_to64, lemma_pow2_adds, lemma_pow2_pos, pow2};
use vstd::bits::lemma_u64_shr_is_div;
use vstd::prelude::*;
use vstd::std_specs::cmp::PartialEqSpecImpl;

verus! {

/// 2^64, the weight of the second limb.
pub open spec fn pow64() -> nat {
    0x1_0000_0000_0000_0000nat
}

/// 2^128, the weight of the third limb.
pub open spec fn pow128() -> nat {
    0x1_0000_0000_0000_0000_0000_0000_0000_0000nat
}

/// 2^192, the weight of the fourth limb.
pub open spec fn pow192() -> nat {
    0x1_0000_0000_0000_0000_0000_0000_0000_0000_0000_0000_0000_0000nat
}

/// 2^256, one more than the largest value.
pub open spec fn pow256() -> nat {
    0x1_0000_0000_0000_0000_0000_0000_0000_0000_0000_0000_0000_0000_0000_0000_0000_0000nat
}

/// The number that four limbs stand for, least significant limb first.
pub open spec fn limbs_value(l0: u64, l1: u64, l2: u64, l3: u64) -> nat {
    (l0 as nat) + (l1 as nat) * pow64() + (l2 as nat) * pow128() + (l3 as nat) * pow192()
}

/// Whether the bit of weight `2^index` is set in `value`.
pub open spec fn bit_is_set(value: nat, index: nat) -> bool {
    (value / pow2(index)) % 2 == 1
}

/// An unsigned 256-bit integer; `self.0[0]` is the least significant limb.
#[derive(Clone, Copy, Debug, Eq, Hash)]
pub struct U256(pub [u64; 4]);

impl U256 {
    /// The number the limbs stand for.
    pub open spec fn view(&self) -> nat {
        limbs_value(self.0[0], self.0[1], self.0[2], self.0[3])
    }

    pub fn zero() -> (r: U256)
        ensures
            r@ == 0,
    {
        U256([0, 0, 0, 0])
    }

    pub fn one() -> (r: U256)
        ensures
            r@ == 1,
    {
        U256([1, 0, 0, 0])
    }

    /// The largest value, 2^256 - 1.
    pub fn max_value() -> (r: U256)
        ensures
            r@ == pow256() - 1,
    {
        U256([u64::MAX, u64::MAX, u64::MAX, u64::MAX])
    }

    pub fn from_u64(x: u64) -> (r: U256)
        ensures
            r@ == x,
    {
        U256([x, 0, 0, 0])
    }

    pub fn from_u128(x: u128) -> (r: U256)
        ensures
            r@ == x,
    {
        let lo: u64 = (x & 0xffff_ffff_ffff_ffff) as u64;
        let hi: u64 = (x >> 64) as u64;
        assert(x == (x & 0xffff_ffff_ffff_ffff) + (x >> 64) * 0x1_0000_0000_0000_0000) by (bit_vector);
        assert((x & 0xffff_ffff_ffff_ffff) <= 0xffff_ffff_ffff_ffff) by (bit_vector);
        assert((x >> 64) <= 0xffff_ffff_ffff_ffff) by (bit_vector);
        U256([lo, hi, 0, 0])
    }

    pub fn is_zero(&self) -> (r: bool)
        ensures
            r == (self@ == 0),
    {
        self.0[0] == 0 && self.0[1] == 0 && self.0[2] == 0 && self.0[3] == 0
    }

    /// The value as 128 bits, if it fits.
    pub fn to_u128(&self) -> (r: Option<u128>)
        ensures
            match r {
                Some(x) => x == self@,
                None => self@ > u128::MAX,
            },
    {
        if self.0[2] != 0 || self.0[3] != 0 {
            None
        } else {
            Some((self.0[1] as u128) * 0x1_0000_0000_0000_0000 + (self.0[0] as u128))
        }
    }

    /// The value as 32 bits, if it fits.
    pub fn to_u32(&self) -> (r: Option<u32>)
        ensures
            match r {
                Some(x) => x == self@,
                None => self@ > u32::MAX,
            },
    {
        if self.0[1] != 0 || self.0[2] != 0 || self.0[3] != 0 || self.0[0] > 0xffff_ffff {
            None
        } else {
            Some(self.0[0] as u32)
        }
    }

    /// Whether the bit of weight `2^index` is set.
    pub fn bit(&self, index: u8) -> (r: bool)
        ensures
            r == bit_is_set(self@, index as nat),
    {
        let limb: u64 = self.0[(index / 64) as usize];
        let shift: u64 = (index % 64) as u64;
        proof {
            lemma_bit_of_limb(*self, index as nat);
            lemma_u64_shr_is_div(limb, shift);
            let moved = limb >> shift;
            assert(moved & 1 == moved % 2) by (bit_vector);
        }
        (limb >> shift) & 1 == 1
    }

    /// Whether `self` is strictly below `other`.
    pub fn lt(&self, other: &U256) -> (r: bool)
        ensures
            r == (self@ < other@),
    {
        if self.0[3] != other.0[3] {
            self.0[3] < other.0[3]
        } else if self.0[2] != other.0[2] {
            self.0[2] < other.0[2]
        } else if self.0[1] != other.0[1] {
            self.0[1] < other.0[1]
        } else {
            self.0[0] < other.0[0]
        }
    }

    /// Whether `self` is strictly above `other`.
    pub fn gt(&self, other: &U256) -> (r: bool)
        ensures
            r == (self@ > other@),
    {
        other.lt(self)
    }

    /// Whether `self` is at most `other`.
    pub fn le(&self, other: &U256) -> (r: bool)
        ensures
            r == (self@ <= other@),
    {
        !other.lt(self)
    }

    /// Whether `self` is at least `other`.
    pub fn ge(&self, other: &U256) -> (r: bool)
        ensures
            r == (self@ >= other@),
    {
        !self.lt(other)
    }

    /// The sum modulo 2^256, and whether it wrapped.
    pub fn overflowing_add(self, other: U256) -> (r: (U256, bool))
        ensures
            r.1 == (self@ + other@ >= pow256()),
            r.0@ == (self@ + other@) % pow256(),
            r.0@ == self@ + other@ - (if r.1 { pow256() as int } else { 0 }),
    {
        let (s0, c0) = add_limb(self.0[0], other.0[0], false);
        let (s1, c1) = add_limb(self.0[1], other.0[1], c0);
        let (s2, c2) = add_limb(self.0[2], other.0[2], c1);
        let (s3, c3) = add_limb(self.0[3], other.0[3], c2);
        let sum = U256([s0, s1, s2, s3]);
        proof {
            let carry: int = if c3 { 1 } else { 0 };
            assert(sum@ + carry * pow256() == self@ + other@);
            lemma_value_bounds(sum);
            lemma_mod_shift((self@ + other@) as int, sum@ as int, carry);
        }
        (sum, c3)
    }

    /// The difference modulo 2^256, and whether it wrapped.
    pub fn overflowing_sub(self, other: U256) -> (r: (U256, bool))
        ensures
            r.1 == (self@ < other@),
            r.0@ == (self@ - other@) % (pow256() as int),
            r.0@ == self@ - other@ + (if r.1 { pow256() as int } else { 0 }),
    {
        let (d0, b0) = sub_limb(self.0[0], other.0[0], false);
        let (d1, b1) = sub_limb(self.0[1], other.0[1], b0);
        let (d2, b2) = sub_limb(self.0[2], other.0[2], b1);
        let (d3, b3) = sub_limb(self.0[3], other.0[3], b2);
        let diff = U256([d0, d1, d2, d3]);
        proof {
            let borrow: int = if b3 { 1 } else { 0 };
            assert(diff@ - borrow * pow256() == self@ - other@);
            lemma_value_bounds(diff);
            lemma_mod_shift(self@ - other@, diff@ as int, -borrow);
        }
        (diff, b3)
    }
}

impl PartialEq for U256 {
    fn eq(&self, other: &U256) -> (r: bool) {
        let r = self.0[0] == other.0[0] && self.0[1] == other.0[1] && self.0[2] == other.0[2]
            && self.0[3] == other.0[3];
        proof {
            if r {
                assert(self.0 =~= other.0);
            }
        }
        r
    }
}

impl PartialEqSpecImpl for U256 {
    open spec fn obeys_eq_spec() -> bool {
        true
    }

    open spec fn eq_spec(&self, other: &U256) -> bool {
        *self == *other
    }
}

impl Default for U256 {
    fn default() -> (r: U256)
        ensures
            r@ == 0,
    {
        U256::zero()
    }
}

/// One limb of an addition: the low 64 bits of `a + b + carry` and the carry out.
fn add_limb(a: u64, b: u64, carry: bool) -> (r: (u64, bool))
    ensures
        r.0 + (if r.1 { pow64() as int } else { 0 }) == a + b + (if carry { 1int } else { 0 }),
{
    let c: u128 = if carry { 1 } else { 0 };
    let s: u128 = a as u128 + b as u128 + c;
    if s > 0xffff_ffff_ffff_ffff {
        ((s - 0x1_0000_0000_0000_0000) as u64, true)
    } else {
        (s as u64, false)
    }
}

/// One limb of a subtraction: the low 64 bits of `a - b - borrow` and the borrow out.
fn sub_limb(a: u64, b: u64, borrow: bool) -> (r: (u64, bool))
    ensures
        r.0 - (if r.1 { pow64() as int } else { 0 }) == a - b - (if borrow { 1int } else { 0 }),
{
    let c: u128 = if borrow { 1 } else { 0 };
    let take: u128 = b as u128 + c;
    if (a as u128) < take {
        ((a as u128 + 0x1_0000_0000_0000_0000 - take) as u64, true)
    } else {
        ((a as u128 - take) as u64, false)
    }
}

/// Every value is below 2^256.
pub proof fn lemma_value_bounds(x: U256)
    ensures
        x@ < pow256(),
{
}

/// Two values with the same number have the same limbs.
pub proof fn lemma_value_injective(a: U256, b: U256)
    requires
        a@ == b@,
    ensures
        a == b,
{
    assert(a.0[0] == b.0[0] && a.0[1] == b.0[1] && a.0[2] == b.0[2] && a.0[3] == b.0[3]);
    assert(a.0 =~= b.0);
}

/// The weights of the limbs are powers of two.
pub proof fn lemma_limb_weights()
    ensures
        pow64() == pow2(64),
        pow128() == pow2(128),
        pow192() == pow2(192),
        pow256() == pow2(256),
{
    lemma2_to64();
    lemma_pow2_adds(64, 64);
    lemma_pow2_adds(128, 64);
    lemma_pow2_adds(192, 64);
}

/// A bit of a number made of a low part, one limb and a high part is a bit
/// of the limb, where the limb's weight is `2^e` and the bit's is `2^(e + j)`.
proof fn lemma_bit_of_parts(low: nat, limb: nat, high: nat, e: nat, j: nat)
    requires
        low < pow2(e),
        j < 64,
    ensures
        bit_is_set(low + limb * pow2(e) + high * pow2(e) * pow2(64), e + j) == bit_is_set(limb, j),
{
    let base = pow2(e) as int;
    let unit = pow2(j) as int;
    let rest = pow2((63 - j) as nat) as int;
    let v = (low + limb * pow2(e) + high * pow2(e) * pow2(64)) as int;
    let u = (limb + high * pow2(64)) as int;
    lemma_pow2_pos(e);
    lemma_pow2_pos(j);
    lemma_pow2_adds(e, j);
    lemma_pow2_adds(j, (64 - j) as nat);
    lemma_pow2_adds(1, (63 - j) as nat);
    lemma2_to64();
    assert(pow2(64) == unit * (2 * rest)) by (nonlinear_arith)
        requires
            pow2(64) == unit * pow2((64 - j) as nat),
            pow2((64 - j) as nat) == 2 * rest,
    ;
    assert(v == u * base + low) by (nonlinear_arith)
        requires
            v == low + limb * base + high * base * pow2(64),
            u == limb + high * pow2(64),
    ;
    lemma_fundamental_div_mod_converse(v, base, u, low as int);
    lemma_div_denominator(v, base, unit);
    assert(v / (pow2(e + j) as int) == u / unit);
    let q = (limb as int) / unit;
    let r = (limb as int) % unit;
    lemma_fundamental_div_mod(limb as int, unit);
    assert(u == (q + 2 * (high * rest)) * unit + r) by (nonlinear_arith)
        requires
            u == limb + high * pow2(64),
            pow2(64) == unit * (2 * rest),
            limb == unit * q + r,
    ;
    lemma_fundamental_div_mod_converse(u, unit, q + 2 * (high * rest), r);
    lemma_mod_multiples_vanish(high * rest, q, 2);
}

/// A bit of a 256-bit value is a bit of the limb that holds it.
pub proof fn lemma_bit_of_limb(x: U256, index: nat)
    requires
        index < 256,
    ensures
        bit_is_set(x@, index) == bit_is_set(x.0[index as int / 64] as nat, index % 64),
{
    lemma_limb_weights();
    lemma2_to64();
    let j = index % 64;
    let (l0, l1, l2, l3) = (x.0[0] as nat, x.0[1] as nat, x.0[2] as nat, x.0[3] as nat);
    if index < 64 {
        lemma_bit_of_parts(0, l0, l1 + l2 * pow64() + l3 * pow128(), 0, j);
        assert(x@ == 0 + l0 * pow2(0) + (l1 + l2 * pow64() + l3 * pow128()) * pow2(0) * pow2(64))
            by (nonlinear_arith)
            requires
                x@ == l0 + l1 * pow64() + l2 * pow128() + l3 * pow192(),
                pow2(0) == 1,
                pow2(64) == pow64(),
                pow128() == pow64() * pow64(),
                pow192() == pow128() * pow64(),
        ;
    } else if index < 128 {
        lemma_bit_of_parts(l0, l1, l2 + l3 * pow64(), 64, j);
        assert(x@ == l0 + l1 * pow2(64) + (l2 + l3 * pow64()) * pow2(64) * pow2(64))
            by (nonlinear_arith)
            requires
                x@ == l0 + l1 * pow64() + l2 * pow128() + l3 * pow192(),
                pow2(64) == pow64(),
                pow128() == pow64() * pow64(),
                pow192() == pow128() * pow64(),
        ;
    } else if index < 192 {
        lemma_bit_of_parts(l0 + l1 * pow64(), l2, l3, 128, j);
        assert(x@ == (l0 + l1 * pow64()) + l2 * pow2(128) + l3 * pow2(128) * pow2(64))
            by (nonlinear_arith)
            requires
                x@ == l0 + l1 * pow64() + l2 * pow128() + l3 * pow192(),
                pow2(64) == pow64(),
                pow2(128) == pow128(),
                pow192() == pow128() * pow64(),
        ;
    } else {
        lemma_bit_of_parts(l0 + l1 * pow64() + l2 * pow128(), l3, 0, 192, j);
        assert(x@ == (l0 + l1 * pow64() + l2 * pow128()) + l3 * pow2(192) + 0 * pow2(192) * pow2(
            64,
        )) by (nonlinear_arith)
            requires
                x@ == l0 + l1 * pow64() + l2 * pow128() + l3 * pow192(),
                pow2(192) == pow192(),
        ;
    }
}

/// A number in `[0, 2^256)` that differs from `x` by a multiple of 2^256 is `x mod 2^256`.
proof fn lemma_mod_shift(x: int, r: int, k: int)
    requires
        0 <= r < pow256(),
        x == r + k * pow256(),
    ensures
        x % (pow256() as int) == r,
{
    vstd::arithmetic::div_mod::lemma_fundamental_div_mod_converse(x, pow256() as int, k, r);
}

} // verus!
