//! Signed 256-bit integers in two's complement.

use crate::u256::{lemma_value_bounds, pow256, U256};
use vstd::arithmetic::div_mod::lemma_fundamental_div_mod_converse;
use vstd::prelude::*;
use vstd::std_specs::cmp::PartialEqSpecImpl;

verus! {

/// 2^255, the magnitude of the least signed value.
pub open spec fn pow255() -> nat {
    0x8000_0000_0000_0000_0000_0000_0000_0000_0000_0000_0000_0000_0000_0000_0000_0000nat
}

/// The signed number that a 256-bit pattern stands for.
pub open spec fn to_signed(bits: nat) -> int {
    if bits < pow255() {
        bits as int
    } else {
        bits - pow256()
    }
}

/// The signed 256-bit number congruent to `x` modulo 2^256.
pub open spec fn wrap_signed(x: int) -> int {
    to_signed((x % (pow256() as int)) as nat)
}

/// Whether `x` can be held without wrapping.
pub open spec fn fits_signed(x: int) -> bool {
    -pow255() <= x < pow255()
}

/// A signed 256-bit integer; the field holds its two's-complement bits.
#[derive(Clone, Copy, Debug, Eq, Hash)]
pub struct I256(pub U256);

impl I256 {
    /// The signed number the bits stand for.
    pub open spec fn view(&self) -> int {
        to_signed(self.0@)
    }

    pub fn zero() -> (r: I256)
        ensures
            r@ == 0,
    {
        I256(U256::zero())
    }

    /// Reinterprets an unsigned value as signed, bit for bit.
    pub fn from_raw(raw: U256) -> (r: I256)
        ensures
            r.0 == raw,
            r@ == to_signed(raw@),
    {
        I256(raw)
    }

    /// The two's-complement bits as an unsigned value.
    pub fn into_raw(self) -> (r: U256)
        ensures
            r == self.0,
            to_signed(r@) == self@,
    {
        self.0
    }

    pub fn is_zero(&self) -> (r: bool)
        ensures
            r == (self@ == 0),
    {
        self.0.is_zero()
    }

    pub fn is_negative(&self) -> (r: bool)
        ensures
            r == (self@ < 0),
    {
        self.0.0[3] >= 0x8000_0000_0000_0000
    }

    /// Whether this is the least value, the one without a negation.
    pub fn is_min(&self) -> (r: bool)
        ensures
            r == (self@ == -pow255()),
    {
        self.0.0[0] == 0 && self.0.0[1] == 0 && self.0.0[2] == 0 && self.0.0[3]
            == 0x8000_0000_0000_0000
    }

    /// The value as a 24-bit signed number, if it fits.
    pub fn to_i24(&self) -> (r: Option<i32>)
        ensures
            match r {
                Some(x) => x == self@ && -0x80_0000 <= x < 0x80_0000,
                None => !(-0x80_0000 <= self@ < 0x80_0000),
            },
    {
        let low = self.0.0[0];
        if self.0.0[1] == 0 && self.0.0[2] == 0 && self.0.0[3] == 0 {
            if low < 0x80_0000 {
                Some(low as i32)
            } else {
                None
            }
        } else if self.0.0[1] == u64::MAX && self.0.0[2] == u64::MAX && self.0.0[3] == u64::MAX {
            if low >= 0xffff_ffff_ff80_0000 {
                let below: u64 = u64::MAX - low;
                Some(-(below as i32) - 1)
            } else {
                None
            }
        } else {
            None
        }
    }

    /// The difference, wrapped into the signed range, and whether it wrapped.
    pub fn overflowing_sub(self, other: I256) -> (r: (I256, bool))
        ensures
            r.0@ == wrap_signed(self@ - other@),
            r.1 == !fits_signed(self@ - other@),
            !r.1 ==> r.0@ == self@ - other@,
    {
        let (bits, borrow) = self.0.overflowing_sub(other.0);
        let diff = I256(bits);
        let a_neg = self.is_negative();
        let b_neg = other.is_negative();
        let d_neg = diff.is_negative();
        proof {
            lemma_value_bounds(self.0);
            lemma_value_bounds(other.0);
            lemma_value_bounds(bits);
            let k: int = if self@ - other@ - diff@ == 0 {
                0
            } else if self@ - other@ - diff@ == pow256() {
                1
            } else {
                -1
            };
            assert(self@ - other@ == diff@ + k * pow256());
            lemma_wrap_signed(self@ - other@, diff@, k);
        }
        (diff, a_neg != b_neg && d_neg != a_neg)
    }

    /// The difference modulo 2^256, reinterpreted as signed.
    pub fn wrapping_sub(self, other: I256) -> (r: I256)
        ensures
            r@ == wrap_signed(self@ - other@),
    {
        self.overflowing_sub(other).0
    }

    /// The difference, or `None` where it does not fit.
    pub fn checked_sub(self, other: I256) -> (r: Option<I256>)
        ensures
            fits_signed(self@ - other@) ==> (r matches Some(d) && d@ == self@ - other@),
            !fits_signed(self@ - other@) ==> r is None,
    {
        let (diff, wrapped) = self.overflowing_sub(other);
        if wrapped {
            None
        } else {
            Some(diff)
        }
    }

    /// The negation, or `None` for the least value, which has none.
    pub fn checked_neg(self) -> (r: Option<I256>)
        ensures
            self@ != -pow255() ==> (r matches Some(n) && n@ == -self@),
            self@ == -pow255() ==> r is None,
    {
        I256::zero().checked_sub(self)
    }
}

impl PartialEq for I256 {
    fn eq(&self, other: &I256) -> (r: bool) {
        self.0 == other.0
    }
}

impl PartialEqSpecImpl for I256 {
    open spec fn obeys_eq_spec() -> bool {
        true
    }

    open spec fn eq_spec(&self, other: &I256) -> bool {
        *self == *other
    }
}

impl Default for I256 {
    fn default() -> (r: I256)
        ensures
            r@ == 0,
    {
        I256::zero()
    }
}

/// A number in the signed range that differs from `x` by a multiple of 2^256
/// is `x` wrapped.
proof fn lemma_wrap_signed(x: int, r: int, k: int)
    requires
        fits_signed(r),
        x == r + k * pow256(),
    ensures
        wrap_signed(x) == r,
{
    if r >= 0 {
        lemma_fundamental_div_mod_converse(x, pow256() as int, k, r);
    } else {
        assert(x == (r + pow256()) + (k - 1) * pow256()) by (nonlinear_arith)
            requires
                x == r + k * pow256(),
        ;
        lemma_fundamental_div_mod_converse(x, pow256() as int, k - 1, r + pow256());
    }
}

} // verus!
