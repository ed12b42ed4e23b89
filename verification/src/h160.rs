//! 160-bit account and contract identifiers.

use vstd::prelude::*;
use vstd::std_specs::cmp::PartialEqSpecImpl;

verus! {

/// A 20-byte identifier, most significant byte first.
#[derive(Clone, Copy, Debug, Eq, Hash)]
pub struct H160(pub [u8; 20]);

/// The twenty zero bytes.
pub open spec fn zero_bytes() -> Seq<u8> {
    Seq::new(20, |i: int| 0u8)
}

impl H160 {
    /// The bytes of the identifier.
    pub open spec fn view(&self) -> Seq<u8> {
        self.0@
    }

    /// The all-zero identifier.
    pub fn zero() -> (r: H160)
        ensures
            r@ == zero_bytes(),
    {
        let r = H160([0u8; 20]);
        assert(r@ =~= zero_bytes());
        r
    }

    /// Whether every byte is zero.
    pub fn is_zero(&self) -> (r: bool)
        ensures
            r == (self@ == zero_bytes()),
    {
        let mut i: usize = 0;
        while i < 20
            invariant
                i <= 20,
                forall|j: int| 0 <= j < i ==> self.0@[j] == 0u8,
            decreases 20 - i,
        {
            if self.0[i] != 0 {
                assert(zero_bytes()[i as int] == 0u8);
                return false;
            }
            i += 1;
        }
        assert(self@ =~= zero_bytes());
        true
    }
}

impl PartialEq for H160 {
    fn eq(&self, other: &H160) -> (r: bool) {
        let mut i: usize = 0;
        while i < 20
            invariant
                i <= 20,
                forall|j: int| 0 <= j < i ==> self.0@[j] == other.0@[j],
            decreases 20 - i,
        {
            if self.0[i] != other.0[i] {
                return false;
            }
            i += 1;
        }
        assert(self.0@ =~= other.0@);
        true
    }
}

impl PartialEqSpecImpl for H160 {
    open spec fn obeys_eq_spec() -> bool {
        true
    }

    open spec fn eq_spec(&self, other: &H160) -> bool {
        self.0@ == other.0@
    }
}

impl Default for H160 {
    fn default() -> (r: H160)
        ensures
            r@ == zero_bytes(),
    {
        H160::zero()
    }
}

} // verus!
