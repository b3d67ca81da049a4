use vstd::prelude::*;
use crate::mem::memeq;
use crate::traits::bytes::AsContiguousBytes;

verus! {

/// Types that are compared for equality by their bytes, without an early
/// exit.
///
/// The trait does not force a type to be compared so: a type that must
/// always be compared without an early exit is wrapped in one whose `==`
/// calls [`constant_eq`](ConstantEq::constant_eq).
pub trait ConstantEq: AsContiguousBytes {
    /// Compares `self` and `rhs`. Values of different sizes are unequal;
    /// values of one size are equal if and only if all their bytes are, and
    /// all of them are looked at.
    fn constant_eq(&self, rhs: &Self) -> (equal: bool)
        ensures
            equal == (self.spec_bytes() == rhs.spec_bytes()),
    {
        let l: Vec<u8> = self.as_bytes();
        let r: Vec<u8> = rhs.as_bytes();
        memeq(l.as_slice(), r.as_slice())
    }
}

impl<T: AsContiguousBytes + ?Sized> ConstantEq for T {
}

} // verus!
