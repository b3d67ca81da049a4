use vstd::prelude::*;
use crate::mem::{filled, memtransfer, memzero};
use crate::traits::bytes::AsContiguousBytes;

verus! {

/// Types whose bytes may all be zero.
pub trait Zeroable: AsContiguousBytes {
    /// Sets every byte of the value to zero.
    fn zero(&mut self)
        ensures
            final(self).spec_bytes() == filled(old(self).spec_bytes().len(), 0),
            final(self).spec_count() == old(self).spec_count(),
    {
        let mut bytes: Vec<u8> = self.as_bytes();
        memzero(bytes.as_mut_slice());
        self.copy_from_bytes(bytes.as_slice());
    }

    /// Copies the bytes of `self` to the front of `other`, then sets every
    /// byte of `self` to zero. `other` must be at least as large as `self`;
    /// what it holds behind the copy stays as it was.
    fn transfer(&mut self, other: &mut Self)
        requires
            old(self).spec_bytes().len() <= old(other).spec_bytes().len(),
        ensures
            final(other).spec_bytes() == old(self).spec_bytes() + old(other).spec_bytes().skip(
                old(self).spec_bytes().len() as int,
            ),
            final(self).spec_bytes() == filled(old(self).spec_bytes().len(), 0),
            final(self).spec_count() == old(self).spec_count(),
            final(other).spec_count() == old(other).spec_count(),
    {
        let mut src: Vec<u8> = self.as_bytes();
        let mut dst: Vec<u8> = other.as_bytes();
        memtransfer(src.as_mut_slice(), dst.as_mut_slice());
        self.copy_from_bytes(src.as_slice());
        other.copy_from_bytes(dst.as_slice());
    }
}

impl<T: AsContiguousBytes + ?Sized> Zeroable for T {
}

} // verus!
