use vstd::prelude::*;
use crate::traits::bytes::AsContiguousBytes;

verus! {

/// Types whose bytes may be anything at all, so that a value can be made of
/// random bytes.
pub trait Randomizable: AsContiguousBytes {
    /// Overwrites the value with `noise`: as many bytes as the value has,
    /// which the caller has drawn from a cryptographic source of randomness.
    fn randomize(&mut self, noise: &[u8])
        requires
            noise@.len() == old(self).spec_bytes().len(),
        ensures
            final(self).spec_bytes() == noise@,
            final(self).spec_count() == old(self).spec_count(),
    {
        self.copy_from_bytes(noise);
    }
}

impl<T: AsContiguousBytes + ?Sized> Randomizable for T {
}

} // verus!
