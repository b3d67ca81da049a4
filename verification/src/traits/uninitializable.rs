use vstd::prelude::*;
use crate::mem::filled;
use crate::traits::bytes::{AsContiguousBytes, GARBAGE_VALUE};

verus! {

/// Types whose bytes may all be [`GARBAGE_VALUE`]: the mark of memory that
/// holds nothing meaningful yet.
pub trait Uninitializable: AsContiguousBytes {
    /// Sets every byte of the value to [`GARBAGE_VALUE`].
    fn garbage(&mut self)
        ensures
            final(self).spec_bytes() == filled(old(self).spec_bytes().len(), GARBAGE_VALUE),
            final(self).spec_count() == old(self).spec_count(),
    {
        let mut bytes: Vec<u8> = self.as_bytes();
        let len: usize = bytes.len();
        let mut i: usize = 0;
        while i < len
            invariant
                i <= len,
                len == bytes@.len(),
                len == old(self).spec_bytes().len(),
                forall|j: int| 0 <= j < i ==> bytes@[j] == GARBAGE_VALUE,
            decreases len - i,
        {
            bytes[i] = GARBAGE_VALUE;
            i = i + 1;
        }
        self.copy_from_bytes(bytes.as_slice());
    }
}

impl<T: AsContiguousBytes + ?Sized> Uninitializable for T {
}

} // verus!
