//! The protected region that underlies every secret on the heap.
//!
//! A [`Box`] owns the storage of a fixed number of elements and the
//! [`Access`] state that says who may touch them. It is not meant for
//! users of secrets: the wrappers built on it hand out borrows that cannot
//! be held wrongly. Whoever uses it directly has to balance every unlock
//! with a lock, and every function here says what it demands of the state.

use vstd::prelude::*;
use crate::mem::filled;
use crate::prot::{Access, Misuse, Prot};
use crate::redact::{redacted, redacted_text};
use crate::traits::bytes::{
    fits, lemma_one_fits, lemma_seq_bytes_len, lemma_seq_bytes_push, lemma_seq_bytes_tell_apart,
    seq_bytes,
    AsContiguousBytes, Bytes, GARBAGE_VALUE,
};
use crate::traits::constant_eq::ConstantEq;
use crate::traits::randomizable::Randomizable;
use crate::traits::zeroable::Zeroable;

verus! {

/// A region of `len` elements of type `T`, with its protection level and
/// the number of outstanding borrows.
pub struct Box<T: Bytes> {
    /// the elements
    data: Vec<T>,
    /// the protection level and the number of outstanding borrows; a
    /// writer is counted too, though there is at most one
    access: Access,
}

impl<T: Bytes> Box<T> {
    /// The elements of the region.
    pub closed spec fn view(&self) -> Seq<T> {
        self.data@
    }

    /// The protection level and the number of outstanding borrows.
    pub closed spec fn access(&self) -> Access {
        self.access
    }

    /// The invariant of every region: its access state is one that legal
    /// retains and releases lead to, and its size in bytes is one that a
    /// machine can hold.
    pub open spec fn wf(&self) -> bool {
        &&& self.access().wf()
        &&& fits(self@.len(), T::width())
    }

    /// The bytes of the region.
    pub open spec fn bytes(&self) -> Seq<u8> {
        seq_bytes(self@)
    }

    /// A region as it is handed to its initialiser: `len` elements of
    /// garbage, open for writing, held once.
    pub open spec fn is_fresh(&self, len: nat) -> bool {
        &&& self@.len() == len
        &&& self.bytes() == filled(self.bytes().len(), GARBAGE_VALUE)
        &&& self.access() == Access::spec_fresh()
    }

    /// A region at rest: no access, nothing outstanding.
    pub open spec fn is_at_rest(&self) -> bool {
        self.access() == Access::spec_locked()
    }

    /// Returns the number of elements in the region.
    pub fn len(&self) -> (n: usize)
        ensures
            n == self@.len(),
    {
        self.data.len()
    }

    /// Returns true if the region has no elements.
    pub fn is_empty(&self) -> (b: bool)
        ensures
            b == (self@.len() == 0),
    {
        self.data.len() == 0
    }

    /// Returns the size in bytes of the elements of the region. It is the
    /// number of bytes that can be read from it.
    pub fn size(&self) -> (n: usize)
        requires
            self.wf(),
        ensures
            n == self@.len() * T::width(),
            n == self.bytes().len(),
    {
        proof {
            lemma_seq_bytes_len(self@);
        }
        self.data.len() * T::size()
    }

    /// The protection level in force.
    pub fn prot(&self) -> (p: Prot)
        ensures
            p == self.access().prot,
    {
        self.access.prot
    }

    /// The number of outstanding borrows.
    pub fn refs(&self) -> (n: u8)
        ensures
            n == self.access().refs,
    {
        self.access.refs
    }

    /// Returns true if the protection level is [`Prot::NoAccess`], whatever
    /// the number of borrows.
    pub fn is_locked(&self) -> (b: bool)
        ensures
            b == (self.access().prot == Prot::NoAccess),
    {
        self.access.is_locked()
    }

    /// Tells whether a retain at `prot` is legal now, and why not if it is
    /// not.
    pub fn check_retain(&self, prot: Prot) -> (fault: Option<Misuse>)
        ensures
            fault == self.access().retain_fault(prot),
    {
        self.access.check_retain(prot)
    }

    /// Tells whether a release is legal now, and why not if it is not.
    pub fn check_release(&self) -> (fault: Option<Misuse>)
        ensures
            fault == self.access().release_fault(),
    {
        self.access.check_release()
    }

    /// Tells whether the region may be given up now, and why not if it may
    /// not.
    pub fn check_drop(&self) -> (fault: Option<Misuse>)
        ensures
            fault == self.access().drop_fault(),
    {
        self.access.check_drop()
    }

    /// Makes a region of `len` elements that hold garbage. It is open for
    /// writing and held once: it must be locked before it is given up.
    pub fn new_unlocked(len: usize) -> (boxed: Self)
        requires
            fits(len as nat, T::width()),
        ensures
            boxed.wf(),
            boxed.is_fresh(len as nat),
    {
        let mut data: Vec<T> = Vec::new();
        let mut i: usize = 0;
        while i < len
            invariant
                i <= len,
                data@.len() == i,
                seq_bytes(data@) == filled(seq_bytes(data@).len(), GARBAGE_VALUE),
            decreases len - i,
        {
            let garbage: T = T::uninitialized();
            proof {
                lemma_seq_bytes_push(data@, garbage);
                garbage.lemma_width();
                assert(seq_bytes(data@) + garbage.bytes() =~= filled(
                    seq_bytes(data@).len() + T::width(),
                    GARBAGE_VALUE,
                ));
            }
            data.push(garbage);
            i = i + 1;
        }
        Box { data, access: Access::fresh() }
    }

    /// Makes a region of `len` elements. `init` is called with the region
    /// open for writing and full of garbage, and is to fill it; the region
    /// is locked before it is returned. `init` has to leave the region as
    /// long and as open as it found it.
    pub fn new<F>(len: usize, init: F) -> (boxed: Self) where F: FnOnce(&mut Self)
        requires
            fits(len as nat, T::width()),
            forall|b: &mut Self| (*b).is_fresh(len as nat) ==> call_requires(init, (b,)),
            forall|b: &mut Self|
                (*b).is_fresh(len as nat) && call_ensures(init, (b,), ()) ==> {
                    &&& (*final(b))@.len() == len
                    &&& (*final(b)).access() == Access::spec_fresh()
                },
        ensures
            boxed.wf(),
            boxed.is_at_rest(),
            boxed@.len() == len,
            exists|b: &mut Self|
                (*b).is_fresh(len as nat) && call_ensures(init, (b,), ()) && (*final(b))@ == boxed@,
    {
        let mut boxed: Self = Self::new_unlocked(len);
        init(&mut boxed);
        boxed.lock();
        boxed
    }

    /// Makes a region of `len` elements as [`new`](Box::new) does, with an
    /// `init` that may fail. The region is locked whatever `init` returns;
    /// where `init` fails the region is given up and the failure returned.
    pub fn try_new<U, E, F>(len: usize, init: F) -> (r: Result<Self, E>) where
        F: FnOnce(&mut Self) -> Result<U, E>,

        requires
            fits(len as nat, T::width()),
            forall|b: &mut Self| (*b).is_fresh(len as nat) ==> call_requires(init, (b,)),
            forall|b: &mut Self, out: Result<U, E>|
                (*b).is_fresh(len as nat) && call_ensures(init, (b,), out) ==> {
                    &&& (*final(b))@.len() == len
                    &&& (*final(b)).access() == Access::spec_fresh()
                },
        ensures
            exists|b: &mut Self, out: Result<U, E>|
                (*b).is_fresh(len as nat) && call_ensures(init, (b,), out) && match r {
                    Ok(boxed) => out is Ok && (*final(b))@ == boxed@,
                    Err(e) => out == Err::<U, E>(e),
                },
            r matches Ok(boxed) ==> boxed.wf() && boxed.is_at_rest() && boxed@.len() == len,
    {
        let mut boxed: Self = Self::new_unlocked(len);
        let result: Result<U, E> = init(&mut boxed);
        boxed.lock();
        match result {
            Ok(_) => Ok(boxed),
            Err(e) => Err(e),
        }
    }

    /// Counts one more borrow at `prot`, and opens the region at `prot` if
    /// it was at rest.
    pub fn retain(&mut self, prot: Prot)
        requires
            old(self).access().retain_fault(prot) is None,
        ensures
            final(self).access() == old(self).access().retained(prot),
            final(self)@ == old(self)@,
            old(self).wf() ==> final(self).wf(),
    {
        let _ = self.access.retain(prot);
    }

    /// Removes one outstanding borrow, and locks the region when the last
    /// one goes.
    pub fn release(&mut self)
        requires
            old(self).access().release_fault() is None,
        ensures
            final(self).access() == old(self).access().released(),
            final(self)@ == old(self)@,
            old(self).wf() ==> final(self).wf(),
    {
        let _ = self.access.release();
    }

    /// Allows the contents of the region to be read. Every call must be
    /// balanced by a call of [`lock`](Box::lock). There may be any number
    /// of outstanding unlocks for reading, as far as the counter goes, or
    /// one for writing.
    pub fn unlock(&mut self) -> (unlocked: &Self)
        requires
            old(self).access().retain_fault(Prot::ReadOnly) is None,
        ensures
            final(self).access() == old(self).access().retained(Prot::ReadOnly),
            final(self)@ == old(self)@,
            old(self).wf() ==> final(self).wf(),
            *unlocked == *final(self),
    {
        self.retain(Prot::ReadOnly);
        self
    }

    /// Allows the contents of the region to be read and written. Every call
    /// must be balanced by a call of [`lock`](Box::lock), and nothing else
    /// may be outstanding.
    pub fn unlock_mut(&mut self) -> (unlocked: &mut Self)
        requires
            old(self).access().retain_fault(Prot::ReadWrite) is None,
        ensures
            unlocked.access() == old(self).access().retained(Prot::ReadWrite),
            unlocked@ == old(self)@,
            old(self).wf() ==> unlocked.wf(),
            *final(self) == *final(unlocked),
    {
        self.retain(Prot::ReadWrite);
        self
    }

    /// Gives back one unlock. When the last one is given back, all access
    /// to the region is disabled.
    pub fn lock(&mut self)
        requires
            old(self).access().release_fault() is None,
        ensures
            final(self).access() == old(self).access().released(),
            final(self)@ == old(self)@,
            old(self).wf() ==> final(self).wf(),
    {
        self.release();
    }

    /// Why the first element cannot be read now, if it cannot: there is
    /// none, or the region is locked.
    pub open spec fn read_fault(&self) -> Option<Misuse> {
        if self@.len() == 0 {
            Some(Misuse::ZeroLength)
        } else if self.access().prot == Prot::NoAccess {
            Some(Misuse::ReadWhileLocked)
        } else {
            None
        }
    }

    /// Why the first element cannot be written now, if it cannot: there is
    /// none, or the region is not open for writing.
    pub open spec fn write_fault(&self) -> Option<Misuse> {
        if self@.len() == 0 {
            Some(Misuse::ZeroLength)
        } else if self.access().prot != Prot::ReadWrite {
            Some(Misuse::WriteWhileNotMutable)
        } else {
            None
        }
    }

    /// Tells whether the first element can be read now, and why not if it
    /// cannot.
    pub fn check_read(&self) -> (fault: Option<Misuse>)
        ensures
            fault == self.read_fault(),
    {
        if self.data.len() == 0 {
            Some(Misuse::ZeroLength)
        } else if self.access.is_locked() {
            Some(Misuse::ReadWhileLocked)
        } else {
            None
        }
    }

    /// Tells whether the first element can be written now, and why not if
    /// it cannot.
    pub fn check_write(&self) -> (fault: Option<Misuse>)
        ensures
            fault == self.write_fault(),
    {
        if self.data.len() == 0 {
            Some(Misuse::ZeroLength)
        } else if self.access.prot != Prot::ReadWrite {
            Some(Misuse::WriteWhileNotMutable)
        } else {
            None
        }
    }

    /// Returns the first element of the region. The region must hold one
    /// and be unlocked.
    pub fn as_ref(&self) -> (first: &T)
        requires
            self.read_fault() is None,
        ensures
            *first == self@[0],
    {
        &self.data[0]
    }

    /// Returns the first element of the region, to be written. The region
    /// must hold one and be unlocked for writing.
    pub fn as_mut(&mut self) -> (first: &mut T)
        requires
            old(self).write_fault() is None,
        ensures
            *first == old(self)@[0],
            final(self)@ == old(self)@.update(0, *final(first)),
            final(self).access() == old(self).access(),
    {
        &mut self.data[0]
    }

    /// Returns the elements of the region. The region must be unlocked.
    pub fn as_slice(&self) -> (elements: &[T])
        requires
            self.access().prot != Prot::NoAccess,
        ensures
            elements@ == self@,
    {
        self.data.as_slice()
    }

    /// Returns the elements of the region, to be written. The region must
    /// be unlocked for writing.
    pub fn as_mut_slice(&mut self) -> (elements: &mut [T])
        requires
            old(self).access().prot == Prot::ReadWrite,
        ensures
            elements@ == old(self)@,
            final(self)@ == final(elements)@,
            final(self).access() == old(self).access(),
    {
        self.data.as_mut_slice()
    }

    /// Returns the element at `index`. The region must hold one there and
    /// be unlocked.
    pub fn item(&self, index: usize) -> (element: &T)
        requires
            index < self@.len(),
            self.access().prot != Prot::NoAccess,
        ensures
            *element == self@[index as int],
    {
        &self.data[index]
    }

    /// Returns the element at `index`, to be written. The region must hold
    /// one there and be unlocked for writing.
    pub fn item_mut(&mut self, index: usize) -> (element: &mut T)
        requires
            index < old(self)@.len(),
            old(self).access().prot == Prot::ReadWrite,
        ensures
            *element == old(self)@[index as int],
            final(self)@ == old(self)@.update(index as int, *final(element)),
            final(self).access() == old(self).access(),
    {
        &mut self.data[index]
    }

    /// Returns what is shown in place of the region: its size, and nothing
    /// of what it holds.
    pub fn fmt(&self) -> (text: String)
        requires
            self.wf(),
        ensures
            text@ == redacted_text(self@.len() * T::width()),
    {
        redacted(self.size())
    }

    /// Gives the region up. It must be at rest: every unlock given back.
    /// Its bytes are set to zero before its storage is freed.
    pub fn free(self)
        requires
            self.access().drop_fault() is None,
    {
        let mut region = self;
        region.data.as_mut_slice().zero();
    }
}

impl<T: Bytes> Box<T> {
    /// Makes a region of `len` elements whose bytes are `noise`: as many
    /// bytes as the region has, which the caller has drawn from a
    /// cryptographic source of randomness. The region is returned locked.
    pub fn random(len: usize, noise: &[u8]) -> (boxed: Self)
        requires
            fits(len as nat, T::width()),
            noise@.len() == len * T::width(),
        ensures
            boxed.wf(),
            boxed.is_at_rest(),
            boxed@.len() == len,
            boxed.bytes() == noise@,
    {
        let mut boxed: Self = Self::new_unlocked(len);
        proof {
            lemma_seq_bytes_len(boxed@);
        }
        let elements: &mut [T] = boxed.as_mut_slice();
        elements.randomize(noise);
        boxed.lock();
        boxed
    }

    /// Makes a region of `len` elements whose bytes are all zero. The
    /// region is returned locked.
    pub fn zero(len: usize) -> (boxed: Self)
        requires
            fits(len as nat, T::width()),
        ensures
            boxed.wf(),
            boxed.is_at_rest(),
            boxed@.len() == len,
            boxed.bytes() == filled(boxed.bytes().len(), 0),
    {
        let mut boxed: Self = Self::new_unlocked(len);
        let elements: &mut [T] = boxed.as_mut_slice();
        elements.zero();
        boxed.lock();
        boxed
    }

    /// Makes a region that holds what `data` held, and sets every byte of
    /// `data` to zero, so that the region holds the only copy. The region
    /// is returned locked.
    pub fn from(data: &mut [T]) -> (boxed: Self)
        requires
            fits(old(data)@.len(), T::width()),
        ensures
            boxed.wf(),
            boxed.is_at_rest(),
            boxed@.len() == old(data)@.len(),
            boxed.bytes() == seq_bytes(old(data)@),
            T::width() > 0 ==> boxed@ == old(data)@,
            final(data)@.len() == old(data)@.len(),
            seq_bytes(final(data)@) == filled(seq_bytes(old(data)@).len(), 0),
    {
        let mut boxed: Self = Self::new_unlocked(data.len());
        proof {
            lemma_seq_bytes_len(boxed@);
            lemma_seq_bytes_len(data@);
        }
        let elements: &mut [T] = boxed.as_mut_slice();
        data.transfer(elements);
        proof {
            if T::width() > 0 {
                lemma_seq_bytes_tell_apart(elements@, old(data)@);
            }
        }
        boxed.lock();
        boxed
    }

    /// Makes a region of one element that holds what `data` held, and sets
    /// every byte of `data` to zero, so that the region holds the only
    /// copy. The region is returned locked.
    pub fn from_value(data: &mut T) -> (boxed: Self)
        ensures
            boxed.wf(),
            boxed.is_at_rest(),
            boxed@.len() == 1,
            boxed@[0].bytes() == old(data).bytes(),
            T::width() > 0 ==> boxed@[0] == *old(data),
            final(data).bytes() == filled(T::width(), 0),
    {
        proof {
            lemma_one_fits::<T>();
            data.lemma_width();
        }
        let mut boxed: Self = Self::new_unlocked(1);
        let first: &mut T = boxed.as_mut();
        proof {
            first.lemma_width();
        }
        data.transfer(first);
        proof {
            if T::width() > 0 {
                first.lemma_bytes_tell_apart(old(data));
            }
        }
        boxed.lock();
        boxed
    }

    /// Makes a region that holds a copy of what this one holds. This region
    /// is unlocked for reading while it is copied and is then locked again;
    /// the copy is returned locked.
    pub fn clone(&mut self) -> (copy: Self)
        requires
            old(self).wf(),
            old(self).access().retain_fault(Prot::ReadOnly) is None,
        ensures
            copy.wf(),
            copy.is_at_rest(),
            copy@ == old(self)@,
            final(self)@ == old(self)@,
            final(self).access() == old(self).access(),
    {
        let len: usize = self.len();
        let mut copy: Self = Self::new_unlocked(len);
        self.unlock();
        let mut i: usize = 0;
        while i < len
            invariant
                i <= len,
                len == self@.len(),
                len == copy.data@.len(),
                self@ == old(self)@,
                self.access() == old(self).access().retained(Prot::ReadOnly),
                copy.access() == Access::spec_fresh(),
                forall|j: int| 0 <= j < i ==> copy.data@[j] == self@[j],
            decreases len - i,
        {
            copy.data[i] = self.data[i];
            i = i + 1;
        }
        self.lock();
        copy.lock();
        copy
    }

    /// Compares the bytes of two regions. Regions of different lengths are
    /// unequal, and nothing but their lengths is looked at. Regions of one
    /// length are unlocked for reading, compared without an early exit, and
    /// locked again whatever the outcome.
    pub fn eq(&mut self, other: &mut Self) -> (equal: bool)
        requires
            old(self).wf(),
            old(other).wf(),
            old(self)@.len() == old(other)@.len() ==> {
                &&& old(self).access().retain_fault(Prot::ReadOnly) is None
                &&& old(other).access().retain_fault(Prot::ReadOnly) is None
            },
        ensures
            equal == (old(self)@.len() == old(other)@.len() && old(self).bytes() == old(other).bytes()),
            T::width() > 0 ==> equal == (old(self)@ == old(other)@),
            final(self)@ == old(self)@,
            final(self).access() == old(self).access(),
            final(other)@ == old(other)@,
            final(other).access() == old(other).access(),
    {
        proof {
            if T::width() > 0 && self@.len() == other@.len() && self.bytes() == other.bytes() {
                lemma_seq_bytes_tell_apart(self@, other@);
            }
        }
        if self.len() != other.len() {
            return false;
        }
        self.unlock();
        other.unlock();
        let lhs: &[T] = self.as_slice();
        let rhs: &[T] = other.as_slice();
        let equal: bool = lhs.constant_eq(rhs);
        self.lock();
        other.lock();
        equal
    }
}

} // verus!
