//! A secret of several values on the heap.

use vstd::prelude::*;
use crate::boxed::Box;
use crate::mem::filled;
use crate::prot::{Access, Prot, MAX_REFS};
use crate::redact::{redacted, redacted_text};
use crate::traits::bytes::{
    fits, lemma_seq_bytes_tell_apart, lemma_seq_bytes_tell_lengths, seq_bytes, AsContiguousBytes,
    Bytes, GARBAGE_VALUE,
};
use crate::traits::constant_eq::ConstantEq;

verus! {

/// A row of values of type `T` in a protected region of its own.
///
/// The region is locked while nothing is borrowed from it.
/// [`borrow`](SecretVec::borrow) opens it for reading and
/// [`borrow_mut`](SecretVec::borrow_mut) for reading and writing; both take
/// the secret exclusively and return a guard that holds it until the guard
/// is given back with its `lock`, which locks the region again when no
/// other borrow is outstanding. [`get`](SecretVec::get) and
/// [`get_mut`](SecretVec::get_mut) borrow one value in the same way.
///
/// A guard gives the values themselves. Whoever copies them out of it, or
/// prints or compares them by other means than the guard's, is on their
/// own.
pub struct SecretVec<T: Bytes> {
    /// The region that holds the values.
    boxed: Box<T>,
}

/// A borrow of a [`SecretVec`] for reading. The secret is read through it
/// and is locked again when it is given back with [`lock`](Ref::lock).
///
/// The field is open so that contracts can speak of the region; code is to
/// leave it to the functions of the guard.
#[must_use]
pub struct Ref<'a, T: Bytes> {
    /// the region of the secret, unlocked for reading
    pub boxed: &'a mut Box<T>,
}

/// A borrow of a [`SecretVec`] for reading and writing. The secret is read
/// and written through it and is locked again when it is given back with
/// [`lock`](RefMut::lock).
///
/// The field is open so that contracts can speak of the region; code is to
/// leave it to the functions of the guard.
#[must_use]
pub struct RefMut<'a, T: Bytes> {
    /// the region of the secret, unlocked for writing
    pub boxed: &'a mut Box<T>,
}

/// A borrow of one value of a [`SecretVec`] for reading. The secret is
/// locked again when it is given back with [`lock`](ItemRef::lock).
///
/// The fields are open so that contracts can speak of them; code is to
/// leave them to the functions of the guard.
#[must_use]
pub struct ItemRef<'a, T: Bytes> {
    /// the region of the secret, unlocked for reading
    pub boxed: &'a mut Box<T>,
    /// the place of the value in the region
    pub index: usize,
}

/// A borrow of one value of a [`SecretVec`] for reading and writing. The
/// secret is locked again when it is given back with
/// [`lock`](ItemRefMut::lock).
///
/// The fields are open so that contracts can speak of them; code is to
/// leave them to the functions of the guard.
#[must_use]
pub struct ItemRefMut<'a, T: Bytes> {
    /// the region of the secret, unlocked for writing
    pub boxed: &'a mut Box<T>,
    /// the place of the value in the region
    pub index: usize,
}

/// A walk over the values of a [`SecretVec`], each of which is borrowed for
/// reading as an [`ItemRef`]. The secret is locked between the steps.
pub struct IterRef<'a, T: Bytes> {
    /// the secret that is walked over
    pub vec: &'a mut SecretVec<T>,
    /// the place of the next value
    pub idx: usize,
}

impl<T: Bytes> SecretVec<T> {
    /// The region that holds the values.
    pub closed spec fn inner(&self) -> Box<T> {
        self.boxed
    }

    /// The values.
    pub open spec fn view(&self) -> Seq<T> {
        self.inner()@
    }

    /// The invariant of every secret: its region is well-formed.
    pub open spec fn wf(&self) -> bool {
        self.inner().wf()
    }

    /// True if nothing is borrowed and the region is locked.
    pub open spec fn is_at_rest(&self) -> bool {
        self.inner().is_at_rest()
    }

    /// Returns the protection level of the region and the number of
    /// borrows that are outstanding. It tells whether a borrow is legal
    /// now, and whether the secret may be given up.
    pub fn access(&self) -> (access: Access)
        ensures
            access == self.inner().access(),
    {
        Access { prot: self.boxed.prot(), refs: self.boxed.refs() }
    }

    /// True of `len` values of garbage: what a secret holds before it is
    /// filled.
    pub open spec fn is_garbage(values: Seq<T>, len: nat) -> bool {
        &&& values.len() == len
        &&& seq_bytes(values) == filled(seq_bytes(values).len(), GARBAGE_VALUE)
    }

    /// Makes a secret of `len` values. `f` is called with the values, to
    /// fill them; what it is given holds garbage. No `f` can leave more or
    /// fewer values than it was given, and it has to say so.
    pub fn new<F>(len: usize, f: F) -> (secret: Self) where F: FnOnce(&mut [T])
        requires
            fits(len as nat, T::width()),
            forall|v: &mut [T]| Self::is_garbage((*v)@, len as nat) ==> call_requires(f, (v,)),
            forall|v: &mut [T]|
                Self::is_garbage((*v)@, len as nat) && call_ensures(f, (v,), ()) ==> (*final(v))@.len()
                    == len,
        ensures
            secret.wf(),
            secret.is_at_rest(),
            secret@.len() == len,
            exists|v: &mut [T]|
                {
                    &&& Self::is_garbage((*v)@, len as nat)
                    &&& call_ensures(f, (v,), ())
                    &&& secret@ == (*final(v))@
                },
    {
        let mut boxed: Box<T> = Box::new_unlocked(len);
        f(boxed.as_mut_slice());
        boxed.lock();
        SecretVec { boxed }
    }

    /// Makes a secret of one value as [`new`](SecretVec::new) does, with an
    /// `f` that may fail. Where `f` fails, what it wrote is given up and
    /// its failure is returned.
    pub fn try_new<U, E, F>(f: F) -> (r: Result<Self, E>) where F: FnOnce(&mut [T]) -> Result<U, E>
        requires
            fits(1, T::width()),
            forall|v: &mut [T]| Self::is_garbage((*v)@, 1) ==> call_requires(f, (v,)),
            forall|v: &mut [T], out: Result<U, E>|
                Self::is_garbage((*v)@, 1) && call_ensures(f, (v,), out) ==> (*final(v))@.len() == 1,
        ensures
            exists|v: &mut [T], out: Result<U, E>|
                {
                    &&& Self::is_garbage((*v)@, 1)
                    &&& call_ensures(f, (v,), out)
                    &&& match r {
                        Ok(secret) => out is Ok && secret@ == (*final(v))@,
                        Err(e) => out == Err::<U, E>(e),
                    }
                },
            r matches Ok(secret) ==> secret.wf() && secret.is_at_rest() && secret@.len() == 1,
    {
        let mut boxed: Box<T> = Box::new_unlocked(1);
        let out: Result<U, E> = f(boxed.as_mut_slice());
        boxed.lock();
        match out {
            Ok(_) => Ok(SecretVec { boxed }),
            Err(e) => Err(e),
        }
    }

    /// Returns the number of values in the secret.
    pub fn len(&self) -> (n: usize)
        ensures
            n == self@.len(),
    {
        self.boxed.len()
    }

    /// Returns true if the secret holds no value.
    pub fn is_empty(&self) -> (b: bool)
        ensures
            b == (self@.len() == 0),
    {
        self.boxed.is_empty()
    }

    /// Returns the size in bytes of the values of the secret.
    pub fn size(&self) -> (n: usize)
        requires
            self.wf(),
        ensures
            n == self@.len() * T::width(),
    {
        self.boxed.size()
    }

    /// Borrows the secret for reading. The region is unlocked until the
    /// guard is given back.
    pub fn borrow(&mut self) -> (guard: Ref<'_, T>)
        requires
            old(self).wf(),
            old(self).inner().access().retain_fault(Prot::ReadOnly) is None,
        ensures
            guard.wf(),
            guard.boxed@ == old(self)@,
            guard.boxed.access() == old(self).inner().access().retained(Prot::ReadOnly),
            final(self).inner() == *final(guard.boxed),
    {
        Ref::new(&mut self.boxed)
    }

    /// Borrows the secret for reading and writing. The region is unlocked
    /// until the guard is given back.
    pub fn borrow_mut(&mut self) -> (guard: RefMut<'_, T>)
        requires
            old(self).wf(),
            old(self).inner().access().retain_fault(Prot::ReadWrite) is None,
        ensures
            guard.wf(),
            guard.boxed@ == old(self)@,
            guard.boxed.access() == Access::spec_fresh(),
            final(self).inner() == *final(guard.boxed),
    {
        RefMut::new(&mut self.boxed)
    }

    /// Borrows the value at `index` for reading. Where the secret holds no
    /// value there, nothing is returned and the secret is left as it was:
    /// no borrow of it stays outstanding.
    pub fn get(&mut self, index: usize) -> (r: Option<ItemRef<'_, T>>)
        requires
            old(self).wf(),
            old(self).inner().access().retain_fault(Prot::ReadOnly) is None,
        ensures
            r is Some <==> index < old(self)@.len(),
            match r {
                Some(guard) => {
                    &&& guard.wf()
                    &&& guard.index == index
                    &&& guard.boxed@ == old(self)@
                    &&& guard.boxed.access() == old(self).inner().access().retained(Prot::ReadOnly)
                    &&& final(self).inner() == *final(guard.boxed)
                },
                None => {
                    &&& final(self)@ == old(self)@
                    &&& final(self).inner().access() == old(self).inner().access()
                },
            },
    {
        ItemRef::new(&mut self.boxed, index)
    }

    /// Borrows the value at `index` for reading and writing. Where the
    /// secret holds no value there, nothing is returned and the secret is
    /// left as it was: no borrow of it stays outstanding.
    pub fn get_mut(&mut self, index: usize) -> (r: Option<ItemRefMut<'_, T>>)
        requires
            old(self).wf(),
            old(self).inner().access().retain_fault(Prot::ReadWrite) is None,
        ensures
            r is Some <==> index < old(self)@.len(),
            match r {
                Some(guard) => {
                    &&& guard.wf()
                    &&& guard.index == index
                    &&& guard.boxed@ == old(self)@
                    &&& guard.boxed.access() == Access::spec_fresh()
                    &&& final(self).inner() == *final(guard.boxed)
                },
                None => {
                    &&& final(self)@ == old(self)@
                    &&& final(self).inner().access() == old(self).inner().access()
                },
            },
    {
        ItemRefMut::new(&mut self.boxed, index)
    }

    /// Makes a secret of `len` values whose bytes are `noise`: as many
    /// bytes as the values have, which the caller has drawn from a
    /// cryptographic source of randomness.
    pub fn random(len: usize, noise: &[u8]) -> (secret: Self)
        requires
            fits(len as nat, T::width()),
            noise@.len() == len * T::width(),
        ensures
            secret.wf(),
            secret.is_at_rest(),
            secret@.len() == len,
            seq_bytes(secret@) == noise@,
    {
        SecretVec { boxed: Box::random(len, noise) }
    }

    /// Makes a secret of `len` values whose bytes are all zero.
    pub fn zero(len: usize) -> (secret: Self)
        requires
            fits(len as nat, T::width()),
        ensures
            secret.wf(),
            secret.is_at_rest(),
            secret@.len() == len,
            seq_bytes(secret@) == filled(seq_bytes(secret@).len(), 0),
    {
        SecretVec { boxed: Box::zero(len) }
    }

    /// Makes a secret that holds what `data` held, and sets every byte of
    /// `data` to zero, so that the secret holds the only copy.
    pub fn from(data: &mut [T]) -> (secret: Self)
        requires
            fits(old(data)@.len(), T::width()),
        ensures
            secret.wf(),
            secret.is_at_rest(),
            secret@.len() == old(data)@.len(),
            seq_bytes(secret@) == seq_bytes(old(data)@),
            T::width() > 0 ==> secret@ == old(data)@,
            final(data)@.len() == old(data)@.len(),
            seq_bytes(final(data)@) == filled(seq_bytes(old(data)@).len(), 0),
    {
        SecretVec { boxed: Box::from(data) }
    }

    /// Makes a secret that holds a copy of the values of this one. This
    /// secret is unlocked for reading while it is copied.
    pub fn clone(&mut self) -> (copy: Self)
        requires
            old(self).wf(),
            old(self).inner().access().retain_fault(Prot::ReadOnly) is None,
        ensures
            copy.wf(),
            copy.is_at_rest(),
            copy@ == old(self)@,
            final(self)@ == old(self)@,
            final(self).inner().access() == old(self).inner().access(),
    {
        SecretVec { boxed: self.boxed.clone() }
    }

    /// Compares the bytes of two secrets. Secrets of different lengths are
    /// unequal, and nothing but their lengths is looked at. Secrets of one
    /// length are unlocked for reading while they are compared, without an
    /// early exit.
    pub fn eq(&mut self, rhs: &mut Self) -> (equal: bool)
        requires
            old(self).wf(),
            old(rhs).wf(),
            old(self)@.len() == old(rhs)@.len() ==> {
                &&& old(self).inner().access().retain_fault(Prot::ReadOnly) is None
                &&& old(rhs).inner().access().retain_fault(Prot::ReadOnly) is None
            },
        ensures
            equal == (old(self)@.len() == old(rhs)@.len() && seq_bytes(old(self)@) == seq_bytes(
                old(rhs)@,
            )),
            T::width() > 0 ==> equal == (old(self)@ == old(rhs)@),
            final(self)@ == old(self)@,
            final(self).inner().access() == old(self).inner().access(),
            final(rhs)@ == old(rhs)@,
            final(rhs).inner().access() == old(rhs).inner().access(),
    {
        self.boxed.eq(&mut rhs.boxed)
    }

    /// Returns what is shown in place of the secret: its size, and nothing
    /// of its values.
    pub fn fmt(&self) -> (text: String)
        requires
            self.wf(),
        ensures
            text@ == redacted_text(self@.len() * T::width()),
    {
        self.boxed.fmt()
    }

    /// Starts a walk over the values of the secret.
    pub fn iter(&mut self) -> (walk: IterRef<'_, T>)
        ensures
            *walk.vec == *old(self),
            walk.idx == 0,
            *final(self) == *final(walk.vec),
    {
        IterRef { vec: self, idx: 0 }
    }

    /// Gives the secret up. Nothing may be borrowed from it. Its bytes are
    /// set to zero before its storage is freed.
    pub fn free(self)
        requires
            self.inner().access().drop_fault() is None,
    {
        self.boxed.free();
    }
}

impl<'a, T: Bytes> Ref<'a, T> {
    /// What every guard of this kind holds as long as only its own
    /// functions are used on it: a region that is unlocked for reading.
    pub open spec fn wf(&self) -> bool {
        &&& self.boxed.wf()
        &&& self.boxed.access().prot == Prot::ReadOnly
    }

    /// The values that the guard gives.
    pub open spec fn view(&self) -> Seq<T> {
        self.boxed@
    }

    /// Unlocks `boxed` for reading and returns the guard that holds it.
    pub fn new(boxed: &'a mut Box<T>) -> (guard: Self)
        requires
            old(boxed).wf(),
            old(boxed).access().retain_fault(Prot::ReadOnly) is None,
        ensures
            guard.wf(),
            guard.boxed@ == old(boxed)@,
            guard.boxed.access() == old(boxed).access().retained(Prot::ReadOnly),
            *final(boxed) == *final(guard.boxed),
    {
        boxed.unlock();
        Ref { boxed }
    }

    /// Borrows the secret once more, through this guard. The new guard
    /// holds this one until it is given back.
    pub fn clone(&mut self) -> (guard: Ref<'_, T>)
        requires
            old(self).wf(),
            old(self).boxed.access().refs < MAX_REFS,
        ensures
            guard.wf(),
            guard.boxed@ == old(self).boxed@,
            guard.boxed.access() == old(self).boxed.access().retained(Prot::ReadOnly),
            *final(self).boxed == *final(guard.boxed),
            *final(final(self).boxed) == *final(old(self).boxed),
    {
        self.boxed.unlock();
        Ref { boxed: &mut *self.boxed }
    }

    /// Returns the values.
    pub fn as_slice(&self) -> (values: &[T])
        requires
            self.wf(),
        ensures
            values@ == self@,
    {
        self.boxed.as_slice()
    }

    /// Compares the bytes of two secrets that are borrowed, without an
    /// early exit. Secrets of different sizes are unequal.
    pub fn eq(&self, rhs: &Ref<'_, T>) -> (equal: bool)
        requires
            self.wf(),
            rhs.wf(),
        ensures
            equal == (seq_bytes(self@) == seq_bytes(rhs@)),
            T::width() > 0 ==> equal == (self@ == rhs@),
    {
        proof {
            if T::width() > 0 && seq_bytes(self@) == seq_bytes(rhs@) {
                lemma_seq_bytes_tell_lengths(self@, rhs@);
                lemma_seq_bytes_tell_apart(self@, rhs@);
            }
        }
        let l: &[T] = self.boxed.as_slice();
        let r: &[T] = rhs.boxed.as_slice();
        l.constant_eq(r)
    }

    /// Compares the bytes of two secrets that are borrowed, one of them
    /// for writing, without an early exit. Secrets of different sizes are
    /// unequal.
    pub fn eq_mut(&self, rhs: &RefMut<'_, T>) -> (equal: bool)
        requires
            self.wf(),
            rhs.wf(),
        ensures
            equal == (seq_bytes(self@) == seq_bytes(rhs@)),
            T::width() > 0 ==> equal == (self@ == rhs@),
    {
        proof {
            if T::width() > 0 && seq_bytes(self@) == seq_bytes(rhs@) {
                lemma_seq_bytes_tell_lengths(self@, rhs@);
                lemma_seq_bytes_tell_apart(self@, rhs@);
            }
        }
        let l: &[T] = self.boxed.as_slice();
        let r: &[T] = rhs.boxed.as_slice();
        l.constant_eq(r)
    }

    /// Returns what is shown in place of the secret: its size, and nothing
    /// of its values.
    pub fn fmt(&self) -> (text: String)
        requires
            self.wf(),
        ensures
            text@ == redacted_text(self@.len() * T::width()),
    {
        self.boxed.fmt()
    }

    /// Gives the borrow back. The region is locked again if no other
    /// borrow of it is outstanding.
    pub fn lock(self)
        requires
            self.wf(),
        ensures
            final(self.boxed)@ == old(self.boxed)@,
            final(self.boxed).access() == old(self.boxed).access().released(),
            final(self.boxed).wf(),
    {
        self.boxed.lock();
    }
}

impl<'a, T: Bytes> RefMut<'a, T> {
    /// What every guard of this kind holds as long as only its own
    /// functions are used on it: a region that is unlocked for writing.
    pub open spec fn wf(&self) -> bool {
        &&& self.boxed.wf()
        &&& self.boxed.access().prot == Prot::ReadWrite
    }

    /// The values that the guard gives.
    pub open spec fn view(&self) -> Seq<T> {
        self.boxed@
    }

    /// Unlocks `boxed` for writing and returns the guard that holds it.
    pub fn new(boxed: &'a mut Box<T>) -> (guard: Self)
        requires
            old(boxed).wf(),
            old(boxed).access().retain_fault(Prot::ReadWrite) is None,
        ensures
            guard.wf(),
            guard.boxed@ == old(boxed)@,
            guard.boxed.access() == Access::spec_fresh(),
            *final(boxed) == *final(guard.boxed),
    {
        boxed.unlock_mut();
        RefMut { boxed }
    }

    /// Returns the values.
    pub fn as_slice(&self) -> (values: &[T])
        requires
            self.wf(),
        ensures
            values@ == self@,
    {
        self.boxed.as_slice()
    }

    /// Returns the values, to be written.
    pub fn as_mut_slice(&mut self) -> (values: &mut [T])
        requires
            old(self).wf(),
        ensures
            values@ == old(self)@,
            final(self).boxed@ == final(values)@,
            final(self).boxed.access() == old(self).boxed.access(),
            *final(final(self).boxed) == *final(old(self).boxed),
    {
        self.boxed.as_mut_slice()
    }

    /// Compares the bytes of two secrets that are borrowed for writing,
    /// without an early exit. Secrets of different sizes are unequal.
    pub fn eq(&self, rhs: &RefMut<'_, T>) -> (equal: bool)
        requires
            self.wf(),
            rhs.wf(),
        ensures
            equal == (seq_bytes(self@) == seq_bytes(rhs@)),
            T::width() > 0 ==> equal == (self@ == rhs@),
    {
        proof {
            if T::width() > 0 && seq_bytes(self@) == seq_bytes(rhs@) {
                lemma_seq_bytes_tell_lengths(self@, rhs@);
                lemma_seq_bytes_tell_apart(self@, rhs@);
            }
        }
        let l: &[T] = self.boxed.as_slice();
        let r: &[T] = rhs.boxed.as_slice();
        l.constant_eq(r)
    }

    /// Compares the bytes of two secrets that are borrowed, one of them
    /// for reading, without an early exit. Secrets of different sizes are
    /// unequal.
    pub fn eq_ref(&self, rhs: &Ref<'_, T>) -> (equal: bool)
        requires
            self.wf(),
            rhs.wf(),
        ensures
            equal == (seq_bytes(self@) == seq_bytes(rhs@)),
            T::width() > 0 ==> equal == (self@ == rhs@),
    {
        proof {
            if T::width() > 0 && seq_bytes(self@) == seq_bytes(rhs@) {
                lemma_seq_bytes_tell_lengths(self@, rhs@);
                lemma_seq_bytes_tell_apart(self@, rhs@);
            }
        }
        let l: &[T] = self.boxed.as_slice();
        let r: &[T] = rhs.boxed.as_slice();
        l.constant_eq(r)
    }

    /// Returns what is shown in place of the secret: its size, and nothing
    /// of its values.
    pub fn fmt(&self) -> (text: String)
        requires
            self.wf(),
        ensures
            text@ == redacted_text(self@.len() * T::width()),
    {
        self.boxed.fmt()
    }

    /// Gives the borrow back. The region is locked again.
    pub fn lock(self)
        requires
            self.wf(),
        ensures
            final(self.boxed)@ == old(self.boxed)@,
            final(self.boxed).access() == Access::spec_locked(),
            final(self.boxed).wf(),
    {
        self.boxed.lock();
    }
}

impl<'a, T: Bytes> ItemRef<'a, T> {
    /// What every guard of this kind holds as long as only its own
    /// functions are used on it: a region that is unlocked for reading,
    /// and the place of a value in it.
    pub open spec fn wf(&self) -> bool {
        &&& self.boxed.wf()
        &&& self.boxed.access().prot == Prot::ReadOnly
        &&& self.index < self.boxed@.len()
    }

    /// The value that the guard gives.
    pub open spec fn view(&self) -> T {
        self.boxed@[self.index as int]
    }

    /// Unlocks `boxed` for reading and returns the guard that holds it, if
    /// the region holds a value at `item`. If it holds none, the region is
    /// locked again before nothing is returned.
    pub fn new(boxed: &'a mut Box<T>, item: usize) -> (r: Option<Self>)
        requires
            old(boxed).wf(),
            old(boxed).access().retain_fault(Prot::ReadOnly) is None,
        ensures
            r is Some <==> item < old(boxed)@.len(),
            match r {
                Some(guard) => {
                    &&& guard.wf()
                    &&& guard.index == item
                    &&& guard.boxed@ == old(boxed)@
                    &&& guard.boxed.access() == old(boxed).access().retained(Prot::ReadOnly)
                    &&& *final(boxed) == *final(guard.boxed)
                },
                None => {
                    &&& final(boxed)@ == old(boxed)@
                    &&& final(boxed).access() == old(boxed).access()
                },
            },
    {
        boxed.unlock();
        if item < boxed.len() {
            Some(ItemRef { boxed, index: item })
        } else {
            // Nothing is handed out, so nobody would give the borrow back.
            boxed.lock();
            None
        }
    }

    /// Borrows the value once more, through this guard. The new guard
    /// holds this one until it is given back.
    pub fn clone(&mut self) -> (guard: ItemRef<'_, T>)
        requires
            old(self).wf(),
            old(self).boxed.access().refs < MAX_REFS,
        ensures
            guard.wf(),
            guard.index == old(self).index,
            guard.boxed@ == old(self).boxed@,
            guard.boxed.access() == old(self).boxed.access().retained(Prot::ReadOnly),
            final(self).index == old(self).index,
            *final(self).boxed == *final(guard.boxed),
            *final(final(self).boxed) == *final(old(self).boxed),
    {
        self.boxed.unlock();
        ItemRef { boxed: &mut *self.boxed, index: self.index }
    }

    /// Returns the value.
    pub fn as_ref(&self) -> (value: &T)
        requires
            self.wf(),
        ensures
            *value == self@,
    {
        self.boxed.item(self.index)
    }

    /// Compares the bytes of two values that are borrowed, without an
    /// early exit.
    pub fn eq(&self, rhs: &ItemRef<'_, T>) -> (equal: bool)
        requires
            self.wf(),
            rhs.wf(),
        ensures
            equal == (self@.bytes() == rhs@.bytes()),
            T::width() > 0 ==> equal == (self@ == rhs@),
    {
        proof {
            if T::width() > 0 && self@.bytes() == rhs@.bytes() {
                self@.lemma_bytes_tell_apart(&rhs@);
            }
        }
        self.boxed.item(self.index).constant_eq(rhs.boxed.item(rhs.index))
    }

    /// Returns what is shown in place of the value: its size, and nothing
    /// of what it holds.
    pub fn fmt(&self) -> (text: String)
        ensures
            text@ == redacted_text(T::width()),
    {
        redacted(T::size())
    }

    /// Gives the borrow back. The region is locked again if no other
    /// borrow of it is outstanding.
    pub fn lock(self)
        requires
            self.wf(),
        ensures
            final(self.boxed)@ == old(self.boxed)@,
            final(self.boxed).access() == old(self.boxed).access().released(),
            final(self.boxed).wf(),
    {
        self.boxed.lock();
    }
}

impl<'a, T: Bytes> ItemRefMut<'a, T> {
    /// What every guard of this kind holds as long as only its own
    /// functions are used on it: a region that is unlocked for writing,
    /// and the place of a value in it.
    pub open spec fn wf(&self) -> bool {
        &&& self.boxed.wf()
        &&& self.boxed.access().prot == Prot::ReadWrite
        &&& self.index < self.boxed@.len()
    }

    /// The value that the guard gives.
    pub open spec fn view(&self) -> T {
        self.boxed@[self.index as int]
    }

    /// Unlocks `boxed` for writing and returns the guard that holds it, if
    /// the region holds a value at `item`. If it holds none, the region is
    /// locked again before nothing is returned.
    pub fn new(boxed: &'a mut Box<T>, item: usize) -> (r: Option<Self>)
        requires
            old(boxed).wf(),
            old(boxed).access().retain_fault(Prot::ReadWrite) is None,
        ensures
            r is Some <==> item < old(boxed)@.len(),
            match r {
                Some(guard) => {
                    &&& guard.wf()
                    &&& guard.index == item
                    &&& guard.boxed@ == old(boxed)@
                    &&& guard.boxed.access() == Access::spec_fresh()
                    &&& *final(boxed) == *final(guard.boxed)
                },
                None => {
                    &&& final(boxed)@ == old(boxed)@
                    &&& final(boxed).access() == old(boxed).access()
                },
            },
    {
        boxed.unlock_mut();
        if item < boxed.len() {
            Some(ItemRefMut { boxed, index: item })
        } else {
            // Nothing is handed out, so nobody would give the borrow back.
            boxed.lock();
            None
        }
    }

    /// Returns the value.
    pub fn as_ref(&self) -> (value: &T)
        requires
            self.wf(),
        ensures
            *value == self@,
    {
        self.boxed.item(self.index)
    }

    /// Returns the value, to be written.
    pub fn as_mut(&mut self) -> (value: &mut T)
        requires
            old(self).wf(),
        ensures
            *value == old(self)@,
            final(self).index == old(self).index,
            final(self).boxed@ == old(self).boxed@.update(old(self).index as int, *final(value)),
            final(self).boxed.access() == old(self).boxed.access(),
            final(self).wf(),
            *final(final(self).boxed) == *final(old(self).boxed),
    {
        self.boxed.item_mut(self.index)
    }

    /// Compares the bytes of two values that are borrowed for writing,
    /// without an early exit.
    pub fn eq(&self, rhs: &ItemRefMut<'_, T>) -> (equal: bool)
        requires
            self.wf(),
            rhs.wf(),
        ensures
            equal == (self@.bytes() == rhs@.bytes()),
            T::width() > 0 ==> equal == (self@ == rhs@),
    {
        proof {
            if T::width() > 0 && self@.bytes() == rhs@.bytes() {
                self@.lemma_bytes_tell_apart(&rhs@);
            }
        }
        self.boxed.item(self.index).constant_eq(rhs.boxed.item(rhs.index))
    }

    /// Returns what is shown in place of the value: its size, and nothing
    /// of what it holds.
    pub fn fmt(&self) -> (text: String)
        ensures
            text@ == redacted_text(T::width()),
    {
        redacted(T::size())
    }

    /// Gives the borrow back. The region is locked again.
    pub fn lock(self)
        requires
            self.wf(),
        ensures
            final(self.boxed)@ == old(self.boxed)@,
            final(self.boxed).access() == Access::spec_locked(),
            final(self.boxed).wf(),
    {
        self.boxed.lock();
    }
}

impl<'a, T: Bytes> IterRef<'a, T> {
    /// The number of values that the walk has still to give.
    pub open spec fn remaining(&self) -> nat {
        if self.idx < self.vec@.len() {
            (self.vec@.len() - self.idx) as nat
        } else {
            0
        }
    }

    /// Borrows the next value for reading, if there is one, and moves on.
    /// At the end of the secret nothing is returned, and nothing is
    /// changed, however often it is asked.
    pub fn next(&mut self) -> (r: Option<ItemRef<'_, T>>)
        requires
            old(self).vec.wf(),
            old(self).vec.inner().access().retain_fault(Prot::ReadOnly) is None,
        ensures
            r is Some <==> old(self).idx < old(self).vec@.len(),
            match r {
                Some(guard) => {
                    &&& guard.wf()
                    &&& guard.index == old(self).idx
                    &&& guard.boxed@ == old(self).vec@
                    &&& guard.boxed.access() == old(self).vec.inner().access().retained(
                        Prot::ReadOnly,
                    )
                    &&& final(self).idx == old(self).idx + 1
                    &&& final(self).vec.inner() == *final(guard.boxed)
                },
                None => {
                    &&& final(self).idx == old(self).idx
                    &&& final(self).vec@ == old(self).vec@
                    &&& final(self).vec.inner().access() == old(self).vec.inner().access()
                },
            },
            *final(final(self).vec) == *final(old(self).vec),
    {
        if self.idx < self.vec.len() {
            let at: usize = self.idx;
            self.idx = at + 1;
            self.vec.get(at)
        } else {
            None
        }
    }

    /// Returns the number of values that the walk has still to give, as
    /// its least and as its greatest: the walk knows it exactly.
    pub fn size_hint(&self) -> (bounds: (usize, Option<usize>))
        ensures
            bounds.0 == self.remaining(),
            bounds.1 == Some(bounds.0),
    {
        let len: usize = self.vec.len();
        let left: usize = if self.idx < len {
            len - self.idx
        } else {
            0
        };
        (left, Some(left))
    }

    /// Passes over `n` values and borrows the one behind them for reading,
    /// if there is one. Where fewer than `n + 1` values are left, the walk
    /// is at its end and nothing is returned.
    pub fn nth(&mut self, n: usize) -> (r: Option<ItemRef<'_, T>>)
        requires
            old(self).vec.wf(),
            old(self).vec.inner().access().retain_fault(Prot::ReadOnly) is None,
        ensures
            r is Some <==> n < old(self).remaining(),
            match r {
                Some(guard) => {
                    &&& guard.wf()
                    &&& guard.index == old(self).idx + n
                    &&& guard.boxed@ == old(self).vec@
                    &&& guard.boxed.access() == old(self).vec.inner().access().retained(
                        Prot::ReadOnly,
                    )
                    &&& final(self).idx == old(self).idx + n + 1
                    &&& final(self).vec.inner() == *final(guard.boxed)
                },
                None => {
                    &&& final(self).remaining() == 0
                    &&& final(self).vec@ == old(self).vec@
                    &&& final(self).vec.inner().access() == old(self).vec.inner().access()
                },
            },
            *final(final(self).vec) == *final(old(self).vec),
    {
        let len: usize = self.vec.len();
        if self.idx < len && n < len - self.idx {
            self.idx = self.idx + n;
            self.next()
        } else {
            self.idx = len;
            None
        }
    }
}

} // verus!
