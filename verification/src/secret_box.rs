//! A secret of one value on the heap.

use vstd::prelude::*;
use crate::boxed::Box;
use crate::mem::filled;
use crate::prot::{Access, Prot, MAX_REFS};
use crate::redact::redacted_text;
use crate::traits::bytes::{lemma_one_fits, lemma_seq_bytes_one, Bytes, GARBAGE_VALUE};
use crate::traits::constant_eq::ConstantEq;

verus! {

/// A value of type `T` in a protected region of its own.
///
/// The region is locked while nothing is borrowed from it.
/// [`borrow`](SecretBox::borrow) opens it for reading and
/// [`borrow_mut`](SecretBox::borrow_mut) for reading and writing; both take
/// the secret exclusively and return a guard that holds it until the guard
/// is given back with its `lock`, which locks the region again when no
/// other borrow is outstanding.
///
/// A guard gives the value itself. Whoever copies the value out of it, or
/// prints or compares it by other means than the guard's, is on their own.
pub struct SecretBox<T: Bytes> {
    /// The region that holds the value.
    boxed: Box<T>,
}

/// A borrow of a [`SecretBox`] for reading. The secret is read through it
/// and is locked again when it is given back with [`lock`](Ref::lock).
///
/// The field is open so that contracts can speak of the region; code is to
/// leave it to the functions of the guard.
#[must_use]
pub struct Ref<'a, T: Bytes> {
    /// the region of the secret, unlocked for reading
    pub boxed: &'a mut Box<T>,
}

/// A borrow of a [`SecretBox`] for reading and writing. The secret is read
/// and written through it and is locked again when it is given back with
/// [`lock`](RefMut::lock).
///
/// The field is open so that contracts can speak of the region; code is to
/// leave it to the functions of the guard.
#[must_use]
pub struct RefMut<'a, T: Bytes> {
    /// the region of the secret, unlocked for writing
    pub boxed: &'a mut Box<T>,
}

impl<T: Bytes> SecretBox<T> {
    /// The region that holds the value.
    pub closed spec fn inner(&self) -> Box<T> {
        self.boxed
    }

    /// The value.
    pub open spec fn view(&self) -> T {
        self.inner()@[0]
    }

    /// The invariant of every secret: its region is well-formed and holds
    /// one value.
    pub open spec fn wf(&self) -> bool {
        &&& self.inner().wf()
        &&& self.inner()@.len() == 1
    }

    /// True if nothing is borrowed and the region is locked.
    pub open spec fn is_at_rest(&self) -> bool {
        self.inner().is_at_rest()
    }

    /// Returns the protection level of the region and the number of
    /// borrows that are outstanding. It tells whether a borrow is legal
    /// now, and whether the secret may be given up.
    pub fn access(&self) -> (access: Access)
        ensures
            access == self.inner().access(),
    {
        Access { prot: self.boxed.prot(), refs: self.boxed.refs() }
    }

    /// Makes a secret. `f` is called with the value, to fill it; what it is
    /// given holds garbage.
    pub fn new<F>(f: F) -> (secret: Self) where F: FnOnce(&mut T)
        requires
            forall|v: &mut T| (*v).bytes() == filled(T::width(), GARBAGE_VALUE) ==> call_requires(f, (v,)),
        ensures
            secret.wf(),
            secret.is_at_rest(),
            exists|v: &mut T|
                {
                    &&& (*v).bytes() == filled(T::width(), GARBAGE_VALUE)
                    &&& call_ensures(f, (v,), ())
                    &&& secret@ == *final(v)
                },
    {
        let mut boxed: Box<T> = Self::fresh_region();
        f(boxed.as_mut());
        boxed.lock();
        SecretBox { boxed }
    }

    /// Makes a secret as [`new`](SecretBox::new) does, with an `f` that may
    /// fail. Where `f` fails, what it wrote is given up and its failure is
    /// returned.
    pub fn try_new<U, E, F>(f: F) -> (r: Result<Self, E>) where F: FnOnce(&mut T) -> Result<U, E>
        requires
            forall|v: &mut T| (*v).bytes() == filled(T::width(), GARBAGE_VALUE) ==> call_requires(f, (v,)),
        ensures
            exists|v: &mut T, out: Result<U, E>|
                {
                    &&& (*v).bytes() == filled(T::width(), GARBAGE_VALUE)
                    &&& call_ensures(f, (v,), out)
                    &&& match r {
                        Ok(secret) => out is Ok && secret@ == *final(v),
                        Err(e) => out == Err::<U, E>(e),
                    }
                },
            r matches Ok(secret) ==> secret.wf() && secret.is_at_rest(),
    {
        let mut boxed: Box<T> = Self::fresh_region();
        let out: Result<U, E> = f(boxed.as_mut());
        boxed.lock();
        match out {
            Ok(_) => Ok(SecretBox { boxed }),
            Err(e) => Err(e),
        }
    }

    /// A region of one value of garbage, open for writing.
    fn fresh_region() -> (boxed: Box<T>)
        ensures
            boxed.wf(),
            boxed.is_fresh(1),
            boxed@[0].bytes() == filled(T::width(), GARBAGE_VALUE),
    {
        proof {
            lemma_one_fits::<T>();
        }
        let boxed: Box<T> = Box::new_unlocked(1);
        proof {
            boxed@[0].lemma_width();
            lemma_seq_bytes_one(boxed@);
        }
        boxed
    }

    /// Returns the size in bytes of the value.
    pub fn size(&self) -> (n: usize)
        requires
            self.wf(),
        ensures
            n == T::width(),
    {
        proof {
            lemma_one_fits::<T>();
        }
        self.boxed.size()
    }

    /// Borrows the secret for reading. The region is unlocked until the
    /// guard is given back.
    pub fn borrow(&mut self) -> (guard: Ref<'_, T>)
        requires
            old(self).wf(),
            old(self).inner().access().retain_fault(Prot::ReadOnly) is None,
        ensures
            guard.boxed.wf(),
            guard.boxed@ == old(self).inner()@,
            guard.boxed.access() == old(self).inner().access().retained(Prot::ReadOnly),
            final(self).inner() == *final(guard.boxed),
    {
        Ref::new(&mut self.boxed)
    }

    /// Borrows the secret for reading and writing. The region is unlocked
    /// until the guard is given back.
    pub fn borrow_mut(&mut self) -> (guard: RefMut<'_, T>)
        requires
            old(self).wf(),
            old(self).inner().access().retain_fault(Prot::ReadWrite) is None,
        ensures
            guard.boxed.wf(),
            guard.boxed@ == old(self).inner()@,
            guard.boxed.access() == Access::spec_fresh(),
            final(self).inner() == *final(guard.boxed),
    {
        RefMut::new(&mut self.boxed)
    }

    /// Makes a secret whose bytes are `noise`: as many bytes as the value
    /// has, which the caller has drawn from a cryptographic source of
    /// randomness.
    pub fn random(noise: &[u8]) -> (secret: Self)
        requires
            noise@.len() == T::width(),
        ensures
            secret.wf(),
            secret.is_at_rest(),
            secret@.bytes() == noise@,
    {
        proof {
            lemma_one_fits::<T>();
        }
        let boxed: Box<T> = Box::random(1, noise);
        proof {
            lemma_seq_bytes_one(boxed@);
        }
        SecretBox { boxed }
    }

    /// Makes a secret whose bytes are all zero.
    pub fn zero() -> (secret: Self)
        ensures
            secret.wf(),
            secret.is_at_rest(),
            secret@.bytes() == filled(T::width(), 0),
    {
        proof {
            lemma_one_fits::<T>();
        }
        let boxed: Box<T> = Box::zero(1);
        proof {
            boxed@[0].lemma_width();
            lemma_seq_bytes_one(boxed@);
        }
        SecretBox { boxed }
    }

    /// Makes a secret that holds what `data` held, and sets every byte of
    /// `data` to zero, so that the secret holds the only copy.
    pub fn from(data: &mut T) -> (secret: Self)
        ensures
            secret.wf(),
            secret.is_at_rest(),
            secret@.bytes() == old(data).bytes(),
            T::width() > 0 ==> secret@ == *old(data),
            final(data).bytes() == filled(T::width(), 0),
    {
        SecretBox { boxed: Box::from_value(data) }
    }

    /// Makes a secret that holds a copy of the value of this one. This
    /// secret is unlocked for reading while it is copied.
    pub fn clone(&mut self) -> (copy: Self)
        requires
            old(self).wf(),
            old(self).inner().access().retain_fault(Prot::ReadOnly) is None,
        ensures
            copy.wf(),
            copy.is_at_rest(),
            copy@ == old(self)@,
            final(self).inner()@ == old(self).inner()@,
            final(self).inner().access() == old(self).inner().access(),
    {
        SecretBox { boxed: self.boxed.clone() }
    }

    /// Compares the bytes of two secrets, without an early exit. Both are
    /// unlocked for reading while they are compared.
    pub fn eq(&mut self, rhs: &mut Self) -> (equal: bool)
        requires
            old(self).wf(),
            old(rhs).wf(),
            old(self).inner().access().retain_fault(Prot::ReadOnly) is None,
            old(rhs).inner().access().retain_fault(Prot::ReadOnly) is None,
        ensures
            equal == (old(self)@.bytes() == old(rhs)@.bytes()),
            T::width() > 0 ==> equal == (old(self)@ == old(rhs)@),
            final(self).inner()@ == old(self).inner()@,
            final(self).inner().access() == old(self).inner().access(),
            final(rhs).inner()@ == old(rhs).inner()@,
            final(rhs).inner().access() == old(rhs).inner().access(),
    {
        proof {
            lemma_seq_bytes_one(self.inner()@);
            lemma_seq_bytes_one(rhs.inner()@);
            if T::width() > 0 && self@.bytes() == rhs@.bytes() {
                self@.lemma_bytes_tell_apart(&rhs@);
            }
        }
        self.boxed.eq(&mut rhs.boxed)
    }

    /// Returns what is shown in place of the secret: its size, and nothing
    /// of its value.
    pub fn fmt(&self) -> (text: String)
        requires
            self.wf(),
        ensures
            text@ == redacted_text(T::width()),
    {
        self.boxed.fmt()
    }

    /// Gives the secret up. Nothing may be borrowed from it. Its bytes are
    /// set to zero before its storage is freed.
    pub fn free(self)
        requires
            self.inner().access().drop_fault() is None,
    {
        self.boxed.free();
    }
}

impl<'a, T: Bytes> Ref<'a, T> {
    /// What every guard of this kind holds as long as only its own
    /// functions are used on it: a region of one value, unlocked for
    /// reading.
    pub open spec fn wf(&self) -> bool {
        &&& self.boxed.wf()
        &&& self.boxed@.len() == 1
        &&& self.boxed.access().prot == Prot::ReadOnly
    }

    /// The value that the guard gives.
    pub open spec fn view(&self) -> T {
        self.boxed@[0]
    }

    /// Unlocks `boxed` for reading and returns the guard that holds it.
    pub fn new(boxed: &'a mut Box<T>) -> (guard: Self)
        requires
            old(boxed).wf(),
            old(boxed)@.len() == 1,
            old(boxed).access().retain_fault(Prot::ReadOnly) is None,
        ensures
            guard.wf(),
            guard.boxed@ == old(boxed)@,
            guard.boxed.access() == old(boxed).access().retained(Prot::ReadOnly),
            *final(boxed) == *final(guard.boxed),
    {
        boxed.unlock();
        Ref { boxed }
    }

    /// Borrows the secret once more, through this guard. The new guard
    /// holds this one until it is given back.
    pub fn clone(&mut self) -> (guard: Ref<'_, T>)
        requires
            old(self).wf(),
            old(self).boxed.access().refs < MAX_REFS,
        ensures
            guard.wf(),
            guard.boxed@ == old(self).boxed@,
            guard.boxed.access() == old(self).boxed.access().retained(Prot::ReadOnly),
            *final(self).boxed == *final(guard.boxed),
            *final(final(self).boxed) == *final(old(self).boxed),
    {
        self.boxed.unlock();
        Ref { boxed: &mut *self.boxed }
    }

    /// Returns the value.
    pub fn as_ref(&self) -> (value: &T)
        requires
            self.wf(),
        ensures
            *value == self@,
    {
        self.boxed.as_ref()
    }

    /// Compares the bytes of two secrets that are borrowed, without an
    /// early exit.
    pub fn eq(&self, rhs: &Ref<'_, T>) -> (equal: bool)
        requires
            self.wf(),
            rhs.wf(),
        ensures
            equal == (self@.bytes() == rhs@.bytes()),
            T::width() > 0 ==> equal == (self@ == rhs@),
    {
        proof {
            if T::width() > 0 && self@.bytes() == rhs@.bytes() {
                self@.lemma_bytes_tell_apart(&rhs@);
            }
        }
        self.boxed.as_ref().constant_eq(rhs.boxed.as_ref())
    }

    /// Compares the bytes of two secrets that are borrowed, one of them
    /// for writing, without an early exit.
    pub fn eq_mut(&self, rhs: &RefMut<'_, T>) -> (equal: bool)
        requires
            self.wf(),
            rhs.wf(),
        ensures
            equal == (self@.bytes() == rhs@.bytes()),
            T::width() > 0 ==> equal == (self@ == rhs@),
    {
        proof {
            if T::width() > 0 && self@.bytes() == rhs@.bytes() {
                self@.lemma_bytes_tell_apart(&rhs@);
            }
        }
        self.boxed.as_ref().constant_eq(rhs.boxed.as_ref())
    }

    /// Returns what is shown in place of the secret: its size, and nothing
    /// of its value.
    pub fn fmt(&self) -> (text: String)
        requires
            self.wf(),
        ensures
            text@ == redacted_text(T::width()),
    {
        proof {
            lemma_one_fits::<T>();
        }
        self.boxed.fmt()
    }

    /// Gives the borrow back. The region is locked again if no other
    /// borrow of it is outstanding.
    pub fn lock(self)
        requires
            self.wf(),
        ensures
            final(self.boxed)@ == old(self.boxed)@,
            final(self.boxed).access() == old(self.boxed).access().released(),
            final(self.boxed).wf(),
    {
        self.boxed.lock();
    }
}

impl<'a, T: Bytes> RefMut<'a, T> {
    /// What every guard of this kind holds as long as only its own
    /// functions are used on it: a region of one value, unlocked for
    /// writing.
    pub open spec fn wf(&self) -> bool {
        &&& self.boxed.wf()
        &&& self.boxed@.len() == 1
        &&& self.boxed.access().prot == Prot::ReadWrite
    }

    /// The value that the guard gives.
    pub open spec fn view(&self) -> T {
        self.boxed@[0]
    }

    /// Unlocks `boxed` for writing and returns the guard that holds it.
    pub fn new(boxed: &'a mut Box<T>) -> (guard: Self)
        requires
            old(boxed).wf(),
            old(boxed)@.len() == 1,
            old(boxed).access().retain_fault(Prot::ReadWrite) is None,
        ensures
            guard.wf(),
            guard.boxed@ == old(boxed)@,
            guard.boxed.access() == Access::spec_fresh(),
            *final(boxed) == *final(guard.boxed),
    {
        boxed.unlock_mut();
        RefMut { boxed }
    }

    /// Returns the value.
    pub fn as_ref(&self) -> (value: &T)
        requires
            self.wf(),
        ensures
            *value == self@,
    {
        self.boxed.as_ref()
    }

    /// Returns the value, to be written.
    pub fn as_mut(&mut self) -> (value: &mut T)
        requires
            old(self).wf(),
        ensures
            *value == old(self)@,
            final(self).boxed@ == old(self).boxed@.update(0, *final(value)),
            final(self).boxed.access() == old(self).boxed.access(),
            final(self).wf(),
            *final(final(self).boxed) == *final(old(self).boxed),
    {
        self.boxed.as_mut()
    }

    /// Compares the bytes of two secrets that are borrowed for writing,
    /// without an early exit.
    pub fn eq(&self, rhs: &RefMut<'_, T>) -> (equal: bool)
        requires
            self.wf(),
            rhs.wf(),
        ensures
            equal == (self@.bytes() == rhs@.bytes()),
            T::width() > 0 ==> equal == (self@ == rhs@),
    {
        proof {
            if T::width() > 0 && self@.bytes() == rhs@.bytes() {
                self@.lemma_bytes_tell_apart(&rhs@);
            }
        }
        self.boxed.as_ref().constant_eq(rhs.boxed.as_ref())
    }

    /// Compares the bytes of two secrets that are borrowed, one of them
    /// for reading, without an early exit.
    pub fn eq_ref(&self, rhs: &Ref<'_, T>) -> (equal: bool)
        requires
            self.wf(),
            rhs.wf(),
        ensures
            equal == (self@.bytes() == rhs@.bytes()),
            T::width() > 0 ==> equal == (self@ == rhs@),
    {
        proof {
            if T::width() > 0 && self@.bytes() == rhs@.bytes() {
                self@.lemma_bytes_tell_apart(&rhs@);
            }
        }
        self.boxed.as_ref().constant_eq(rhs.boxed.as_ref())
    }

    /// Returns what is shown in place of the secret: its size, and nothing
    /// of its value.
    pub fn fmt(&self) -> (text: String)
        requires
            self.wf(),
        ensures
            text@ == redacted_text(T::width()),
    {
        proof {
            lemma_one_fits::<T>();
        }
        self.boxed.fmt()
    }

    /// Gives the borrow back. The region is locked again.
    pub fn lock(self)
        requires
            self.wf(),
        ensures
            final(self.boxed)@ == old(self.boxed)@,
            final(self.boxed).access() == Access::spec_locked(),
            final(self.boxed).wf(),
    {
        self.boxed.lock();
    }
}

} // verus!
