//! A secret of one value that lives no longer than the call that uses it.

use vstd::prelude::*;
use crate::mem::filled;
use crate::redact::{redacted, redacted_text};
use crate::traits::bytes::{Bytes, GARBAGE_VALUE};
use crate::traits::constant_eq::ConstantEq;
use crate::traits::randomizable::Randomizable;
use crate::traits::zeroable::Zeroable;

verus! {

/// A value of type `T` that is made for one call and wiped behind it.
///
/// A `Secret` is never handed out. Its constructors take the function that
/// is to use the value, call it with a guard that gives the value, and set
/// every byte of the value to zero when the function has returned: the
/// value does not outlive the call. For this it needs no region of its
/// own and no protection level, which makes it the cheaper choice for a
/// secret that is used in one place.
///
/// The guard gives the value itself. Whoever copies the value out of it,
/// or prints or compares it by other means than the guard's, is on their
/// own.
pub struct Secret<T: Bytes> {
    /// The value.
    data: T,
}

/// The guard through which the function that a [`Secret`] was made for
/// reads and writes the value.
pub struct RefMut<'a, T: Bytes> {
    /// the value of the secret
    data: &'a mut T,
}

impl<T: Bytes> Secret<T> {
    /// Makes a secret and calls `f` with a guard of it, then wipes the
    /// secret and returns what `f` returned. The value that `f` finds holds
    /// garbage: `f` is to fill it before it uses it.
    pub fn new<F, U>(f: F) -> (out: U) where F: FnOnce(RefMut<'_, T>) -> U
        requires
            forall|guard: RefMut<'_, T>|
                guard@.bytes() == filled(T::width(), GARBAGE_VALUE) ==> call_requires(f, (guard,)),
        ensures
            exists|guard: RefMut<'_, T>|
                guard@.bytes() == filled(T::width(), GARBAGE_VALUE) && call_ensures(f, (guard,), out),
    {
        let mut secret: Secret<T> = Secret { data: T::uninitialized() };
        let out: U = f(RefMut::new(&mut secret.data));
        secret.data.zero();
        out
    }

    /// Makes a secret whose bytes are all zero and calls `f` with a guard
    /// of it, then wipes the secret and returns what `f` returned.
    pub fn zero<F, U>(f: F) -> (out: U) where F: FnOnce(RefMut<'_, T>) -> U
        requires
            forall|guard: RefMut<'_, T>|
                guard@.bytes() == filled(T::width(), 0) ==> call_requires(f, (guard,)),
        ensures
            exists|guard: RefMut<'_, T>|
                guard@.bytes() == filled(T::width(), 0) && call_ensures(f, (guard,), out),
    {
        let mut secret: Secret<T> = Secret { data: T::uninitialized() };
        proof {
            secret.data.lemma_width();
        }
        secret.data.zero();
        let out: U = f(RefMut::new(&mut secret.data));
        secret.data.zero();
        out
    }

    /// Makes a secret that holds what `v` held, sets every byte of `v` to
    /// zero, and calls `f` with a guard of the secret; then wipes the
    /// secret and returns what `f` returned.
    pub fn from<F, U>(v: &mut T, f: F) -> (out: U) where F: FnOnce(RefMut<'_, T>) -> U
        requires
            forall|guard: RefMut<'_, T>|
                guard@.bytes() == old(v).bytes() ==> call_requires(f, (guard,)),
        ensures
            final(v).bytes() == filled(T::width(), 0),
            exists|guard: RefMut<'_, T>|
                guard@.bytes() == old(v).bytes() && call_ensures(f, (guard,), out),
    {
        let mut secret: Secret<T> = Secret { data: T::uninitialized() };
        proof {
            secret.data.lemma_width();
            v.lemma_width();
        }
        v.transfer(&mut secret.data);
        let out: U = f(RefMut::new(&mut secret.data));
        secret.data.zero();
        out
    }

    /// Makes a secret whose bytes are `noise`, as many bytes as the value
    /// has, which the caller has drawn from a cryptographic source of
    /// randomness; calls `f` with a guard of it, then wipes the secret and
    /// returns what `f` returned.
    pub fn random<F, U>(noise: &[u8], f: F) -> (out: U) where F: FnOnce(RefMut<'_, T>) -> U
        requires
            noise@.len() == T::width(),
            forall|guard: RefMut<'_, T>| guard@.bytes() == noise@ ==> call_requires(f, (guard,)),
        ensures
            exists|guard: RefMut<'_, T>| guard@.bytes() == noise@ && call_ensures(f, (guard,), out),
    {
        let mut secret: Secret<T> = Secret { data: T::uninitialized() };
        proof {
            secret.data.lemma_width();
        }
        secret.data.randomize(noise);
        let out: U = f(RefMut::new(&mut secret.data));
        secret.data.zero();
        out
    }
}

impl<'a, T: Bytes> RefMut<'a, T> {
    /// The value that the guard gives.
    pub closed spec fn view(&self) -> T {
        *self.data
    }

    /// Makes the guard of `data`.
    pub fn new(data: &'a mut T) -> (guard: Self)
        ensures
            guard@ == *old(data),
    {
        RefMut { data }
    }

    /// Returns the value.
    pub fn as_ref(&self) -> (value: &T)
        ensures
            *value == self@,
    {
        &*self.data
    }

    /// Returns the value, to be written.
    pub fn as_mut(&mut self) -> (value: &mut T)
        ensures
            *value == old(self)@,
            final(self)@ == *final(value),
    {
        &mut *self.data
    }

    /// Compares the bytes of two secrets, without an early exit.
    pub fn eq(&self, rhs: &RefMut<'_, T>) -> (equal: bool)
        ensures
            equal == (self@.bytes() == rhs@.bytes()),
            T::width() > 0 ==> equal == (self@ == rhs@),
    {
        proof {
            if T::width() > 0 && self@.bytes() == rhs@.bytes() {
                self@.lemma_bytes_tell_apart(&rhs@);
            }
        }
        let l: &T = &*self.data;
        let r: &T = &*rhs.data;
        l.constant_eq(r)
    }

    /// Returns what is shown in place of the secret: its size, and nothing
    /// of its value.
    pub fn fmt(&self) -> (text: String)
        ensures
            text@ == redacted_text(T::width()),
    {
        redacted(T::size())
    }
}

} // verus!
