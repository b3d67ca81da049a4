//! Protected-access memory for cryptographic secrets.
//!
//! A secret lives in a region that is locked while nobody works on it. It
//! is opened for a borrow, for any number of readers or for one writer, and
//! locked again when the last borrow is given back. Secrets are compared
//! without an early exit, never printed, and wiped when they are moved in.
//!
//! The library keeps account and decides: who holds a region, whether a
//! borrow is legal, when the protection of the memory has to change, what
//! the bytes of a secret are. It makes no call into the operating system.
//! The program around it owns the pages: it puts in force the protection
//! that [`prot::Access`] asks for, draws the random bytes that the `random`
//! constructors take, and stops on a [`prot::Misuse`].
//!
//! [`SecretBox`] and [`SecretVec`] hold secrets on the heap, [`Secret`]
//! holds one for the length of a call. [`boxed::Box`] is the region below
//! them, [`traits`] says which types a secret can be made of.

pub mod boxed;
pub mod mem;
pub mod prot;
pub mod redact;
pub mod secret;
pub mod secret_box;
pub mod secret_vec;
pub mod setup;
pub mod traits;

pub use secret::Secret;
pub use secret_box::SecretBox;
pub use secret_vec::SecretVec;
