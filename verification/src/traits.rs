//! Traits that say which types may be held as secrets, and what can be done
//! to the bytes of such a type.

pub mod bytes;
pub mod constant_eq;
pub mod randomizable;
pub mod uninitializable;
pub mod zeroable;

pub use bytes::{AsContiguousBytes, Bytes};
pub use constant_eq::ConstantEq;
pub use randomizable::Randomizable;
pub use uninitializable::Uninitializable;
pub use zeroable::Zeroable;
