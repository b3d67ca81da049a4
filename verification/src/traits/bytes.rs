use vstd::prelude::*;
use vstd::bytes::{
    lemma_auto_spec_u128_to_from_le_bytes, lemma_auto_spec_u16_to_from_le_bytes,
    lemma_auto_spec_u32_to_from_le_bytes, lemma_auto_spec_u64_to_from_le_bytes,
    spec_u128_from_le_bytes, spec_u128_to_le_bytes, spec_u16_from_le_bytes, spec_u16_to_le_bytes,
    spec_u32_from_le_bytes, spec_u32_to_le_bytes, spec_u64_from_le_bytes, spec_u64_to_le_bytes,
    u128_from_le_bytes, u128_to_le_bytes, u16_from_le_bytes, u16_to_le_bytes, u32_from_le_bytes,
    u32_to_le_bytes, u64_from_le_bytes, u64_to_le_bytes,
};
use crate::mem::filled;

verus! {

/// The byte that fills memory which holds nothing meaningful yet. Its low
/// bits make it an unaligned address, so that a pointer read from such
/// memory is likely to be noticed.
pub const GARBAGE_VALUE: u8 = 0xdb;

/// Types of a size known at compile time that can be treated as buckets of
/// bytes: every value lies in memory as a row of `width()` bytes, and
/// whatever `width()` bytes are put there make a value.
///
/// A type may implement this trait only if every pattern of bits is a value
/// of it.
pub trait Bytes: Sized + Copy {
    /// The size of a value, in bytes.
    spec fn width() -> nat;

    /// The bytes of a value. Those of an integer are given with the least
    /// significant byte first, on every machine; those of an array are
    /// those of its elements, one after another.
    spec fn bytes(&self) -> Seq<u8>;

    /// A value has `width()` bytes, and `width()` is a size that a machine
    /// can hold.
    proof fn lemma_width(&self)
        ensures
            self.bytes().len() == Self::width(),
            Self::width() <= usize::MAX,
    ;

    /// Values are told apart by their bytes.
    proof fn lemma_bytes_tell_apart(&self, other: &Self)
        requires
            Self::width() > 0,
            self.bytes() == other.bytes(),
        ensures
            *self == *other,
    ;

    /// Returns the size in bytes of `Self`.
    fn size() -> (n: usize)
        ensures
            n == Self::width(),
    ;

    /// Returns a copy of the bytes of the value.
    fn to_bytes(&self) -> (b: Vec<u8>)
        ensures
            b@ == self.bytes(),
    ;

    /// Returns the value whose bytes are `b`.
    fn from_bytes(b: &[u8]) -> (v: Self)
        requires
            b@.len() == Self::width(),
        ensures
            v.bytes() == b@,
    ;

    /// Returns a value that holds nothing meaningful: each of its bytes is
    /// [`GARBAGE_VALUE`].
    fn uninitialized() -> (v: Self)
        ensures
            v.bytes() == filled(Self::width(), GARBAGE_VALUE),
    {
        let n: usize = Self::size();
        let mut b: Vec<u8> = Vec::new();
        let mut i: usize = 0;
        while i < n
            invariant
                i <= n,
                b@.len() == i,
                forall|j: int| 0 <= j < i ==> b@[j] == GARBAGE_VALUE,
            decreases n - i,
        {
            b.push(GARBAGE_VALUE);
            i = i + 1;
        }
        assert(b@ =~= filled(Self::width(), GARBAGE_VALUE));
        Self::from_bytes(b.as_slice())
    }
}

/// The bytes of a row of values: those of the first, then those of the
/// second, and so on.
pub open spec fn seq_bytes<T: Bytes>(s: Seq<T>) -> Seq<u8>
    decreases s.len(),
{
    if s.len() == 0 {
        Seq::empty()
    } else {
        seq_bytes(s.drop_last()) + s.last().bytes()
    }
}

/// A row of `s.len()` values has `s.len() * width()` bytes.
pub proof fn lemma_seq_bytes_len<T: Bytes>(s: Seq<T>)
    ensures
        seq_bytes(s).len() == s.len() * T::width(),
    decreases s.len(),
{
    if s.len() > 0 {
        lemma_seq_bytes_len(s.drop_last());
        s.last().lemma_width();
        assert((s.len() - 1) * T::width() + T::width() == s.len() * T::width())
            by (nonlinear_arith);
    }
}

/// The bytes of a row with one more value are the bytes of the row, then
/// those of the value.
pub proof fn lemma_seq_bytes_push<T: Bytes>(s: Seq<T>, v: T)
    ensures
        seq_bytes(s.push(v)) == seq_bytes(s) + v.bytes(),
{
    assert(s.push(v).drop_last() =~= s);
}

/// Where every byte of a row of values is `byte`, every byte of each of the
/// values is.
pub proof fn lemma_seq_bytes_filled<T: Bytes>(s: Seq<T>, byte: u8)
    requires
        seq_bytes(s) == filled(seq_bytes(s).len(), byte),
    ensures
        forall|i: int| 0 <= i < s.len() ==> (#[trigger] s[i]).bytes() == filled(T::width(), byte),
    decreases s.len(),
{
    if s.len() > 0 {
        let front = seq_bytes(s.drop_last());
        let back = s.last().bytes();
        s.last().lemma_width();
        assert(front =~= seq_bytes(s).take(front.len() as int));
        assert(back =~= seq_bytes(s).skip(front.len() as int));
        assert(front =~= filled(front.len(), byte));
        assert(back =~= filled(T::width(), byte));
        lemma_seq_bytes_filled(s.drop_last(), byte);
        assert forall|i: int| 0 <= i < s.len() implies (#[trigger] s[i]).bytes() == filled(
            T::width(),
            byte,
        ) by {
            if i < s.len() - 1 {
                assert(s[i] == s.drop_last()[i]);
            }
        }
    }
}

/// Rows of as many values are told apart by their bytes.
pub proof fn lemma_seq_bytes_tell_apart<T: Bytes>(s: Seq<T>, t: Seq<T>)
    requires
        T::width() > 0,
        s.len() == t.len(),
        seq_bytes(s) == seq_bytes(t),
    ensures
        s == t,
    decreases s.len(),
{
    if s.len() > 0 {
        let front = seq_bytes(s.drop_last());
        let other = seq_bytes(t.drop_last());
        lemma_seq_bytes_len(s.drop_last());
        lemma_seq_bytes_len(t.drop_last());
        s.last().lemma_width();
        t.last().lemma_width();
        assert(front.len() == other.len());
        assert(front =~= seq_bytes(s).take(front.len() as int));
        assert(other =~= seq_bytes(t).take(front.len() as int));
        assert(s.last().bytes() =~= seq_bytes(s).skip(front.len() as int));
        assert(t.last().bytes() =~= seq_bytes(t).skip(front.len() as int));
        s.last().lemma_bytes_tell_apart(&t.last());
        lemma_seq_bytes_tell_apart(s.drop_last(), t.drop_last());
        assert(s =~= s.drop_last().push(s.last()));
        assert(t =~= t.drop_last().push(t.last()));
    } else {
        assert(s =~= t);
    }
}

/// Rows of values of one or more bytes each that have the same bytes are
/// rows of as many values.
pub proof fn lemma_seq_bytes_tell_lengths<T: Bytes>(s: Seq<T>, t: Seq<T>)
    requires
        T::width() > 0,
        seq_bytes(s) == seq_bytes(t),
    ensures
        s.len() == t.len(),
{
    lemma_seq_bytes_len(s);
    lemma_seq_bytes_len(t);
    assert(s.len() == t.len()) by (nonlinear_arith)
        requires
            T::width() > 0,
            s.len() * T::width() == t.len() * T::width(),
    ;
}

/// The bytes of a row of one value are the bytes of that value.
pub proof fn lemma_seq_bytes_one<T: Bytes>(s: Seq<T>)
    requires
        s.len() == 1,
    ensures
        seq_bytes(s) == s[0].bytes(),
{
    reveal_with_fuel(seq_bytes, 2);
    assert(seq_bytes(s.drop_last()) =~= Seq::<u8>::empty());
    assert(seq_bytes(s) =~= s[0].bytes());
}

/// Types that lie in memory as one row of bytes, of a length that may be
/// known only at run time.
pub trait AsContiguousBytes {
    /// The bytes of the value.
    spec fn spec_bytes(&self) -> Seq<u8>;

    /// The number of elements that the value is made of: one for a single
    /// value, the length for a slice. No operation on the bytes changes it.
    spec fn spec_count(&self) -> nat;

    /// Returns the size in bytes of the value.
    fn size(&self) -> (n: usize)
        requires
            self.spec_bytes().len() <= usize::MAX,
        ensures
            n == self.spec_bytes().len(),
    ;

    /// Returns a copy of the bytes of the value.
    fn as_bytes(&self) -> (b: Vec<u8>)
        ensures
            b@ == self.spec_bytes(),
    ;

    /// Overwrites the bytes of the value with `src`.
    fn copy_from_bytes(&mut self, src: &[u8])
        requires
            src@.len() == old(self).spec_bytes().len(),
        ensures
            final(self).spec_bytes() == src@,
            final(self).spec_count() == old(self).spec_count(),
    ;
}

impl<T: Bytes> AsContiguousBytes for T {
    open spec fn spec_bytes(&self) -> Seq<u8> {
        self.bytes()
    }

    open spec fn spec_count(&self) -> nat {
        1
    }

    fn size(&self) -> (n: usize) {
        proof {
            self.lemma_width();
        }
        T::size()
    }

    fn as_bytes(&self) -> (b: Vec<u8>) {
        self.to_bytes()
    }

    fn copy_from_bytes(&mut self, src: &[u8]) {
        proof {
            self.lemma_width();
        }
        *self = T::from_bytes(src);
    }
}

impl<T: Bytes> AsContiguousBytes for [T] {
    open spec fn spec_bytes(&self) -> Seq<u8> {
        seq_bytes(self@)
    }

    open spec fn spec_count(&self) -> nat {
        self@.len()
    }

    fn size(&self) -> (n: usize) {
        proof {
            lemma_seq_bytes_len(self@);
        }
        self.len() * T::size()
    }

    fn as_bytes(&self) -> (b: Vec<u8>) {
        let len: usize = self.len();
        let mut b: Vec<u8> = Vec::new();
        let mut i: usize = 0;
        assert(self@.take(0) =~= Seq::<T>::empty());
        while i < len
            invariant
                i <= len,
                len == self@.len(),
                b@ == seq_bytes(self@.take(i as int)),
            decreases len - i,
        {
            let mut part: Vec<u8> = self[i].to_bytes();
            proof {
                assert(self@.take(i as int + 1).drop_last() =~= self@.take(i as int));
            }
            b.append(&mut part);
            i = i + 1;
        }
        assert(self@.take(len as int) =~= self@);
        b
    }

    fn copy_from_bytes(&mut self, src: &[u8]) {
        let len: usize = self.len();
        let width: usize = T::size();
        let total: usize = src.len();
        let mut i: usize = 0;
        proof {
            lemma_seq_bytes_len(self@);
            assert(self.spec_bytes() == seq_bytes(self@));
            assert(self.spec_count() == len);
            assert(len * width == self@.len() * T::width()) by (nonlinear_arith)
                requires
                    len == self@.len(),
                    width == T::width(),
            ;
            assert(self@.take(0) =~= Seq::<T>::empty());
            assert(src@.take(0) =~= Seq::<u8>::empty());
        }
        while i < len
            invariant
                i <= len,
                len == self@.len(),
                width == T::width(),
                src@.len() == len * width,
                len * width == total,
                seq_bytes(self@.take(i as int)) == src@.take(i * width),
            decreases len - i,
        {
            proof {
                assert(i * width + width == (i + 1) * width) by (nonlinear_arith);
                assert((i + 1) * width <= len * width) by (nonlinear_arith)
                    requires
                        i + 1 <= len,
                ;
            }
            let from: usize = i * width;
            let part: &[u8] = vstd::slice::slice_subrange(src, from, from + width);
            let ghost before = self@;
            self[i] = T::from_bytes(part);
            proof {
                assert(self@.take(i as int + 1).drop_last() =~= before.take(i as int));
                assert(src@.take((i + 1) * width) =~= src@.take(i * width) + part@);
            }
            i = i + 1;
        }
        proof {
            assert(self@.take(len as int) =~= self@);
            assert(src@.take(len * width) =~= src@);
            assert(self.spec_count() == len);
        }
    }
}

impl Bytes for u8 {
    open spec fn width() -> nat {
        1
    }

    open spec fn bytes(&self) -> Seq<u8> {
        seq![*self]
    }

    proof fn lemma_width(&self) {
    }

    proof fn lemma_bytes_tell_apart(&self, other: &Self) {
        assert(seq![*self][0] == *self);
        assert(seq![*other][0] == *other);
    }

    fn size() -> (n: usize) {
        1
    }

    fn to_bytes(&self) -> (b: Vec<u8>) {
        let mut b: Vec<u8> = Vec::new();
        b.push(*self);
        assert(b@ =~= seq![*self]);
        b
    }

    fn from_bytes(b: &[u8]) -> (v: Self) {
        let v: u8 = b[0];
        assert(seq![v] =~= b@);
        v
    }
}

impl Bytes for u16 {
    open spec fn width() -> nat {
        2
    }

    open spec fn bytes(&self) -> Seq<u8> {
        spec_u16_to_le_bytes(*self)
    }

    proof fn lemma_width(&self) {
        lemma_auto_spec_u16_to_from_le_bytes();
    }

    proof fn lemma_bytes_tell_apart(&self, other: &Self) {
        lemma_auto_spec_u16_to_from_le_bytes();
        assert(spec_u16_to_le_bytes(*self).len() == 2);
        assert(spec_u16_to_le_bytes(*other).len() == 2);
        assert(spec_u16_from_le_bytes(spec_u16_to_le_bytes(*self)) == *self);
        assert(spec_u16_from_le_bytes(spec_u16_to_le_bytes(*other)) == *other);
    }

    fn size() -> (n: usize) {
        2
    }

    fn to_bytes(&self) -> (b: Vec<u8>) {
        u16_to_le_bytes(*self)
    }

    fn from_bytes(b: &[u8]) -> (v: Self) {
        proof {
            lemma_auto_spec_u16_to_from_le_bytes();
        }
        u16_from_le_bytes(b)
    }
}

impl Bytes for u32 {
    open spec fn width() -> nat {
        4
    }

    open spec fn bytes(&self) -> Seq<u8> {
        spec_u32_to_le_bytes(*self)
    }

    proof fn lemma_width(&self) {
        lemma_auto_spec_u32_to_from_le_bytes();
    }

    proof fn lemma_bytes_tell_apart(&self, other: &Self) {
        lemma_auto_spec_u32_to_from_le_bytes();
        assert(spec_u32_to_le_bytes(*self).len() == 4);
        assert(spec_u32_to_le_bytes(*other).len() == 4);
        assert(spec_u32_from_le_bytes(spec_u32_to_le_bytes(*self)) == *self);
        assert(spec_u32_from_le_bytes(spec_u32_to_le_bytes(*other)) == *other);
    }

    fn size() -> (n: usize) {
        4
    }

    fn to_bytes(&self) -> (b: Vec<u8>) {
        u32_to_le_bytes(*self)
    }

    fn from_bytes(b: &[u8]) -> (v: Self) {
        proof {
            lemma_auto_spec_u32_to_from_le_bytes();
        }
        u32_from_le_bytes(b)
    }
}

impl Bytes for u64 {
    open spec fn width() -> nat {
        8
    }

    open spec fn bytes(&self) -> Seq<u8> {
        spec_u64_to_le_bytes(*self)
    }

    proof fn lemma_width(&self) {
        lemma_auto_spec_u64_to_from_le_bytes();
    }

    proof fn lemma_bytes_tell_apart(&self, other: &Self) {
        lemma_auto_spec_u64_to_from_le_bytes();
        assert(spec_u64_to_le_bytes(*self).len() == 8);
        assert(spec_u64_to_le_bytes(*other).len() == 8);
        assert(spec_u64_from_le_bytes(spec_u64_to_le_bytes(*self)) == *self);
        assert(spec_u64_from_le_bytes(spec_u64_to_le_bytes(*other)) == *other);
    }

    fn size() -> (n: usize) {
        8
    }

    fn to_bytes(&self) -> (b: Vec<u8>) {
        u64_to_le_bytes(*self)
    }

    fn from_bytes(b: &[u8]) -> (v: Self) {
        proof {
            lemma_auto_spec_u64_to_from_le_bytes();
        }
        u64_from_le_bytes(b)
    }
}

impl Bytes for u128 {
    open spec fn width() -> nat {
        16
    }

    open spec fn bytes(&self) -> Seq<u8> {
        spec_u128_to_le_bytes(*self)
    }

    proof fn lemma_width(&self) {
        lemma_auto_spec_u128_to_from_le_bytes();
    }

    proof fn lemma_bytes_tell_apart(&self, other: &Self) {
        lemma_auto_spec_u128_to_from_le_bytes();
        assert(spec_u128_to_le_bytes(*self).len() == 16);
        assert(spec_u128_to_le_bytes(*other).len() == 16);
        assert(spec_u128_from_le_bytes(spec_u128_to_le_bytes(*self)) == *self);
        assert(spec_u128_from_le_bytes(spec_u128_to_le_bytes(*other)) == *other);
    }

    fn size() -> (n: usize) {
        16
    }

    fn to_bytes(&self) -> (b: Vec<u8>) {
        u128_to_le_bytes(*self)
    }

    fn from_bytes(b: &[u8]) -> (v: Self) {
        proof {
            lemma_auto_spec_u128_to_from_le_bytes();
        }
        u128_from_le_bytes(b)
    }
}

impl Bytes for i8 {
    open spec fn width() -> nat {
        1
    }

    open spec fn bytes(&self) -> Seq<u8> {
        seq![*self as u8]
    }

    proof fn lemma_width(&self) {
    }

    proof fn lemma_bytes_tell_apart(&self, other: &Self) {
        let a: i8 = *self;
        let b: i8 = *other;
        assert(seq![a as u8][0] == a as u8);
        assert(seq![b as u8][0] == b as u8);
        assert(a == b) by (bit_vector)
            requires
                a as u8 == b as u8,
        ;
    }

    fn size() -> (n: usize) {
        1
    }

    fn to_bytes(&self) -> (b: Vec<u8>) {
        let mut b: Vec<u8> = Vec::new();
        b.push(*self as u8);
        assert(b@ =~= seq![*self as u8]);
        b
    }

    fn from_bytes(b: &[u8]) -> (v: Self) {
        let byte: u8 = b[0];
        let v: i8 = byte as i8;
        assert(v as u8 == byte) by (bit_vector)
            requires
                v == byte as i8,
        ;
        assert(seq![v as u8] =~= b@);
        v
    }
}

impl Bytes for i16 {
    open spec fn width() -> nat {
        2
    }

    open spec fn bytes(&self) -> Seq<u8> {
        spec_u16_to_le_bytes(*self as u16)
    }

    proof fn lemma_width(&self) {
        lemma_auto_spec_u16_to_from_le_bytes();
    }

    proof fn lemma_bytes_tell_apart(&self, other: &Self) {
        let a: i16 = *self;
        let b: i16 = *other;
        lemma_auto_spec_u16_to_from_le_bytes();
        assert(spec_u16_to_le_bytes(a as u16).len() == 2);
        assert(spec_u16_to_le_bytes(b as u16).len() == 2);
        assert(spec_u16_from_le_bytes(spec_u16_to_le_bytes(a as u16)) == a as u16);
        assert(spec_u16_from_le_bytes(spec_u16_to_le_bytes(b as u16)) == b as u16);
        assert(a == b) by (bit_vector)
            requires
                a as u16 == b as u16,
        ;
    }

    fn size() -> (n: usize) {
        2
    }

    fn to_bytes(&self) -> (b: Vec<u8>) {
        u16_to_le_bytes(*self as u16)
    }

    fn from_bytes(b: &[u8]) -> (v: Self) {
        proof {
            lemma_auto_spec_u16_to_from_le_bytes();
        }
        let bits: u16 = u16_from_le_bytes(b);
        let v: i16 = bits as i16;
        assert(v as u16 == bits) by (bit_vector)
            requires
                v == bits as i16,
        ;
        v
    }
}

impl Bytes for i32 {
    open spec fn width() -> nat {
        4
    }

    open spec fn bytes(&self) -> Seq<u8> {
        spec_u32_to_le_bytes(*self as u32)
    }

    proof fn lemma_width(&self) {
        lemma_auto_spec_u32_to_from_le_bytes();
    }

    proof fn lemma_bytes_tell_apart(&self, other: &Self) {
        let a: i32 = *self;
        let b: i32 = *other;
        lemma_auto_spec_u32_to_from_le_bytes();
        assert(spec_u32_to_le_bytes(a as u32).len() == 4);
        assert(spec_u32_to_le_bytes(b as u32).len() == 4);
        assert(spec_u32_from_le_bytes(spec_u32_to_le_bytes(a as u32)) == a as u32);
        assert(spec_u32_from_le_bytes(spec_u32_to_le_bytes(b as u32)) == b as u32);
        assert(a == b) by (bit_vector)
            requires
                a as u32 == b as u32,
        ;
    }

    fn size() -> (n: usize) {
        4
    }

    fn to_bytes(&self) -> (b: Vec<u8>) {
        u32_to_le_bytes(*self as u32)
    }

    fn from_bytes(b: &[u8]) -> (v: Self) {
        proof {
            lemma_auto_spec_u32_to_from_le_bytes();
        }
        let bits: u32 = u32_from_le_bytes(b);
        let v: i32 = bits as i32;
        assert(v as u32 == bits) by (bit_vector)
            requires
                v == bits as i32,
        ;
        v
    }
}

impl Bytes for i64 {
    open spec fn width() -> nat {
        8
    }

    open spec fn bytes(&self) -> Seq<u8> {
        spec_u64_to_le_bytes(*self as u64)
    }

    proof fn lemma_width(&self) {
        lemma_auto_spec_u64_to_from_le_bytes();
    }

    proof fn lemma_bytes_tell_apart(&self, other: &Self) {
        let a: i64 = *self;
        let b: i64 = *other;
        lemma_auto_spec_u64_to_from_le_bytes();
        assert(spec_u64_to_le_bytes(a as u64).len() == 8);
        assert(spec_u64_to_le_bytes(b as u64).len() == 8);
        assert(spec_u64_from_le_bytes(spec_u64_to_le_bytes(a as u64)) == a as u64);
        assert(spec_u64_from_le_bytes(spec_u64_to_le_bytes(b as u64)) == b as u64);
        assert(a == b) by (bit_vector)
            requires
                a as u64 == b as u64,
        ;
    }

    fn size() -> (n: usize) {
        8
    }

    fn to_bytes(&self) -> (b: Vec<u8>) {
        u64_to_le_bytes(*self as u64)
    }

    fn from_bytes(b: &[u8]) -> (v: Self) {
        proof {
            lemma_auto_spec_u64_to_from_le_bytes();
        }
        let bits: u64 = u64_from_le_bytes(b);
        let v: i64 = bits as i64;
        assert(v as u64 == bits) by (bit_vector)
            requires
                v == bits as i64,
        ;
        v
    }
}

impl Bytes for i128 {
    open spec fn width() -> nat {
        16
    }

    open spec fn bytes(&self) -> Seq<u8> {
        spec_u128_to_le_bytes(*self as u128)
    }

    proof fn lemma_width(&self) {
        lemma_auto_spec_u128_to_from_le_bytes();
    }

    proof fn lemma_bytes_tell_apart(&self, other: &Self) {
        let a: i128 = *self;
        let b: i128 = *other;
        lemma_auto_spec_u128_to_from_le_bytes();
        assert(spec_u128_to_le_bytes(a as u128).len() == 16);
        assert(spec_u128_to_le_bytes(b as u128).len() == 16);
        assert(spec_u128_from_le_bytes(spec_u128_to_le_bytes(a as u128)) == a as u128);
        assert(spec_u128_from_le_bytes(spec_u128_to_le_bytes(b as u128)) == b as u128);
        assert(a == b) by (bit_vector)
            requires
                a as u128 == b as u128,
        ;
    }

    fn size() -> (n: usize) {
        16
    }

    fn to_bytes(&self) -> (b: Vec<u8>) {
        u128_to_le_bytes(*self as u128)
    }

    fn from_bytes(b: &[u8]) -> (v: Self) {
        proof {
            lemma_auto_spec_u128_to_from_le_bytes();
        }
        let bits: u128 = u128_from_le_bytes(b);
        let v: i128 = bits as i128;
        assert(v as u128 == bits) by (bit_vector)
            requires
                v == bits as i128,
        ;
        v
    }
}

impl Bytes for usize {
    open spec fn width() -> nat {
        if usize::BITS == 64 {
            8
        } else {
            4
        }
    }

    open spec fn bytes(&self) -> Seq<u8> {
        if usize::BITS == 64 {
            spec_u64_to_le_bytes(*self as u64)
        } else {
            spec_u32_to_le_bytes(*self as u32)
        }
    }

    proof fn lemma_width(&self) {
        lemma_auto_spec_u64_to_from_le_bytes();
        lemma_auto_spec_u32_to_from_le_bytes();
        assert(spec_u32_to_le_bytes(*self as u32).len() == 4);
    }

    proof fn lemma_bytes_tell_apart(&self, other: &Self) {
        let a: usize = *self;
        let b: usize = *other;
        lemma_auto_spec_u64_to_from_le_bytes();
        lemma_auto_spec_u32_to_from_le_bytes();
        assert(spec_u32_to_le_bytes(a as u32).len() == 4);
        assert(spec_u32_to_le_bytes(b as u32).len() == 4);
        assert(spec_u64_from_le_bytes(spec_u64_to_le_bytes(a as u64)) == a as u64);
        assert(spec_u64_from_le_bytes(spec_u64_to_le_bytes(b as u64)) == b as u64);
        assert(spec_u32_from_le_bytes(spec_u32_to_le_bytes(a as u32)) == a as u32);
        assert(spec_u32_from_le_bytes(spec_u32_to_le_bytes(b as u32)) == b as u32);
    }

    fn size() -> (n: usize) {
        if usize::BITS == 64 {
            8
        } else {
            4
        }
    }

    fn to_bytes(&self) -> (b: Vec<u8>) {
        if usize::BITS == 64 {
            u64_to_le_bytes(*self as u64)
        } else {
            u32_to_le_bytes(*self as u32)
        }
    }

    fn from_bytes(b: &[u8]) -> (v: Self) {
        proof {
            lemma_auto_spec_u64_to_from_le_bytes();
            lemma_auto_spec_u32_to_from_le_bytes();
        }
        if usize::BITS == 64 {
            u64_from_le_bytes(b) as usize
        } else {
            u32_from_le_bytes(b) as usize
        }
    }
}

impl Bytes for isize {
    open spec fn width() -> nat {
        if usize::BITS == 64 {
            8
        } else {
            4
        }
    }

    open spec fn bytes(&self) -> Seq<u8> {
        if usize::BITS == 64 {
            spec_u64_to_le_bytes(*self as i64 as u64)
        } else {
            spec_u32_to_le_bytes(*self as i32 as u32)
        }
    }

    proof fn lemma_width(&self) {
        lemma_auto_spec_u64_to_from_le_bytes();
        lemma_auto_spec_u32_to_from_le_bytes();
        assert(spec_u32_to_le_bytes(*self as i32 as u32).len() == 4);
    }

    proof fn lemma_bytes_tell_apart(&self, other: &Self) {
        let a: i64 = *self as i64;
        let b: i64 = *other as i64;
        let c: i32 = *self as i32;
        let d: i32 = *other as i32;
        lemma_auto_spec_u64_to_from_le_bytes();
        lemma_auto_spec_u32_to_from_le_bytes();
        assert(spec_u32_to_le_bytes(c as u32).len() == 4);
        assert(spec_u32_to_le_bytes(d as u32).len() == 4);
        assert(spec_u64_from_le_bytes(spec_u64_to_le_bytes(a as u64)) == a as u64);
        assert(spec_u64_from_le_bytes(spec_u64_to_le_bytes(b as u64)) == b as u64);
        assert(spec_u32_from_le_bytes(spec_u32_to_le_bytes(c as u32)) == c as u32);
        assert(spec_u32_from_le_bytes(spec_u32_to_le_bytes(d as u32)) == d as u32);
        assert(a as u64 == b as u64 ==> a == b) by (bit_vector);
        assert(c as u32 == d as u32 ==> c == d) by (bit_vector);
    }

    fn size() -> (n: usize) {
        if usize::BITS == 64 {
            8
        } else {
            4
        }
    }

    fn to_bytes(&self) -> (b: Vec<u8>) {
        if usize::BITS == 64 {
            u64_to_le_bytes(*self as i64 as u64)
        } else {
            u32_to_le_bytes(*self as i32 as u32)
        }
    }

    fn from_bytes(b: &[u8]) -> (v: Self) {
        proof {
            lemma_auto_spec_u64_to_from_le_bytes();
            lemma_auto_spec_u32_to_from_le_bytes();
        }
        if usize::BITS == 64 {
            let bits: u64 = u64_from_le_bytes(b);
            let wide: i64 = bits as i64;
            assert(wide as u64 == bits) by (bit_vector)
                requires
                    wide == bits as i64,
            ;
            wide as isize
        } else {
            let bits: u32 = u32_from_le_bytes(b);
            let wide: i32 = bits as i32;
            assert(wide as u32 == bits) by (bit_vector)
                requires
                    wide == bits as i32,
            ;
            wide as isize
        }
    }
}

/// True if `n` values of `width` bytes each are no more bytes than a machine
/// can count. Every array that a program holds is that small.
pub open spec fn fits(n: nat, width: nat) -> bool {
    n * width <= usize::MAX
}

/// One value of any type that has bytes is no more bytes than a machine can
/// count.
pub proof fn lemma_one_fits<T: Bytes>()
    ensures
        fits(1, T::width()),
        1 * T::width() == T::width(),
{
    let any: T = arbitrary();
    any.lemma_width();
    assert(1 * T::width() == T::width()) by (nonlinear_arith);
}

/// An array lies in memory as its elements do, one after another. An array
/// type of more bytes than a machine can count has no value in any program;
/// it is given no bytes here, so that what the trait promises holds of
/// every array type.
impl<T: Bytes, const N: usize> Bytes for [T; N] {
    open spec fn width() -> nat {
        if fits(N as nat, T::width()) {
            N as nat * T::width()
        } else {
            0
        }
    }

    open spec fn bytes(&self) -> Seq<u8> {
        if fits(N as nat, T::width()) {
            seq_bytes(self@)
        } else {
            Seq::empty()
        }
    }

    proof fn lemma_width(&self) {
        lemma_seq_bytes_len(self@);
    }

    proof fn lemma_bytes_tell_apart(&self, other: &Self) {
        assert(T::width() > 0) by (nonlinear_arith)
            requires
                N as nat * T::width() > 0,
        ;
        lemma_seq_bytes_tell_apart(self@, other@);
        assert(*self =~= *other);
    }

    fn size() -> (n: usize) {
        let width: usize = T::size();
        match N.checked_mul(width) {
            Some(n) => n,
            None => 0,
        }
    }

    fn to_bytes(&self) -> (b: Vec<u8>) {
        let width: usize = T::size();
        match N.checked_mul(width) {
            Some(_) => self.as_slice().as_bytes(),
            None => Vec::new(),
        }
    }

    fn from_bytes(b: &[u8]) -> (v: Self) {
        let width: usize = T::size();
        let garbage: T = T::uninitialized();
        let mut v: [T; N] = [garbage; N];
        match N.checked_mul(width) {
            Some(_) => {
                proof {
                    lemma_seq_bytes_len(v@);
                }
                let elements: &mut [T] = &mut v;
                elements.copy_from_bytes(b);
            },
            None => {},
        }
        v
    }
}

} // verus!
