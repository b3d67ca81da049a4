use secrets::traits::{
    AsContiguousBytes, Bytes, ConstantEq, Randomizable, Uninitializable, Zeroable,
};

#[test]
fn bytes_know_their_size() {
    assert_eq!(1, <u8 as Bytes>::size());
    assert_eq!(2, <u16 as Bytes>::size());
    assert_eq!(4, <u32 as Bytes>::size());
    assert_eq!(8, <u64 as Bytes>::size());
    assert_eq!(16, <u128 as Bytes>::size());
    assert_eq!(1, <i8 as Bytes>::size());
    assert_eq!(2, <i16 as Bytes>::size());
    assert_eq!(4, <i32 as Bytes>::size());
    assert_eq!(8, <i64 as Bytes>::size());
    assert_eq!(16, <i128 as Bytes>::size());
    assert_eq!(std::mem::size_of::<usize>(), <usize as Bytes>::size());
    assert_eq!(std::mem::size_of::<isize>(), <isize as Bytes>::size());
    assert_eq!(0, <[u64; 0] as Bytes>::size());
    assert_eq!(64, <[u128; 4] as Bytes>::size());
    assert_eq!(24, <[[u16; 3]; 4] as Bytes>::size());
}

#[test]
fn bytes_lie_as_in_memory() {
    assert_eq!(vec![0x7f], 0x7f_u8.to_bytes());
    assert_eq!(vec![0x02, 0x01], 0x0102_u16.to_bytes());
    assert_eq!(vec![0x04, 0x03, 0x02, 0x01], 0x0102_0304_u32.to_bytes());
    assert_eq!(vec![0xff], (-1_i8).to_bytes());
    assert_eq!(vec![0xfe, 0xff, 0xff, 0xff], (-2_i32).to_bytes());
    assert_eq!(vec![1, 0, 2, 0, 3, 0], [1u16, 2, 3].to_bytes());
    assert_eq!(Vec::<u8>::new(), [0u64; 0].to_bytes());
}

#[test]
fn bytes_make_the_value_they_came_from() {
    assert_eq!(0x7f_u8, u8::from_bytes(&[0x7f]));
    assert_eq!(0x0102_u16, u16::from_bytes(&[0x02, 0x01]));
    assert_eq!(-2_i32, i32::from_bytes(&[0xfe, 0xff, 0xff, 0xff]));
    assert_eq!(i64::MIN, i64::from_bytes(&i64::MIN.to_bytes()));
    assert_eq!(u128::MAX - 5, u128::from_bytes(&(u128::MAX - 5).to_bytes()));
    assert_eq!(i128::MIN + 1, i128::from_bytes(&(i128::MIN + 1).to_bytes()));
    assert_eq!(usize::MAX - 1, usize::from_bytes(&(usize::MAX - 1).to_bytes()));
    assert_eq!(isize::MIN + 1, isize::from_bytes(&(isize::MIN + 1).to_bytes()));
    assert_eq!(-1_isize, isize::from_bytes(&vec![0xff; std::mem::size_of::<isize>()]));
    assert_eq!([1u16, 2, 3], <[u16; 3]>::from_bytes(&[1, 0, 2, 0, 3, 0]));
    assert_eq!([[1u8, 2], [3, 4]], <[[u8; 2]; 2]>::from_bytes(&[1, 2, 3, 4]));
}

#[test]
fn uninitialized_values_hold_garbage() {
    assert_eq!(0xdb, u8::uninitialized());
    assert_eq!(0xdbdb, u16::uninitialized());
    assert_eq!(0xdbdb_dbdb_dbdb_dbdb, u64::uninitialized());
    assert_eq!([0xdbdb_dbdb_u32; 3], <[u32; 3]>::uninitialized());
    assert_eq!(vec![0xdb; 16], i128::uninitialized().to_bytes());
}

#[test]
fn contiguous_bytes_of_values_and_slices() {
    let value = 0x0a0b_u16;
    assert_eq!(2, AsContiguousBytes::size(&value));
    assert_eq!(vec![0x0b, 0x0a], value.as_bytes());

    let slice = &[1u32, 2][..];
    assert_eq!(8, slice.size());
    assert_eq!(vec![1, 0, 0, 0, 2, 0, 0, 0], slice.as_bytes());

    let mut target = [0u32; 2];
    target[..].copy_from_bytes(&[1, 0, 0, 0, 2, 0, 0, 0]);
    assert_eq!([1, 2], target);
}

#[test]
fn constant_eq_compares_bytes() {
    assert!(!8u32.constant_eq(&4u32));
    assert!(8u32.constant_eq(&8u32));
    assert!([1u8, 2, 3][..].constant_eq(&[1u8, 2, 3][..]));
    assert!(![1u8, 2, 3][..].constant_eq(&[1u8, 2, 4][..]));
    assert!(![1u8, 2, 3][..].constant_eq(&[1u8, 2][..]));
    assert!(![1u8, 2][..].constant_eq(&[1u8, 2, 3][..]));
}

#[test]
fn zero_sets_every_byte_to_zero() {
    let mut bytes = [1u8, 2, 3, 4];
    bytes.zero();
    assert_eq!(bytes, [0, 0, 0, 0]);

    let mut value = -7_i64;
    value.zero();
    assert_eq!(0, value);

    let mut slice = [5u16, 6];
    slice[..].zero();
    assert_eq!([0, 0], slice);
}

#[test]
fn transfer_copies_then_wipes_the_source() {
    let mut src = [4u8; 4];
    let mut dst = [1u8; 4];

    src.transfer(&mut dst);

    assert_eq!(src, [0, 0, 0, 0]);
    assert_eq!(dst, [4, 4, 4, 4]);

    let mut from = [9u16, 8];
    let mut to = [1u16, 2, 3];
    from[..].transfer(&mut to[..]);
    assert_eq!([0, 0], from);
    assert_eq!([9, 8, 3], to);
}

#[test]
fn randomize_takes_the_bytes_it_is_given() {
    let mut bytes = [0u64; 2];
    bytes.randomize(&[1, 0, 0, 0, 0, 0, 0, 0, 2, 0, 0, 0, 0, 0, 0, 0]);
    assert_eq!(bytes, [1, 2]);

    let mut value = 0_u16;
    value.randomize(&[0xcd, 0xab]);
    assert_eq!(0xabcd, value);
}

#[test]
fn garbage_sets_every_byte_to_the_mark() {
    let mut value = 5_u32;
    value.garbage();
    assert_eq!(0xdbdb_dbdb, value);

    let mut slice = [1u8, 2, 3];
    slice[..].garbage();
    assert_eq!([0xdb, 0xdb, 0xdb], slice);
}
