use secrets::prot::{Access, Misuse, Prot};
use secrets::SecretVec;
use std::collections::hash_map::RandomState;
use std::hash::{BuildHasher, Hasher};

/// `len` bytes that differ from one call to the next.
fn noise(len: usize) -> Vec<u8> {
    let state = RandomState::new();
    let mut bytes = Vec::with_capacity(len);
    let mut counter = 0u64;
    while bytes.len() < len {
        let mut hasher = state.build_hasher();
        hasher.write_u64(counter);
        for byte in hasher.finish().to_le_bytes() {
            if bytes.len() < len {
                bytes.push(byte);
            }
        }
        counter += 1;
    }
    bytes
}

#[test]
fn secret_vec_it_allows_custom_initialization() {
    let _ = SecretVec::<u64>::new(4, |s| {
        s.clone_from_slice(&[1, 2, 3, 4][..]);

        assert_eq!(*s, [1, 2, 3, 4]);
    });
}

#[test]
fn secret_vec_it_allows_failing_initialization() {
    assert!(SecretVec::<u8>::try_new(|_| Ok::<(), ()>(())).is_ok());
}

#[test]
fn secret_vec_it_allows_borrowing_immutably() {
    let mut secret = SecretVec::<u64>::zero(2);
    let s = secret.borrow();

    assert_eq!(*s.as_slice(), [0, 0]);
    s.lock();
}

#[test]
fn secret_vec_it_allows_borrowing_mutably() {
    let mut secret = SecretVec::<u64>::zero(2);
    let mut s = secret.borrow_mut();

    s.as_mut_slice().clone_from_slice(&[7, 1][..]);

    assert_eq!(*s.as_slice(), [7, 1]);
    s.lock();
}

#[test]
fn secret_vec_it_allows_storing_fixed_size_arrays() {
    let mut secret = SecretVec::<[u8; 2]>::new(2, |s| {
        s.clone_from_slice(&[[1, 2], [3, 4]][..]);
    });

    let s = secret.borrow();
    assert_eq!(*s.as_slice(), [[1, 2], [3, 4]]);
    s.lock();
}

#[test]
fn it_provides_its_length() {
    let secret = SecretVec::<[u64; 4]>::zero(32);
    assert_eq!(secret.len(), 32);
}

#[test]
fn secret_vec_it_provides_its_size() {
    let secret = SecretVec::<[u64; 4]>::zero(32);
    assert_eq!(secret.size(), 1024);
}

#[test]
fn secret_vec_it_preserves_secrecy() {
    let mut secret = SecretVec::<u64>::random(32, &noise(256));

    assert_eq!(format!("{{ {} bytes redacted }}", 256), secret.fmt());

    let s = secret.borrow();
    assert_eq!(format!("{{ {} bytes redacted }}", 256), s.fmt());
    s.lock();

    let s = secret.borrow_mut();
    assert_eq!(format!("{{ {} bytes redacted }}", 256), s.fmt());
    s.lock();
}

#[test]
fn secret_vec_it_moves_safely() {
    let secret_1 = SecretVec::<u8>::zero(1);
    let mut secret_2 = secret_1;

    let s = secret_2.borrow();
    assert_eq!(*s.as_slice(), [0]);
    s.lock();
}

#[test]
fn secret_vec_it_safely_clones_immutable_references() {
    let mut secret = SecretVec::<u8>::random(4, &noise(4));
    let mut borrow_1 = secret.borrow();
    let seen_1 = borrow_1.as_slice().to_vec();

    let borrow_2 = borrow_1.clone();
    let seen_2 = borrow_2.as_slice().to_vec();
    assert_eq!(2, borrow_2.boxed.refs());
    borrow_2.lock();

    assert_eq!(seen_1, seen_2);
    assert_eq!(1, borrow_1.boxed.refs());
    borrow_1.lock();
}

#[test]
fn secret_vec_it_compares_equality() {
    let mut secret_1 = SecretVec::<u8>::from(&mut [1, 2, 3][..]);
    let mut secret_2 = secret_1.clone();

    assert!(secret_1.eq(&mut secret_2));
}

#[test]
fn secret_vec_it_compares_inequality() {
    let mut secret_1 = SecretVec::<[u64; 8]>::random(32, &noise(32 * 64));
    let mut secret_2 = SecretVec::<[u64; 8]>::random(32, &noise(32 * 64));

    assert!(!secret_1.eq(&mut secret_2));
}

#[test]
fn secret_vec_it_compares_equality_immutably_on_refs() {
    let mut secret_1 = SecretVec::<u8>::from(&mut [0xaf][..]);
    let mut secret_2 = secret_1.clone();

    let r1 = secret_1.borrow();
    let r2 = secret_2.borrow();
    assert!(r1.eq(&r2));
    r1.lock();
    r2.lock();
}

#[test]
fn secret_vec_it_compares_equality_immutably_on_ref_muts() {
    let mut secret_1 = SecretVec::<u8>::from(&mut [0xaf][..]);
    let mut secret_2 = secret_1.clone();

    let r1 = secret_1.borrow_mut();
    let r2 = secret_2.borrow_mut();
    assert!(r1.eq(&r2));
    r1.lock();
    r2.lock();
}

#[test]
fn secret_vec_it_compares_equality_immutably_regardless_of_mut() {
    let mut secret_1 = SecretVec::<u8>::from(&mut [0xaf][..]);
    let mut secret_2 = secret_1.clone();

    let w1 = secret_1.borrow_mut();
    let r2 = secret_2.borrow();
    assert!(w1.eq_ref(&r2));
    assert!(r2.eq_mut(&w1));
    w1.lock();
    r2.lock();

    let w2 = secret_2.borrow_mut();
    let r1 = secret_1.borrow();
    assert!(w2.eq_ref(&r1));
    assert!(r1.eq_mut(&w2));
    w2.lock();
    r1.lock();
}

#[test]
fn secret_vec_moves_bytes_in_and_wipes_the_source() {
    let mut value = [1u8, 2, 3, 4];
    let mut secret = SecretVec::from(&mut value[..]);

    assert_eq!(value, [0, 0, 0, 0]);

    let s = secret.borrow();
    assert_eq!(*s.as_slice(), [1, 2, 3, 4]);
    s.lock();
}

#[test]
fn secret_vec_zero_of_four_byte_values_reads_back_as_zero() {
    let mut secret = SecretVec::<u32>::zero(4);

    let s = secret.borrow();
    assert_eq!(*s.as_slice(), [0, 0, 0, 0]);
    s.lock();
}

#[test]
fn secret_vec_clone_is_independent() {
    let mut secret_1 = SecretVec::<u8>::from(&mut [9, 8, 7][..]);
    let mut secret_2 = secret_1.clone();
    assert!(secret_1.eq(&mut secret_2));

    let mut w = secret_2.borrow_mut();
    w.as_mut_slice()[1] = 0;
    w.lock();

    let r = secret_1.borrow();
    assert_eq!(*r.as_slice(), [9, 8, 7]);
    r.lock();
    assert!(!secret_1.eq(&mut secret_2));
}

#[test]
fn secret_vec_of_lengths_three_and_four_differ() {
    let mut secret_1 = SecretVec::<u8>::from(&mut [5, 5, 5][..]);
    let mut secret_2 = SecretVec::<u8>::from(&mut [5, 5, 5, 5][..]);

    assert!(!secret_1.eq(&mut secret_2));
    assert!(!secret_2.eq(&mut secret_1));
}

#[test]
fn secret_vec_gets_single_values() {
    let mut secret = SecretVec::<u8>::new(2, |s| {
        s[0] = 3;
        s[1] = 5;
    });

    let item = secret.get(0).unwrap();
    assert_eq!(*item.as_ref(), 3);
    assert_eq!(0, item.index);
    item.lock();

    assert!(secret.get(2).is_none());

    let item = secret.get(1).unwrap();
    assert_eq!(*item.as_ref(), 5);
    assert_eq!(format!("{{ {} bytes redacted }}", 1), item.fmt());
    item.lock();

    secret.free();
}

#[test]
fn secret_vec_a_missing_value_leaves_nothing_borrowed() {
    let mut secret = SecretVec::<u16>::zero(2);

    assert!(secret.get(2).is_none());
    assert!(secret.get_mut(7).is_none());

    // a writer needs the secret at rest
    let mut w = secret.borrow_mut();
    w.as_mut_slice()[0] = 1;
    assert_eq!(1, w.boxed.refs());
    w.lock();
}

#[test]
fn secret_vec_gets_single_values_mutably() {
    let mut secret = SecretVec::<u8>::new(2, |s| {
        s[0] = 3;
        s[1] = 5;
    });

    let item = secret.get_mut(0).unwrap();
    assert_eq!(*item.as_ref(), 3);
    item.lock();

    assert!(secret.get_mut(2).is_none());

    let mut item = secret.get_mut(1).unwrap();
    *item.as_mut() = 1;
    item.lock();

    let item = secret.get_mut(1).unwrap();
    assert_eq!(*item.as_ref(), 1);
    item.lock();
}

#[test]
fn secret_vec_items_are_compared_by_their_bytes() {
    let mut secret_1 = SecretVec::<u32>::from(&mut [7, 8][..]);
    let mut secret_2 = SecretVec::<u32>::from(&mut [8, 7][..]);

    let a = secret_1.get(0).unwrap();
    let b = secret_2.get(1).unwrap();
    assert!(a.eq(&b));
    b.lock();
    let c = secret_2.get(0).unwrap();
    assert!(!a.eq(&c));
    c.lock();
    a.lock();
}

#[test]
fn secret_vec_walks_over_its_values() {
    let mut secret = SecretVec::<u16>::from(&mut [10, 20, 30, 40][..]);
    let mut seen = Vec::new();

    let mut walk = secret.iter();
    assert_eq!((4, Some(4)), walk.size_hint());
    while let Some(item) = walk.next() {
        seen.push(*item.as_ref());
        item.lock();
    }
    assert_eq!((0, Some(0)), walk.size_hint());
    assert!(walk.next().is_none());

    assert_eq!(seen, [10, 20, 30, 40]);
}

#[test]
fn secret_vec_walk_passes_over_values() {
    let mut secret = SecretVec::<u16>::from(&mut [10, 20, 30, 40][..]);

    let mut walk = secret.iter();
    let item = walk.nth(2).unwrap();
    assert_eq!(*item.as_ref(), 30);
    item.lock();
    assert_eq!((1, Some(1)), walk.size_hint());

    assert!(walk.nth(1).is_none());
    assert_eq!((0, Some(0)), walk.size_hint());
    assert!(walk.next().is_none());
}

#[test]
fn secret_vec_of_no_values() {
    let mut secret = SecretVec::<u64>::zero(0);

    assert!(secret.is_empty());
    assert_eq!(0, secret.len());
    assert_eq!(0, secret.size());
    assert!(secret.get(0).is_none());
    assert!(secret.iter().next().is_none());
}

#[test]
fn secret_vec_random_takes_the_bytes_it_is_given() {
    let mut secret = SecretVec::<u16>::random(2, &[1, 2, 3, 4]);

    let s = secret.borrow();
    assert_eq!(*s.as_slice(), [0x0201, 0x0403]);
    s.lock();
}

#[test]
fn secret_vec_shows_its_size_and_nothing_else() {
    let mut secret = SecretVec::<[u64; 4]>::zero(32);
    assert_eq!("{ 1024 bytes redacted }", secret.fmt());

    let s = secret.borrow();
    assert_eq!("{ 1024 bytes redacted }", s.fmt());
    s.lock();

    let item = secret.get_mut(3).unwrap();
    assert_eq!("{ 32 bytes redacted }", item.fmt());
    item.lock();

    assert_eq!("{ 0 bytes redacted }", SecretVec::<u8>::zero(0).fmt());
    assert_eq!("{ 7 bytes redacted }", SecretVec::<u8>::zero(7).fmt());
    assert_eq!("{ 10 bytes redacted }", SecretVec::<u16>::zero(5).fmt());
}

#[test]
fn secret_vec_tells_whether_a_borrow_is_legal() {
    let mut secret = SecretVec::<u8>::zero(2);
    assert_eq!(Access::locked(), secret.access());
    assert_eq!(None, secret.access().check_retain(Prot::ReadWrite));
    assert_eq!(None, secret.access().check_drop());

    let r = secret.borrow();
    let held = Access { prot: r.boxed.prot(), refs: r.boxed.refs() };
    assert_eq!(Access { prot: Prot::ReadOnly, refs: 1 }, held);
    assert_eq!(Some(Misuse::MutableWhileShared), held.check_retain(Prot::ReadWrite));
    assert_eq!(Some(Misuse::RetainedAtDrop), held.check_drop());
    r.lock();

    let w = secret.borrow_mut();
    let held = Access { prot: w.boxed.prot(), refs: w.boxed.refs() };
    assert_eq!(Access::fresh(), held);
    assert_eq!(Some(Misuse::AlreadyMutable), held.check_retain(Prot::ReadOnly));
    w.lock();

    assert_eq!(Access::locked(), secret.access());
    secret.free();
}
