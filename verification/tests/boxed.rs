use secrets::boxed::Box;
use secrets::prot::{Misuse, Prot};
use secrets::traits::Bytes;
use std::collections::hash_map::RandomState;
use std::hash::{BuildHasher, Hasher};

/// `len` bytes that differ from one call to the next.
fn noise(len: usize) -> Vec<u8> {
    let state = RandomState::new();
    let mut bytes = Vec::with_capacity(len);
    let mut counter = 0u64;
    while bytes.len() < len {
        let mut hasher = state.build_hasher();
        hasher.write_u64(counter);
        for byte in hasher.finish().to_le_bytes() {
            if bytes.len() < len {
                bytes.push(byte);
            }
        }
        counter += 1;
    }
    bytes
}

#[test]
fn boxed_it_allows_custom_initialization() {
    let mut boxed = Box::<u8>::new(1, |secret| {
        secret.as_mut_slice().clone_from_slice(b"\x04");
    });

    assert_eq!(boxed.unlock().as_slice(), [0x04]);
    boxed.lock();
}

#[test]
fn it_initializes_with_garbage() {
    let mut boxed = Box::<u8>::new(4, |_| {});
    let unboxed = boxed.unlock().as_slice();

    let garbage = vec![u8::uninitialized(); unboxed.len()];

    assert_ne!(garbage, vec![0; garbage.len()]);
    assert_eq!(unboxed, &garbage[..]);

    boxed.lock();
}

#[test]
fn it_initializes_with_zero() {
    let mut boxed = Box::<u32>::zero(4);

    assert_eq!(boxed.unlock().as_slice(), [0, 0, 0, 0]);
    boxed.lock();
}

#[test]
fn boxed_it_initializes_from_values() {
    let mut value = [4_u64];
    let mut boxed = Box::from(&mut value[..]);

    assert_eq!(value, [0]);
    assert_eq!(boxed.unlock().as_slice(), [4]);

    boxed.lock();
}

#[test]
fn boxed_it_compares_equality() {
    let mut boxed_1 = Box::<u8>::random(1, &noise(1));
    let mut boxed_2 = boxed_1.clone();

    assert!(boxed_1.eq(&mut boxed_2));
    assert!(boxed_2.eq(&mut boxed_1));
}

#[test]
fn boxed_it_compares_inequality() {
    let mut boxed_1 = Box::<u128>::random(32, &noise(32 * 16));
    let mut boxed_2 = Box::<u128>::random(32, &noise(32 * 16));

    assert!(!boxed_1.eq(&mut boxed_2));
    assert!(!boxed_2.eq(&mut boxed_1));
}

#[test]
fn it_compares_inequality_using_size() {
    let mut boxed_1 = Box::<u8>::from(&mut [0, 0, 0, 0][..]);
    let mut boxed_2 = Box::<u8>::from(&mut [0, 0, 0, 0, 0][..]);

    assert!(!boxed_1.eq(&mut boxed_2));
    assert!(!boxed_2.eq(&mut boxed_1));
}

#[test]
fn it_initializes_with_zero_refs() {
    let boxed = Box::<u8>::zero(10);

    assert_eq!(0, boxed.refs());
}

#[test]
fn boxed_it_tracks_ref_counts_accurately() {
    let mut boxed = Box::<u8>::random(10, &noise(10));

    let _ = boxed.unlock();
    let _ = boxed.unlock();
    let _ = boxed.unlock();
    assert_eq!(3, boxed.refs());

    boxed.lock();
    boxed.lock();
    boxed.lock();
    assert_eq!(0, boxed.refs());

    let _ = boxed.unlock_mut();
    assert_eq!(1, boxed.refs());

    boxed.lock();
    assert_eq!(0, boxed.refs());
}

#[test]
fn it_doesnt_overflow_early() {
    let mut boxed = Box::<u64>::zero(4);

    for _ in 0..u8::MAX {
        let _ = boxed.unlock();
    }

    for _ in 0..u8::MAX {
        boxed.lock();
    }

    assert_eq!(0, boxed.refs());
    assert_eq!(Prot::NoAccess, boxed.prot());
}

#[test]
fn it_allows_arbitrary_readers() {
    let mut boxed = Box::<u8>::zero(1);
    let count = noise(1)[0];

    for _ in 0..count {
        let _ = boxed.unlock();
    }

    for _ in 0..count {
        boxed.lock()
    }

    assert_eq!(0, boxed.refs());
}

#[test]
fn boxed_refuses_the_reader_that_the_counter_cannot_hold() {
    let mut boxed = Box::<[u64; 8]>::zero(4);

    for _ in 0..u8::MAX {
        assert_eq!(None, boxed.check_retain(Prot::ReadOnly));
        let _ = boxed.unlock();
    }

    assert_eq!(255, boxed.refs());
    assert_eq!(Some(Misuse::TooManyRetains), boxed.check_retain(Prot::ReadOnly));
}

#[test]
fn boxed_matched_readers_leave_it_at_rest() {
    for n in [0u8, 1, 2, 17, 254, 255] {
        let mut boxed = Box::<u16>::zero(3);

        for held in 0..n {
            assert_eq!(held, boxed.refs());
            let _ = boxed.unlock();
            assert_eq!(Prot::ReadOnly, boxed.prot());
        }
        for _ in 0..n {
            assert_eq!(None, boxed.check_release());
            boxed.lock();
        }

        assert_eq!(0, boxed.refs());
        assert_eq!(Prot::NoAccess, boxed.prot());
        assert!(boxed.is_locked());
        assert_eq!(None, boxed.check_drop());
        boxed.free();
    }
}

#[test]
fn boxed_a_writer_is_alone() {
    let mut boxed = Box::<u64>::zero(1);

    let _ = boxed.unlock();
    assert_eq!(Some(Misuse::MutableWhileShared), boxed.check_retain(Prot::ReadWrite));
    assert_eq!(None, boxed.check_retain(Prot::ReadOnly));
    boxed.lock();

    let _ = boxed.unlock_mut();
    assert_eq!(Some(Misuse::AlreadyMutable), boxed.check_retain(Prot::ReadOnly));
    assert_eq!(Some(Misuse::AlreadyMutable), boxed.check_retain(Prot::ReadWrite));
    boxed.lock();
}

#[test]
fn boxed_nothing_is_released_where_nothing_is_retained() {
    let mut boxed = Box::<u64>::zero(10);
    assert_eq!(Some(Misuse::ReleaseWithoutRetain), boxed.check_release());

    let _ = boxed.unlock();
    boxed.lock();
    assert_eq!(Some(Misuse::ReleaseWithoutRetain), boxed.check_release());
}

#[test]
fn boxed_is_given_up_only_at_rest() {
    let mut boxed = Box::<u8>::zero(1);
    assert_eq!(None, boxed.check_drop());

    let _ = boxed.unlock();
    assert_eq!(Some(Misuse::RetainedAtDrop), boxed.check_drop());
    boxed.lock();

    let _ = boxed.unlock_mut();
    assert_eq!(Some(Misuse::RetainedAtDrop), boxed.check_drop());
    boxed.lock();

    assert_eq!(None, boxed.check_drop());
    boxed.free();
}

#[test]
fn boxed_is_handed_out_unlocked_and_full_of_garbage() {
    let mut boxed = Box::<u32>::new_unlocked(3);

    assert_eq!(Prot::ReadWrite, boxed.prot());
    assert_eq!(1, boxed.refs());
    assert_eq!(boxed.as_slice(), [0xdbdb_dbdb, 0xdbdb_dbdb, 0xdbdb_dbdb]);
    boxed.lock();
}

#[test]
fn boxed_checks_what_can_be_read_and_written() {
    let mut empty = Box::<u8>::zero(0);
    assert!(empty.is_empty());
    let _ = empty.unlock_mut();
    assert_eq!(Some(Misuse::ZeroLength), empty.check_read());
    assert_eq!(Some(Misuse::ZeroLength), empty.check_write());
    empty.lock();

    let mut boxed = Box::<u8>::zero(1);
    assert_eq!(Some(Misuse::ReadWhileLocked), boxed.check_read());
    assert_eq!(Some(Misuse::WriteWhileNotMutable), boxed.check_write());

    let _ = boxed.unlock();
    assert_eq!(None, boxed.check_read());
    assert_eq!(Some(Misuse::WriteWhileNotMutable), boxed.check_write());
    assert_eq!(*boxed.as_ref(), 0);
    boxed.lock();

    let _ = boxed.unlock_mut();
    assert_eq!(None, boxed.check_read());
    assert_eq!(None, boxed.check_write());
    *boxed.as_mut() = 3;
    *boxed.item_mut(0) += 1;
    assert_eq!(*boxed.item(0), 4);
    boxed.lock();
}

#[test]
fn boxed_of_lengths_three_and_four_differ() {
    let mut boxed_1 = Box::<u8>::from(&mut [1, 2, 3][..]);
    let mut boxed_2 = Box::<u8>::from(&mut [9, 9, 9, 9][..]);
    let mut boxed_3 = Box::<u8>::from(&mut [1, 2, 3, 4][..]);

    assert!(!boxed_1.eq(&mut boxed_2));
    assert!(!boxed_1.eq(&mut boxed_3));
    assert!(!boxed_3.eq(&mut boxed_1));
    assert!(boxed_1.is_locked() && boxed_2.is_locked() && boxed_3.is_locked());
}

#[test]
fn boxed_moves_bytes_in_and_wipes_the_source() {
    let mut source = [1u8, 2, 3, 4];
    let mut boxed = Box::from(&mut source[..]);

    assert_eq!(source, [0, 0, 0, 0]);
    assert_eq!(boxed.unlock().as_slice(), [1, 2, 3, 4]);
    boxed.lock();
}

#[test]
fn boxed_moves_one_value_in_and_wipes_the_source() {
    let mut source = 0x0102_0304_u32;
    let mut boxed = Box::from_value(&mut source);

    assert_eq!(source, 0);
    assert_eq!(1, boxed.len());
    assert_eq!(*boxed.unlock().as_ref(), 0x0102_0304);
    boxed.lock();
}

#[test]
fn boxed_clone_is_independent() {
    let mut boxed_1 = Box::<u32>::from(&mut [5, 6, 7][..]);
    let mut boxed_2 = boxed_1.clone();

    assert!(boxed_1.eq(&mut boxed_2));
    assert_eq!(0, boxed_1.refs());
    assert_eq!(0, boxed_2.refs());

    boxed_2.unlock_mut().as_mut_slice()[0] = 50;
    boxed_2.lock();

    assert_eq!(boxed_1.unlock().as_slice(), [5, 6, 7]);
    boxed_1.lock();
    assert_eq!(boxed_2.unlock().as_slice(), [50, 6, 7]);
    boxed_2.lock();
    assert!(!boxed_1.eq(&mut boxed_2));
}

#[test]
fn boxed_clone_leaves_readers_as_they_were() {
    let mut boxed_1 = Box::<u8>::from(&mut [1, 2][..]);
    let _ = boxed_1.unlock();
    let _ = boxed_1.unlock();

    let mut boxed_2 = boxed_1.clone();
    assert_eq!(2, boxed_1.refs());
    assert_eq!(Prot::ReadOnly, boxed_1.prot());
    assert!(boxed_2.eq(&mut boxed_1));
    assert_eq!(2, boxed_1.refs());

    boxed_1.lock();
    boxed_1.lock();
}

#[test]
fn boxed_provides_its_size() {
    assert_eq!(0, Box::<u64>::zero(0).size());
    assert_eq!(24, Box::<u64>::zero(3).size());
    assert_eq!(1024, Box::<[u64; 4]>::zero(32).size());
    assert_eq!(3, Box::<i8>::zero(3).len());
}

#[test]
fn boxed_random_takes_the_bytes_it_is_given() {
    let mut boxed = Box::<i16>::random(2, &[0xff, 0xff, 0x02, 0x01]);

    assert_eq!(boxed.unlock().as_slice(), [-1, 0x0102]);
    boxed.lock();
}

#[test]
fn boxed_keeps_what_a_failing_initialiser_returns() {
    let failed = Box::<u8>::try_new(2, |_| Err::<(), u8>(7));
    assert_eq!(Some(7), failed.err());

    let made = Box::<u8>::try_new(2, |b| {
        b.as_mut_slice().clone_from_slice(&[1, 2]);
        Ok::<(), u8>(())
    });
    let mut boxed = made.ok().unwrap();
    assert!(boxed.is_locked());
    assert_eq!(boxed.unlock().as_slice(), [1, 2]);
    boxed.lock();
}
