use secrets::Secret;
use std::collections::hash_map::RandomState;
use std::hash::{BuildHasher, Hasher};

/// `len` bytes that differ from one call to the next.
fn noise(len: usize) -> Vec<u8> {
    let state = RandomState::new();
    let mut bytes = Vec::with_capacity(len);
    let mut counter = 0u64;
    while bytes.len() < len {
        let mut hasher = state.build_hasher();
        hasher.write_u64(counter);
        for byte in hasher.finish().to_le_bytes() {
            if bytes.len() < len {
                bytes.push(byte);
            }
        }
        counter += 1;
    }
    bytes
}

#[test]
fn it_defaults_to_garbage_data() {
    Secret::<u16>::new(|s| assert_eq!(*s.as_ref(), 0xdbdb));
}

#[test]
fn secret_it_initializes_from_values() {
    Secret::from(&mut 5, |s| assert_eq!(*s.as_ref(), 5_u8));
}

#[test]
fn it_zeroes_values_when_initializing_from() {
    let mut value = 5_u8;

    Secret::from(&mut value, |_| {});

    assert_eq!(value, 0);
}

#[test]
fn secret_it_compares_equality() {
    Secret::<u32>::from(&mut 0x0123_4567, |a| {
        Secret::<u32>::from(&mut 0x0123_4567, |b| {
            assert!(a.eq(&b));
        });
    });
}

#[test]
fn secret_it_compares_inequality() {
    Secret::<[u64; 4]>::random(&noise(32), |a| {
        Secret::<[u64; 4]>::random(&noise(32), |b| {
            assert!(!a.eq(&b));
        });
    });
}

#[test]
fn secret_it_preserves_secrecy() {
    Secret::<[u64; 2]>::zero(|s| {
        assert_eq!(format!("{{ {} bytes redacted }}", 16), s.fmt());
    })
}

#[test]
fn secret_zero_gives_zero_bytes() {
    Secret::<u8>::zero(|s| {
        assert_eq!(*s.as_ref(), 0);
    });
    Secret::<[u32; 3]>::zero(|s| {
        assert_eq!(*s.as_ref(), [0, 0, 0]);
    });
}

#[test]
fn secret_moves_an_array_in_and_wipes_the_source() {
    let mut bytes: [u32; 4] = [1, 2, 3, 4];

    Secret::from(&mut bytes, |s| {
        assert_eq!(*s.as_ref(), [1, 2, 3, 4]);
    });

    assert_eq!(bytes, [0, 0, 0, 0]);
}

#[test]
fn secret_random_takes_the_bytes_it_is_given() {
    Secret::<u32>::random(&[0x78, 0x56, 0x34, 0x12], |s| {
        assert_eq!(*s.as_ref(), 0x1234_5678);
    });
}

#[test]
fn secret_is_written_through_its_guard() {
    let seen = Secret::<u64>::zero(|mut s| {
        *s.as_mut() = 77;
        *s.as_ref()
    });

    assert_eq!(seen, 77);
}

#[test]
fn secret_shows_its_size_and_nothing_else() {
    Secret::<u128>::zero(|s| {
        assert_eq!("{ 16 bytes redacted }", s.fmt());
    });
}
