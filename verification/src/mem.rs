//! Operations on the bytes of a secret: comparing, wiping and moving.
//!
//! None of them stops early on what the bytes hold: each one visits every
//! byte it was given, whatever it finds.

use vstd::prelude::*;

verus! {

/// `n` bytes, each of them `byte`.
pub open spec fn filled(n: nat, byte: u8) -> Seq<u8> {
    Seq::new(n, |i: int| byte)
}

/// Compares `l` and `r` for equality. Slices of different lengths are
/// unequal, and their lengths are all that is looked at; slices of one
/// length are compared byte by byte to the end, so that the time taken does
/// not tell where they first differ.
pub fn memeq(l: &[u8], r: &[u8]) -> (equal: bool)
    ensures
        equal == (l@ == r@),
{
    if l.len() != r.len() {
        return false;
    }
    let len: usize = l.len();
    let mut diff: u8 = 0;
    let mut i: usize = 0;
    assert(l@.take(0) =~= r@.take(0));
    while i < len
        invariant
            i <= len,
            len == l@.len(),
            len == r@.len(),
            diff == 0 <==> l@.take(i as int) == r@.take(i as int),
        decreases len - i,
    {
        let a: u8 = l[i];
        let b: u8 = r[i];
        let ghost before = diff;
        diff = diff | (a ^ b);
        proof {
            assert((before | (a ^ b)) == 0 <==> (before == 0 && a == b)) by (bit_vector);
            let lt = l@.take(i as int + 1);
            let rt = r@.take(i as int + 1);
            assert(lt.drop_last() =~= l@.take(i as int));
            assert(rt.drop_last() =~= r@.take(i as int));
            assert(lt.last() == a && rt.last() == b);
            if before == 0 && a == b {
                assert(lt =~= rt);
            }
        }
        i = i + 1;
    }
    proof {
        assert(l@.take(len as int) =~= l@);
        assert(r@.take(len as int) =~= r@);
    }
    diff == 0
}

/// Fills `bytes` with zeroes.
pub fn memzero(bytes: &mut [u8])
    ensures
        final(bytes)@ == filled(old(bytes)@.len(), 0),
{
    let len: usize = bytes.len();
    let mut i: usize = 0;
    while i < len
        invariant
            i <= len,
            len == bytes@.len(),
            len == old(bytes)@.len(),
            forall|j: int| 0 <= j < i ==> bytes@[j] == 0,
        decreases len - i,
    {
        bytes[i] = 0;
        i = i + 1;
    }
}

/// Copies the bytes of `src` to the front of `dst`, then fills `src` with
/// zeroes, so that `dst` holds the only copy. What `dst` holds behind the
/// copy stays as it was.
pub fn memtransfer(src: &mut [u8], dst: &mut [u8])
    requires
        old(src)@.len() <= old(dst)@.len(),
    ensures
        final(dst)@ == old(src)@ + old(dst)@.skip(old(src)@.len() as int),
        final(src)@ == filled(old(src)@.len(), 0),
{
    let len: usize = src.len();
    let mut i: usize = 0;
    while i < len
        invariant
            i <= len,
            len == src@.len(),
            src@ == old(src)@,
            dst@.len() == old(dst)@.len(),
            len <= dst@.len(),
            forall|j: int| 0 <= j < i ==> dst@[j] == src@[j],
            forall|j: int| i <= j < dst@.len() ==> dst@[j] == old(dst)@[j],
        decreases len - i,
    {
        dst[i] = src[i];
        i = i + 1;
    }
    memzero(src);
}

} // verus!
