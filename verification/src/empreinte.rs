//! FNV-1a on 64 bits: the fingerprint that names cached files and machines.

use vstd::prelude::*;

verus! {

pub const BASE: u64 = 0xcbf2_9ce4_8422_2325;

pub const PREMIER: u64 = 0x0000_0100_0000_01b3;

/// One byte more.
pub open spec fn melange(h: u64, octet: u8) -> u64 {
    (h ^ octet as u64).wrapping_mul(PREMIER)
}

/// The fingerprint of bytes, from the state that earlier bytes left.
pub open spec fn fnv(h: u64, octets: Seq<u8>) -> u64
    decreases octets.len(),
{
    if octets.len() == 0 {
        h
    } else {
        melange(fnv(h, octets.drop_last()), octets.last())
    }
}

/// Mixes bytes into a fingerprint.
pub fn melanger(h: u64, octets: &[u8]) -> (r: u64)
    ensures
        r == fnv(h, octets@),
{
    let mut r: u64 = h;
    let mut i: usize = 0;
    while i < octets.len()
        invariant
            i <= octets@.len(),
            r == fnv(h, octets@.take(i as int)),
        decreases octets@.len() - i,
    {
        assert(octets@.take(i + 1).drop_last() =~= octets@.take(i as int));
        r = (r ^ octets[i] as u64).wrapping_mul(PREMIER);
        i += 1;
    }
    assert(octets@.take(i as int) =~= octets@);
    r
}

/// A print is made byte by byte: that of a text followed by another goes on from
/// that of the first.
pub proof fn loi_empreinte_bout_a_bout(h: u64, a: Seq<u8>, b: Seq<u8>)
    ensures
        fnv(h, a + b) == fnv(fnv(h, a), b),
        fnv(h, Seq::empty()) == h,
    decreases b.len(),
{
    if b.len() == 0 {
        assert(a + b =~= a);
    } else {
        loi_empreinte_bout_a_bout(h, a, b.drop_last());
        assert((a + b).drop_last() =~= a + b.drop_last());
    }
}

} // verus!
