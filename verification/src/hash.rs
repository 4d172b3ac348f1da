//! FNV-1a, the hash that names books and stamps records.

use vstd::prelude::*;

verus! {

pub const FNV_OFFSET: u32 = 0x811c_9dc5;

pub const FNV_PRIME: u32 = 0x0100_0193;

/// The hash state after one more byte.
pub open spec fn fnv_step(h: u32, b: u8) -> u32 {
    (h ^ (b as u32)).wrapping_mul(FNV_PRIME)
}

/// The FNV-1a hash of `bytes`.
pub open spec fn fnv(bytes: Seq<u8>) -> u32
    decreases bytes.len(),
{
    if bytes.len() == 0 {
        FNV_OFFSET
    } else {
        fnv_step(fnv(bytes.drop_last()), bytes.last())
    }
}

/// 32-bit FNV-1a.
pub fn fnv1a(bytes: &[u8]) -> (h: u32)
    ensures
        h == fnv(bytes@),
{
    let mut h: u32 = FNV_OFFSET;
    let mut i: usize = 0;
    while i < bytes.len()
        invariant
            i <= bytes@.len(),
            h == fnv(bytes@.take(i as int)),
        decreases bytes@.len() - i,
    {
        h = (h ^ (bytes[i] as u32)).wrapping_mul(FNV_PRIME);
        proof {
            assert(bytes@.take(i + 1).drop_last() =~= bytes@.take(i as int));
        }
        i = i + 1;
    }
    proof {
        assert(bytes@.take(i as int) =~= bytes@);
    }
    h
}

} // verus!
