use vstd::prelude::*;

use vstd::string::{StrSliceExecFns, StringSliceAdditionalSpecFns};

verus! {

/// The 32-bit FNV-1a offset basis.
pub const FNV_BASIS: u32 = 2166136261;

/// The 32-bit FNV-1a prime.
pub const FNV_PRIME: u32 = 16777619;

/// One FNV-1a step: fold a byte into the running hash.
pub open spec fn fnv1a_step(h: u32, b: u8) -> u32 {
    ((((h ^ (b as u32)) as u64) * (FNV_PRIME as u64)) % 0x1_0000_0000) as u32
}

/// FNV-1a over a byte sequence, first byte to last.
pub open spec fn fnv1a(bytes: Seq<u8>) -> u32
    decreases bytes.len(),
{
    if bytes.len() == 0 {
        FNV_BASIS
    } else {
        fnv1a_step(fnv1a(bytes.drop_last()), bytes.last())
    }
}

/// The hash of a uniform name: FNV-1a over its UTF-8 bytes.
pub open spec fn spec_str_hash(s: &str) -> u32 {
    fnv1a(s.spec_bytes())
}

/// The stable string hash used for uniform-name lookup.
pub fn str_hash(s: &str) -> (r: u32)
    ensures
        r == spec_str_hash(s),
{
    let bytes = s.as_bytes_vec();
    let mut h: u32 = FNV_BASIS;
    let mut i: usize = 0;
    while i < bytes.len()
        invariant
            0 <= i <= bytes@.len(),
            h == fnv1a(bytes@.take(i as int)),
        decreases bytes@.len() - i,
    {
        let x: u64 = (h ^ (bytes[i] as u32)) as u64;
        h = ((x * 16777619) % 0x1_0000_0000) as u32;
        proof {
            assert(bytes@.take(i + 1).drop_last() =~= bytes@.take(i as int));
        }
        i = i + 1;
    }
    proof {
        assert(bytes@.take(bytes@.len() as int) =~= bytes@);
    }
    h
}

} // verus!
