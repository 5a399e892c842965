//! The content digest: a deterministic 64-bit FNV-1a hash over a block's
//! `(index, timestamp, data)` fields, mixed in that fixed order.
//!
//! This is an integrity check for tamper evidence, not a cryptographic
//! commitment: collisions are merely unlikely, never impossible.

use vstd::prelude::*;
use vstd::string::StringSliceAdditionalSpecFns;

verus! {

/// The FNV-1a 64-bit offset basis.
pub const FNV_OFFSET_BASIS: u64 = 0xcbf29ce484222325;

/// The FNV-1a 64-bit prime.
pub const FNV_PRIME: u64 = 0x100000001b3;

/// One mixing step: xor the unit in, then multiply by the prime modulo 2^64.
pub open spec fn fnv_step(h: u64, unit: u64) -> u64 {
    vstd::wrapping::u64_specs::wrapping_mul(h ^ unit, FNV_PRIME)
}

/// Folds a byte sequence into the running hash, front to back.
pub open spec fn fnv_bytes(h: u64, bytes: Seq<u8>) -> u64
    decreases bytes.len(),
{
    if bytes.len() == 0 {
        h
    } else {
        fnv_bytes(fnv_step(h, bytes[0] as u64), bytes.drop_first())
    }
}

/// The digest a block commits to: its index, then its timestamp, then the
/// UTF-8 bytes of its payload, each mixed in that order.
pub open spec fn block_digest(index: u64, timestamp: u64, data: Seq<char>) -> u64 {
    fnv_bytes(
        fnv_step(fnv_step(FNV_OFFSET_BASIS, index), timestamp),
        vstd::utf8::encode_utf8(data),
    )
}

fn fnv_mix(h: u64, unit: u64) -> (r: u64)
    ensures
        r == fnv_step(h, unit),
{
    (h ^ unit).wrapping_mul(FNV_PRIME)
}

/// Computes `block_digest` over the live field values.
pub fn compute_digest(index: u64, timestamp: u64, data: &str) -> (h: u64)
    ensures
        h == block_digest(index, timestamp, data@),
{
    let bytes: &[u8] = data.as_bytes();
    let mut h: u64 = fnv_mix(fnv_mix(FNV_OFFSET_BASIS, index), timestamp);
    let mut i: usize = 0;
    proof {
        assert(bytes@.skip(0) =~= bytes@);
    }
    while i < bytes.len()
        invariant
            i <= bytes@.len(),
            bytes@ == vstd::utf8::encode_utf8(data@),
            fnv_bytes(h, bytes@.skip(i as int)) == block_digest(index, timestamp, data@),
        decreases bytes@.len() - i,
    {
        proof {
            assert(bytes@.skip(i as int).drop_first() =~= bytes@.skip(i as int + 1));
        }
        h = fnv_mix(h, bytes[i] as u64);
        i = i + 1;
    }
    proof {
        assert(bytes@.skip(i as int) =~= Seq::<u8>::empty());
    }
    h
}

} // verus!
