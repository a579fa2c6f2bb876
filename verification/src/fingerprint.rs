//! A cheap 64-bit fingerprint of a byte string (FNV-1a), used to tell at a
//! glance that two clips cannot hold the same content.

use vstd::prelude::*;

verus! {

pub const FNV_OFFSET_BASIS: u64 = 0xcbf2_9ce4_8422_2325;

pub const FNV_PRIME: u64 = 0x0000_0100_0000_01b3;

/// One FNV-1a step: fold a byte into the running state.
pub open spec fn spec_mix(state: u64, byte: u8) -> u64 {
    (state ^ (byte as u64)).wrapping_mul(FNV_PRIME)
}

/// The state after folding every byte of `bytes`, in order, into `state`.
pub open spec fn spec_fold(state: u64, bytes: Seq<u8>) -> u64
    decreases bytes.len(),
{
    if bytes.len() == 0 {
        state
    } else {
        spec_mix(spec_fold(state, bytes.drop_last()), bytes.last())
    }
}

/// The fingerprint of `bytes` under a one-byte `tag` that keeps kinds of
/// content apart.
pub open spec fn spec_fingerprint(tag: u8, bytes: Seq<u8>) -> u64 {
    spec_fold(spec_mix(FNV_OFFSET_BASIS, tag), bytes)
}

/// One FNV-1a step.
pub fn mix(state: u64, byte: u8) -> (r: u64)
    ensures
        r == spec_mix(state, byte),
{
    (state ^ (byte as u64)).wrapping_mul(FNV_PRIME)
}

/// The fingerprint of `bytes` under `tag`.
pub fn fingerprint(tag: u8, bytes: &[u8]) -> (r: u64)
    ensures
        r == spec_fingerprint(tag, bytes@),
{
    let mut state = mix(FNV_OFFSET_BASIS, tag);
    let n = bytes.len();
    let mut i: usize = 0;
    while i < n
        invariant
            n == bytes@.len(),
            i <= n,
            state == spec_fold(spec_mix(FNV_OFFSET_BASIS, tag), bytes@.take(i as int)),
        decreases n - i,
    {
        assert(bytes@.take(i + 1).drop_last() =~= bytes@.take(i as int));
        state = mix(state, bytes[i]);
        i = i + 1;
    }
    assert(bytes@.take(n as int) =~= bytes@);
    state
}

} // verus!
