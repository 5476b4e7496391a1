//! The sponge driver: multi-rate padding with the Keccak domain separator
//! byte `0x01` (not SHA3's `0x06`), absorption of 136-byte blocks into the
//! state by XOR, one permutation per block, and squeezing of the first 32
//! bytes of the state as the digest.
//!
//! The rate is fixed at 136 bytes (1088 bits) and the capacity at 512 bits,
//! the instantiation whose output is 256 bits.

use vstd::prelude::*;
use crate::permutation::{spec_keccak_f, keccak_f};

verus! {

/// How many padding bytes an input of length `l` receives: at least one,
/// at most a whole block, landing the total on a block boundary.
pub open spec fn spec_pad_len(l: nat) -> nat {
    (136 - l % 136) as nat
}

/// The padding suffix for an input of length `l`: `0x01`, zeroes, then
/// `0x80` in the last byte; a lone `0x81` when only one byte is free.
pub open spec fn spec_pad_suffix(l: nat) -> Seq<u8> {
    Seq::new(
        spec_pad_len(l),
        |i: int|
            if spec_pad_len(l) == 1 {
                0x81u8
            } else if i == 0 {
                0x01u8
            } else if i == spec_pad_len(l) - 1 {
                0x80u8
            } else {
                0x00u8
            },
    )
}

/// The input followed by its padding: the shortest extension of the input
/// by the suffix above whose length is a multiple of the 136-byte rate.
pub open spec fn spec_padded(input: Seq<u8>) -> Seq<u8> {
    input + spec_pad_suffix(input.len())
}

/// How many 136-byte blocks an input of length `l` is absorbed as.
pub open spec fn spec_block_count(l: nat) -> nat {
    spec_padded(Seq::new(l, |i: int| 0u8)).len() / 136
}

/// Lane `j` of a 136-byte block: bytes `8j .. 8j + 8` read little-endian.
pub open spec fn spec_le_lane(block: Seq<u8>, j: int) -> u64 {
    (block[8 * j] as u64)
        | ((block[8 * j + 1] as u64) << 8u64)
        | ((block[8 * j + 2] as u64) << 16u64)
        | ((block[8 * j + 3] as u64) << 24u64)
        | ((block[8 * j + 4] as u64) << 32u64)
        | ((block[8 * j + 5] as u64) << 40u64)
        | ((block[8 * j + 6] as u64) << 48u64)
        | ((block[8 * j + 7] as u64) << 56u64)
}

/// A block XORed into the rate portion of the state: the block's 17
/// little-endian lanes into the first 17 lanes, the capacity untouched.
pub open spec fn spec_xor_block(s: Seq<u64>, block: Seq<u8>) -> Seq<u64> {
    Seq::new(25, |i: int| if i < 17 { s[i] ^ spec_le_lane(block, i) } else { s[i] })
}

/// The all-zero state every computation starts from.
pub open spec fn spec_zero_state() -> Seq<u64> {
    Seq::new(25, |i: int| 0u64)
}

/// The state after absorbing `msg`, block by block from the front: each
/// 136-byte block is XORed in and the permutation applied.
pub open spec fn spec_absorb(s: Seq<u64>, msg: Seq<u8>) -> Seq<u64>
    decreases msg.len(),
{
    if msg.len() < 136 {
        s
    } else {
        spec_keccak_f(
            spec_xor_block(
                spec_absorb(s, msg.subrange(0, msg.len() - 136)),
                msg.subrange(msg.len() - 136, msg.len() as int),
            ),
        )
    }
}

/// Byte `k` of a lane, little-endian.
pub open spec fn spec_lane_byte(x: u64, k: int) -> u8 {
    if k == 0 {
        (x & 0xff) as u8
    } else if k == 1 {
        ((x >> 8u64) & 0xff) as u8
    } else if k == 2 {
        ((x >> 16u64) & 0xff) as u8
    } else if k == 3 {
        ((x >> 24u64) & 0xff) as u8
    } else if k == 4 {
        ((x >> 32u64) & 0xff) as u8
    } else if k == 5 {
        ((x >> 40u64) & 0xff) as u8
    } else if k == 6 {
        ((x >> 48u64) & 0xff) as u8
    } else {
        ((x >> 56u64) & 0xff) as u8
    }
}

/// The digest read out of a state: the first 4 lanes, little-endian,
/// 32 bytes in all.
pub open spec fn spec_squeeze(s: Seq<u64>) -> Seq<u8> {
    Seq::new(32, |i: int| spec_lane_byte(s[i / 8], i % 8))
}

/// The Keccak-256 digest of an input: pad, absorb every block into the
/// all-zero state, squeeze.
pub open spec fn spec_keccak256(input: Seq<u8>) -> Seq<u8> {
    spec_squeeze(spec_absorb(spec_zero_state(), spec_padded(input)))
}

/// Absorb one 136-byte block: XOR its 17 little-endian lanes into the rate
/// portion of the state and apply the permutation.
pub fn absorb_block(state: &mut [u64; 25], block: &[u8; 136])
    ensures
        final(state)@ == spec_keccak_f(spec_xor_block(old(state)@, block@)),
{
    let mut j: usize = 0;
    while j < 17
        invariant
            j <= 17,
            forall|m: int| 0 <= m < j ==> state@[m] == old(state)@[m] ^ spec_le_lane(block@, m),
            forall|m: int| j <= m < 25 ==> state@[m] == old(state)@[m],
        decreases 17 - j,
    {
        let off = 8 * j;
        let lane: u64 = (block[off] as u64)
            | ((block[off + 1] as u64) << 8u64)
            | ((block[off + 2] as u64) << 16u64)
            | ((block[off + 3] as u64) << 24u64)
            | ((block[off + 4] as u64) << 32u64)
            | ((block[off + 5] as u64) << 40u64)
            | ((block[off + 6] as u64) << 48u64)
            | ((block[off + 7] as u64) << 56u64);
        assert(lane == spec_le_lane(block@, j as int));
        state[j] = state[j] ^ lane;
        j = j + 1;
    }
    assert(state@ =~= spec_xor_block(old(state)@, block@));
    keccak_f(state);
}

/// The Keccak-256 digest of `data`: a total function over every byte
/// length, including zero, whose result is pinned byte for byte by
/// `spec_keccak256`.
pub fn keccak256(data: &[u8]) -> (digest: [u8; 32])
    ensures
        digest@ == spec_keccak256(data@),
        digest@.len() == 32,
{
    let ghost padded = spec_padded(data@);
    let len = data.len();
    let full_blocks = len / 136;
    let rem = len % 136;
    proof {
        vstd::arithmetic::div_mod::lemma_fundamental_div_mod(len as int, 136);
        assert(padded.len() == 136 * (full_blocks + 1));
    }
    let mut state: [u64; 25] = [0; 25];
    assert(state@ =~= spec_zero_state());
    let mut buf: [u8; 136] = [0; 136];
    let mut b: usize = 0;
    while b < full_blocks
        invariant
            b <= full_blocks,
            full_blocks == len as int / 136,
            rem == len as int % 136,
            len == data@.len(),
            padded == spec_padded(data@),
            padded.len() == 136 * (full_blocks + 1),
            state@ == spec_absorb(spec_zero_state(), padded.subrange(0, 136 * b)),
        decreases full_blocks - b,
    {
        let base = 136 * b;
        let mut t: usize = 0;
        while t < 136
            invariant
                t <= 136,
                base == 136 * b,
                b < full_blocks,
                full_blocks == len as int / 136,
                len == data@.len(),
                forall|m: int| 0 <= m < t ==> buf@[m] == data@[base + m],
            decreases 136 - t,
        {
            buf[t] = data[base + t];
            t = t + 1;
        }
        absorb_block(&mut state, &buf);
        proof {
            let gbase = 136 * b as int;
            assert(buf@ =~= padded.subrange(gbase, gbase + 136));
            let p1 = padded.subrange(0, gbase + 136);
            assert(p1.subrange(0, p1.len() - 136) =~= padded.subrange(0, gbase));
            assert(p1.subrange(p1.len() - 136, p1.len() as int) =~= buf@);
            assert(state@ == spec_absorb(spec_zero_state(), p1));
        }
        b = b + 1;
    }
    let base = 136 * full_blocks;
    let mut t: usize = 0;
    let mut tail: [u8; 136] = [0; 136];
    while t < rem
        invariant
            t <= rem,
            base == 136 * full_blocks,
            full_blocks == len as int / 136,
            rem == len as int % 136,
            len == data@.len(),
            forall|m: int| 0 <= m < t ==> tail@[m] == data@[base + m],
            forall|m: int| t <= m < 136 ==> tail@[m] == 0,
        decreases rem - t,
    {
        tail[t] = data[base + t];
        t = t + 1;
    }
    if rem == 135 {
        tail[135] = 0x81;
    } else {
        tail[rem] = 0x01;
        tail[135] = 0x80;
    }
    absorb_block(&mut state, &tail);
    proof {
        let gbase = 136 * full_blocks as int;
        assert forall|m: int| 0 <= m < 136 implies tail@[m] == padded[gbase + m] by {
            if gbase + m < len {
                assert(padded[gbase + m] == data@[gbase + m]);
            } else {
                assert(padded[gbase + m] == spec_pad_suffix(data@.len())[gbase + m - len]);
            }
        }
        assert(tail@ =~= padded.subrange(gbase, gbase + 136));
        assert(padded.subrange(0, padded.len() as int) =~= padded);
        assert(padded.subrange(padded.len() - 136, padded.len() as int) =~= tail@);
        assert(padded.subrange(0, padded.len() - 136) =~= padded.subrange(0, gbase));
        assert(state@ == spec_absorb(spec_zero_state(), padded));
    }
    let mut out: [u8; 32] = [0; 32];
    let mut i: usize = 0;
    while i < 4
        invariant
            i <= 4,
            state@ == spec_absorb(spec_zero_state(), spec_padded(data@)),
            forall|m: int| 0 <= m < 8 * i ==> out@[m] == spec_squeeze(state@)[m],
        decreases 4 - i,
    {
        let lane = state[i];
        out[8 * i] = (lane & 0xff) as u8;
        out[8 * i + 1] = ((lane >> 8u64) & 0xff) as u8;
        out[8 * i + 2] = ((lane >> 16u64) & 0xff) as u8;
        out[8 * i + 3] = ((lane >> 24u64) & 0xff) as u8;
        out[8 * i + 4] = ((lane >> 32u64) & 0xff) as u8;
        out[8 * i + 5] = ((lane >> 40u64) & 0xff) as u8;
        out[8 * i + 6] = ((lane >> 48u64) & 0xff) as u8;
        out[8 * i + 7] = ((lane >> 56u64) & 0xff) as u8;
        proof {
            let gi = i as int;
            assert forall|m: int| 8 * gi <= m < 8 * gi + 8 implies out@[m] == spec_squeeze(
                state@,
            )[m] by {
                assert(m / 8 == gi && m % 8 == m - 8 * gi);
            }
        }
        i = i + 1;
    }
    assert(out@ =~= spec_keccak256(data@));
    out
}

/// The padded length of any input of length `l` is the next block boundary,
/// so the number of absorbed blocks is one more than the number of whole
/// blocks in the input: the padding always needs at least one byte of room.
pub proof fn lemma_block_count_formula(l: nat)
    ensures
        spec_block_count(l) == l / 136 + 1,
{
    vstd::arithmetic::div_mod::lemma_fundamental_div_mod(l as int, 136);
    let q = l as int / 136;
    assert(l + spec_pad_len(l) == 136 * (q + 1));
    vstd::arithmetic::div_mod::lemma_div_multiples_vanish(q + 1, 136);
}

/// Every digest is exactly 32 bytes long, whatever the input.
pub proof fn lemma_digest_len(input: Seq<u8>)
    ensures
        spec_keccak256(input).len() == 32,
{
}

/// Hashing is deterministic: the digest is a function of the input bytes
/// alone, so equal inputs yield identical digests.
pub proof fn lemma_deterministic(a: Seq<u8>, b: Seq<u8>)
    requires
        a == b,
    ensures
        spec_keccak256(a) == spec_keccak256(b),
{
}

/// For an input of length `len` with `len % 136 < 135`, the number of
/// absorbed 136-byte blocks is `len / 136 + 1`.
pub proof fn lemma_block_count(len: nat)
    requires
        len % 136 < 135,
    ensures
        spec_block_count(len) == len / 136 + 1,
{
    lemma_block_count_formula(len);
}

/// How many 136-byte blocks an input of `len` bytes is absorbed as, padding
/// included: the padded input is the next multiple of the rate above `len`.
pub fn absorbed_block_count(len: usize) -> (n: usize)
    ensures
        n as nat == spec_block_count(len as nat),
{
    proof {
        lemma_block_count_formula(len as nat);
        vstd::arithmetic::div_mod::lemma_fundamental_div_mod(len as int, 136);
    }
    len / 136 + 1
}

} // verus!
