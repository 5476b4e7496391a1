//! Behavioural tests for the Keccak-256 library: standard known-answer
//! vectors, determinism, digest length, block counting at the rate
//! boundary, an avalanche sanity check, and a byte-for-byte comparison
//! with an independent Keccak-256 implementation.

use keccaklib::keccak256;
use keccaklib::sponge::absorbed_block_count;

fn hex(digest: &[u8; 32]) -> String {
    let mut s = String::new();
    for b in digest.iter() {
        s.push_str(&format!("{:02x}", b));
    }
    s
}

#[test]
fn known_answer_empty() {
    let digest = keccak256(&[]);
    assert_eq!(
        hex(&digest),
        "c5d2460186f7233c927e7db2dcc703c0e500b653ca82273b7bfad8045d85a470"
    );
}

#[test]
fn known_answer_abc() {
    let digest = keccak256(b"abc");
    assert_eq!(
        hex(&digest),
        "4e03657aea45a94fc7d47ba826c8d667c0d1e6e33a64a036ec44f58fa12d6c45"
    );
}

#[test]
fn known_answer_single_zero_byte() {
    let digest = keccak256(&[0x00]);
    assert_eq!(
        hex(&digest),
        "bc36789e7a1e281436464229828f817d6612f7b477d66591ff96a9e064bcc98a"
    );
}

#[test]
fn digest_is_always_32_bytes() {
    for len in [0usize, 1, 7, 135, 136, 137, 272, 500] {
        let input: Vec<u8> = (0..len).map(|i| (i * 31 + 7) as u8).collect();
        let digest = keccak256(&input);
        assert_eq!(digest.len(), 32);
    }
}

#[test]
fn deterministic() {
    let input: Vec<u8> = (0..300).map(|i| (i * 17 + 3) as u8).collect();
    let first = keccak256(&input);
    let second = keccak256(&input);
    assert_eq!(first, second);
}

#[test]
fn block_count_at_rate_boundary() {
    // One byte short of the rate: the pad byte 0x81 fits in the last block.
    assert_eq!(absorbed_block_count(135), 1);
    // Exactly the rate: the padding needs a whole extra block.
    assert_eq!(absorbed_block_count(136), 2);
    // One byte over the rate.
    assert_eq!(absorbed_block_count(137), 2);
}

#[test]
fn block_count_general() {
    assert_eq!(absorbed_block_count(0), 1);
    assert_eq!(absorbed_block_count(1), 1);
    assert_eq!(absorbed_block_count(134), 1);
    assert_eq!(absorbed_block_count(271), 2);
    assert_eq!(absorbed_block_count(272), 3);
    assert_eq!(absorbed_block_count(1000), 8);
}

#[test]
fn boundary_lengths_match_reference() {
    for len in [135usize, 136, 137] {
        let input: Vec<u8> = (0..len).map(|i| (i * 13 + 1) as u8).collect();
        let ours = keccak256(&input);
        let reference = alloy_primitives::utils::keccak256(&input);
        assert_eq!(ours.as_slice(), reference.as_slice());
    }
}

#[test]
fn matches_reference_implementation() {
    for len in 0usize..=260 {
        let input: Vec<u8> = (0..len).map(|i| (i * 31 + len * 7 + 5) as u8).collect();
        let ours = keccak256(&input);
        let reference = alloy_primitives::utils::keccak256(&input);
        assert_eq!(ours.as_slice(), reference.as_slice(), "length {}", len);
    }
}

#[test]
fn avalanche_sanity() {
    // Flipping any single input bit should change roughly half of the 256
    // output bits; check the average over all 256 bit positions of a
    // 32-byte input stays in a generous band around 128.
    let base: Vec<u8> = (0..32).map(|i| (i * 89 + 41) as u8).collect();
    let base_digest = keccak256(&base);
    let mut total_flipped_bits: u64 = 0;
    let positions = 256u64;
    for pos in 0..positions {
        let mut flipped = base.clone();
        flipped[(pos / 8) as usize] ^= 1u8 << (pos % 8);
        let digest = keccak256(&flipped);
        for i in 0..32 {
            total_flipped_bits += (base_digest[i] ^ digest[i]).count_ones() as u64;
        }
    }
    // Average Hamming distance, in output bits, across the sample.
    let average_times_n = total_flipped_bits;
    assert!(average_times_n > 96 * positions, "too few bits change: {}", average_times_n);
    assert!(average_times_n < 160 * positions, "too many bits change: {}", average_times_n);
}
