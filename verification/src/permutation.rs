//! The Keccak-f[1600] permutation: a 1600-bit state held as 25 sixty-four-bit
//! lanes (logically a 5x5 matrix, lane (x, y) at index x + 5*y), driven
//! through 24 rounds of the five step mappings theta, rho, pi, chi and iota.

use vstd::prelude::*;

verus! {

/// Left rotation of a 64-bit lane by `s` bits, `s < 64`.
pub open spec fn spec_rotl(x: u64, s: u64) -> u64 {
    if s == 0 {
        x
    } else {
        (x << s) | (x >> ((64 - s) as u64))
    }
}

/// The 25 rotation offsets of the rho step, one per lane, in lane-index
/// order (lane (x, y) at index x + 5*y); lane (0, 0) has offset 0.
pub open spec fn spec_rotation_offsets() -> Seq<u64> {
    seq![
        0, 1, 62, 28, 27,
        36, 44, 6, 55, 20,
        3, 10, 43, 25, 39,
        41, 45, 15, 21, 8,
        18, 2, 61, 56, 14,
    ]
}

/// The 24 round constants of the iota step, in round order.
pub open spec fn spec_round_constants() -> Seq<u64> {
    seq![
        0x0000000000000001, 0x0000000000008082, 0x800000000000808a, 0x8000000080008000,
        0x000000000000808b, 0x0000000080000001, 0x8000000080008081, 0x8000000000008009,
        0x000000000000008a, 0x0000000000000088, 0x0000000080008009, 0x000000008000000a,
        0x000000008000808b, 0x800000000000008b, 0x8000000000008089, 0x8000000000008003,
        0x8000000000008002, 0x8000000000000080, 0x000000000000800a, 0x800000008000000a,
        0x8000000080008081, 0x8000000000008080, 0x0000000080000001, 0x8000000080008008,
    ]
}

/// Parity of column `x`: the XOR of the five lanes of that column.
pub open spec fn spec_column_parity(s: Seq<u64>, x: int) -> u64 {
    s[x] ^ s[x + 5] ^ s[x + 10] ^ s[x + 15] ^ s[x + 20]
}

/// The theta adjustment of column `x`: parity of the column to its left
/// XOR the parity of the column to its right rotated by one bit.
pub open spec fn spec_theta_d(s: Seq<u64>, x: int) -> u64 {
    spec_column_parity(s, (x + 4) % 5) ^ spec_rotl(spec_column_parity(s, (x + 1) % 5), 1)
}

/// Theta: every lane is XORed with the adjustment of its column, all
/// adjustments being computed from the pre-step state.
pub open spec fn spec_theta(s: Seq<u64>) -> Seq<u64> {
    Seq::new(25, |i: int| s[i] ^ spec_theta_d(s, i % 5))
}

/// Rho: every lane is rotated left by its fixed offset.
pub open spec fn spec_rho(s: Seq<u64>) -> Seq<u64> {
    Seq::new(25, |i: int| spec_rotl(s[i], spec_rotation_offsets()[i]))
}

/// The index of the lane that pi moves to index `i`: lane (x, y) receives
/// lane ((x + 3y) mod 5, x).
pub open spec fn spec_pi_source(i: int) -> int {
    (i % 5 + 3 * (i / 5)) % 5 + 5 * (i % 5)
}

/// Pi: a pure relocation of the lanes, no bit rotation.
pub open spec fn spec_pi(s: Seq<u64>) -> Seq<u64> {
    Seq::new(25, |i: int| s[spec_pi_source(i)])
}

/// Chi: each lane is XORed with the AND of the complement of the next lane
/// in its row and the lane after that, all read from the pre-step state.
pub open spec fn spec_chi(s: Seq<u64>) -> Seq<u64> {
    Seq::new(
        25,
        |i: int| s[i] ^ ((!s[(i % 5 + 1) % 5 + 5 * (i / 5)]) & s[(i % 5 + 2) % 5 + 5 * (i / 5)]),
    )
}

/// Iota: lane (0, 0) is XORed with the constant of round `r`.
pub open spec fn spec_iota(s: Seq<u64>, r: int) -> Seq<u64> {
    s.update(0, s[0] ^ spec_round_constants()[r])
}

/// One full round: theta, rho, pi, chi, iota, in that order.
pub open spec fn spec_round(s: Seq<u64>, r: int) -> Seq<u64> {
    spec_iota(spec_chi(spec_pi(spec_rho(spec_theta(s)))), r)
}

/// The state after the first `n` rounds of Keccak-f[1600].
pub open spec fn spec_rounds(s: Seq<u64>, n: nat) -> Seq<u64>
    decreases n,
{
    if n == 0 {
        s
    } else {
        spec_round(spec_rounds(s, (n - 1) as nat), n - 1)
    }
}

/// The whole permutation: 24 rounds.
pub open spec fn spec_keccak_f(s: Seq<u64>) -> Seq<u64> {
    spec_rounds(s, 24)
}

/// Left rotation of a lane, bit-exact image of `spec_rotl`.
pub fn rotl(x: u64, s: u64) -> (r: u64)
    requires
        s < 64,
    ensures
        r == spec_rotl(x, s),
{
    if s == 0 {
        x
    } else {
        (x << s) | (x >> (64 - s))
    }
}

/// The rho rotation offset of the lane at index `i`.
pub fn rotation_offset(i: usize) -> (r: u64)
    requires
        i < 25,
    ensures
        r == spec_rotation_offsets()[i as int],
        r < 64,
{
    match i {
        0 => 0,
        1 => 1,
        2 => 62,
        3 => 28,
        4 => 27,
        5 => 36,
        6 => 44,
        7 => 6,
        8 => 55,
        9 => 20,
        10 => 3,
        11 => 10,
        12 => 43,
        13 => 25,
        14 => 39,
        15 => 41,
        16 => 45,
        17 => 15,
        18 => 21,
        19 => 8,
        20 => 18,
        21 => 2,
        22 => 61,
        23 => 56,
        _ => 14,
    }
}

/// The iota constant of round `r`.
pub fn round_constant(r: usize) -> (c: u64)
    requires
        r < 24,
    ensures
        c == spec_round_constants()[r as int],
{
    match r {
        0 => 0x0000000000000001,
        1 => 0x0000000000008082,
        2 => 0x800000000000808a,
        3 => 0x8000000080008000,
        4 => 0x000000000000808b,
        5 => 0x0000000080000001,
        6 => 0x8000000080008081,
        7 => 0x8000000000008009,
        8 => 0x000000000000008a,
        9 => 0x0000000000000088,
        10 => 0x0000000080008009,
        11 => 0x000000008000000a,
        12 => 0x000000008000808b,
        13 => 0x800000000000008b,
        14 => 0x8000000000008089,
        15 => 0x8000000000008003,
        16 => 0x8000000000008002,
        17 => 0x8000000000000080,
        18 => 0x000000000000800a,
        19 => 0x800000008000000a,
        20 => 0x8000000080008081,
        21 => 0x8000000000008080,
        22 => 0x0000000080000001,
        _ => 0x8000000080008008,
    }
}

/// Theta step: XOR every lane with its column adjustment, the adjustments
/// being drawn from a 5-lane parity buffer filled before any lane changes.
pub fn theta(a: &mut [u64; 25])
    ensures
        final(a)@ == spec_theta(old(a)@),
{
    let mut c: [u64; 5] = [0; 5];
    let mut x: usize = 0;
    while x < 5
        invariant
            x <= 5,
            a@ == old(a)@,
            forall|j: int| 0 <= j < x ==> c@[j] == spec_column_parity(a@, j),
        decreases 5 - x,
    {
        c[x] = a[x] ^ a[x + 5] ^ a[x + 10] ^ a[x + 15] ^ a[x + 20];
        x = x + 1;
    }
    let mut d: [u64; 5] = [0; 5];
    let mut x: usize = 0;
    while x < 5
        invariant
            x <= 5,
            a@ == old(a)@,
            forall|j: int| 0 <= j < 5 ==> c@[j] == spec_column_parity(a@, j),
            forall|j: int| 0 <= j < x ==> d@[j] == spec_theta_d(a@, j),
        decreases 5 - x,
    {
        d[x] = c[(x + 4) % 5] ^ rotl(c[(x + 1) % 5], 1);
        x = x + 1;
    }
    let mut i: usize = 0;
    while i < 25
        invariant
            i <= 25,
            forall|j: int| 0 <= j < 5 ==> d@[j] == spec_theta_d(old(a)@, j),
            forall|j: int| i <= j < 25 ==> a@[j] == old(a)@[j],
            forall|j: int| 0 <= j < i ==> a@[j] == spec_theta(old(a)@)[j],
        decreases 25 - i,
    {
        a[i] = a[i] ^ d[i % 5];
        i = i + 1;
    }
    assert(a@ =~= spec_theta(old(a)@));
}

/// Rho step: rotate every lane left by its fixed offset.
pub fn rho(a: &mut [u64; 25])
    ensures
        final(a)@ == spec_rho(old(a)@),
{
    let mut i: usize = 0;
    while i < 25
        invariant
            i <= 25,
            forall|j: int| i <= j < 25 ==> a@[j] == old(a)@[j],
            forall|j: int| 0 <= j < i ==> a@[j] == spec_rho(old(a)@)[j],
        decreases 25 - i,
    {
        a[i] = rotl(a[i], rotation_offset(i));
        i = i + 1;
    }
    assert(a@ =~= spec_rho(old(a)@));
}

/// Pi step: relocate the lanes through a full-state copy, since source and
/// destination positions alias.
pub fn pi(a: &mut [u64; 25])
    ensures
        final(a)@ == spec_pi(old(a)@),
{
    let b: [u64; 25] = *a;
    let mut i: usize = 0;
    while i < 25
        invariant
            i <= 25,
            b@ == old(a)@,
            forall|j: int| 0 <= j < i ==> a@[j] == spec_pi(old(a)@)[j],
        decreases 25 - i,
    {
        let x = i % 5;
        let y = i / 5;
        a[i] = b[(x + 3 * y) % 5 + 5 * x];
        i = i + 1;
    }
    assert(a@ =~= spec_pi(old(a)@));
}

/// Chi step: the non-linear row mixing, read from a pre-step copy.
pub fn chi(a: &mut [u64; 25])
    ensures
        final(a)@ == spec_chi(old(a)@),
{
    let b: [u64; 25] = *a;
    let mut i: usize = 0;
    while i < 25
        invariant
            i <= 25,
            b@ == old(a)@,
            forall|j: int| 0 <= j < i ==> a@[j] == spec_chi(old(a)@)[j],
        decreases 25 - i,
    {
        let x = i % 5;
        let y = i / 5;
        a[i] = b[i] ^ ((!b[(x + 1) % 5 + 5 * y]) & b[(x + 2) % 5 + 5 * y]);
        i = i + 1;
    }
    assert(a@ =~= spec_chi(old(a)@));
}

/// The Keccak-f[1600] permutation: 24 rounds of theta, rho, pi, chi, iota.
pub fn keccak_f(a: &mut [u64; 25])
    ensures
        final(a)@ == spec_keccak_f(old(a)@),
{
    let mut r: usize = 0;
    while r < 24
        invariant
            r <= 24,
            a@ == spec_rounds(old(a)@, r as nat),
        decreases 24 - r,
    {
        let ghost before = a@;
        theta(a);
        rho(a);
        pi(a);
        chi(a);
        a[0] = a[0] ^ round_constant(r);
        assert(a@ =~= spec_round(before, r as int));
        r = r + 1;
    }
}

} // verus!
