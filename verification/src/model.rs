//! Mathematical model of the turb1600 sponge construction.
//!
//! Every function here is specification-level: together they pin down, lane
//! by lane and byte by byte, the digest that the executable engine in
//! `engine` must produce.  The construction is a 1600-bit sponge (25 lanes of
//! 64 bits) with an 1088-bit rate (17 lanes), a 512-bit capacity (8 lanes)
//! and a 1024-bit (128-byte) digest.

use vstd::prelude::*;
use vstd::bytes::spec_u64_from_le_bytes;
use vstd::bytes::spec_u64_to_le_bytes;
use vstd::bytes::lemma_auto_spec_u64_to_from_le_bytes;

verus! {

/// Lanes in the sponge state: 1600 bits in 64-bit words.
pub const WORDS: usize = 25;

/// Bytes absorbed per block: the 1088-bit rate.
pub const RATE_BYTES: usize = 136;

/// Rate lanes: the prefix of the state that input and output touch.
pub const RATE_WORDS: usize = RATE_BYTES / 8;

/// Permutation rounds charged to every absorbed block.
pub const ROUNDS: usize = 16;

/// Extra permutation rounds after the last absorbed block.
pub const FINAL_ROUNDS: usize = 4;

/// Digest length in bytes: 1024 bits.
pub const OUTPUT_BYTES: usize = 128;

/// Number of precomputed round constants.
pub const RC_COUNT: usize = 1024;

// ---------------------------------------------------------------------
// Lane rotation
// ---------------------------------------------------------------------

/// Rotate a 64-bit lane left by `n` bit positions (`0 <= n < 64`).
pub open spec fn rotl64(x: u64, n: u32) -> u64
    recommends
        n < 64,
{
    if n == 0 {
        x
    } else {
        (x << n) | (x >> ((64 - n) as u32))
    }
}

// ---------------------------------------------------------------------
// Round constants
// ---------------------------------------------------------------------

/// One step of the xor-shift generator behind the round-constant table.
pub open spec fn spec_xorshift(x: u64) -> u64 {
    let a = x ^ (x << 7u64);
    let b = a ^ (a >> 9u64);
    b ^ (b << 8u64)
}

/// The xor-shift generator iterated `i` times from its fixed seed.
pub open spec fn spec_rc_stream(i: nat) -> u64
    decreases i,
{
    if i == 0 {
        0x9E37_79B9_7F4A_7C15u64
    } else {
        spec_xorshift(spec_rc_stream((i - 1) as nat))
    }
}

/// The table of `RC_COUNT` round constants: entry `i` is the generator
/// state after `i + 1` steps.
pub open spec fn spec_rc_table() -> Seq<u64> {
    Seq::new(RC_COUNT as nat, |i: int| spec_rc_stream((i + 1) as nat))
}

/// The mixing constant injected in round `r`: the table entry for
/// `r mod RC_COUNT`.
pub open spec fn spec_round_constant(r: nat) -> u64 {
    spec_rc_stream((r % (RC_COUNT as nat) + 1) as nat)
}

// ---------------------------------------------------------------------
// Domain tag and initial state
// ---------------------------------------------------------------------

/// The fixed domain-separation tag, the ASCII bytes of
/// `turb1600 | sponge-hash | state=1600 | rate=1088 | capacity=512 | output=1024 | v1`.
pub open spec fn spec_domain_tag() -> Seq<u8> {
    seq![
        116u8, 117, 114, 98, 49, 54, 48, 48, 32, 124, 32, 115, 112,
        111, 110, 103, 101, 45, 104, 97, 115, 104, 32, 124, 32, 115,
        116, 97, 116, 101, 61, 49, 54, 48, 48, 32, 124, 32, 114,
        97, 116, 101, 61, 49, 48, 56, 56, 32, 124, 32, 99, 97,
        112, 97, 99, 105, 116, 121, 61, 53, 49, 50, 32, 124, 32,
        111, 117, 116, 112, 117, 116, 61, 49, 48, 50, 52, 32, 124,
        32, 118, 49,
    ]
}

/// The all-zero 25-lane state.
pub open spec fn spec_zero_state() -> Seq<u64> {
    Seq::new(WORDS as nat, |i: int| 0u64)
}

/// The zero state after folding in the first `i` tag bytes: byte `j`,
/// offset by its position, is XORed into lane `j mod WORDS`.
pub open spec fn spec_seed_fold(i: nat) -> Seq<u64>
    recommends
        i <= spec_domain_tag().len(),
    decreases i,
{
    if i == 0 {
        spec_zero_state()
    } else {
        let prev = spec_seed_fold((i - 1) as nat);
        let lane = (i - 1) % (WORDS as int);
        let contribution = ((spec_domain_tag()[i - 1] as u64) + ((i - 1) as u64)) as u64;
        prev.update(lane, prev[lane] ^ contribution)
    }
}

/// The initial state: the whole domain tag folded into the zero state.
/// It does not depend on the message.
pub open spec fn spec_initial_state() -> Seq<u64> {
    spec_seed_fold(spec_domain_tag().len())
}

// ---------------------------------------------------------------------
// Permutation round, layer by layer
// ---------------------------------------------------------------------

/// XOR of the five lanes of column `x` (lanes `x, x+5, .., x+20`).
pub open spec fn spec_column_parity(s: Seq<u64>, x: int) -> u64
    recommends
        s.len() == WORDS,
        0 <= x < 5,
{
    s[x] ^ s[x + 5] ^ s[x + 10] ^ s[x + 15] ^ s[x + 20]
}

/// Diffusion correction for column `x`: the parity of the column to its
/// left XORed with the once-rotated parity of the column to its right.
pub open spec fn spec_theta_d(s: Seq<u64>, x: int) -> u64
    recommends
        s.len() == WORDS,
        0 <= x < 5,
{
    spec_column_parity(s, (x + 4) % 5) ^ rotl64(spec_column_parity(s, (x + 1) % 5), 1)
}

/// Diffusion layer: every lane absorbs its column's correction value.
pub open spec fn spec_theta(s: Seq<u64>) -> Seq<u64>
    recommends
        s.len() == WORDS,
{
    Seq::new(WORDS as nat, |i: int| s[i] ^ spec_theta_d(s, i % 5))
}

/// Base rotation amount of lane `i`, a fixed 25-entry table.
pub open spec fn spec_base_rot(i: int) -> u32
    recommends
        0 <= i < WORDS,
{
    if i == 0 { 0 } else if i == 1 { 1 } else if i == 2 { 62 } else if i == 3 { 28 }
    else if i == 4 { 27 } else if i == 5 { 36 } else if i == 6 { 44 } else if i == 7 { 6 }
    else if i == 8 { 55 } else if i == 9 { 20 } else if i == 10 { 3 } else if i == 11 { 10 }
    else if i == 12 { 43 } else if i == 13 { 25 } else if i == 14 { 39 } else if i == 15 { 41 }
    else if i == 16 { 45 } else if i == 17 { 15 } else if i == 18 { 21 } else if i == 19 { 8 }
    else if i == 20 { 18 } else if i == 21 { 2 } else if i == 22 { 61 } else if i == 23 { 56 }
    else { 14 }
}

/// Rotation applied to lane `i` in round `r`: the base amount advanced
/// by thirteen bit positions per round, reduced mod the lane width.
pub open spec fn spec_rot_amount(i: int, r: nat) -> u32 {
    ((spec_base_rot(i) + (r * 13) % 64) % 64) as u32
}

/// The fixed lane permutation: the rotated lane `i` moves to `7i mod 25`.
pub open spec fn spec_pi(i: int) -> int {
    (i * 7) % (WORDS as int)
}

/// Inverse of `spec_pi`: lane `j` receives the rotated lane `18j mod 25`.
pub open spec fn spec_pi_inv(j: int) -> int {
    (j * 18) % (WORDS as int)
}

/// Rotate-and-permute layer: each lane is rotated by its round-dependent
/// amount and moved to its new position.
pub open spec fn spec_rho_pi(s: Seq<u64>, r: nat) -> Seq<u64>
    recommends
        s.len() == WORDS,
{
    Seq::new(WORDS as nat, |j: int| rotl64(s[spec_pi_inv(j)], spec_rot_amount(spec_pi_inv(j), r)))
}

/// The lane permutation really is a bijection on `0..WORDS`:
/// `spec_pi_inv` lands in range and undoes `spec_pi`, because
/// `7 * 18 == 126 == 5 * WORDS + 1`.
pub proof fn lemma_pi_bijective()
    ensures
        forall|j: int| 0 <= j < WORDS ==> 0 <= #[trigger] spec_pi_inv(j) < WORDS,
        forall|j: int| 0 <= j < WORDS ==> spec_pi(#[trigger] spec_pi_inv(j)) == j,
{
    assert forall|j: int| 0 <= j < WORDS implies 0 <= #[trigger] spec_pi_inv(j) < WORDS
        && spec_pi(spec_pi_inv(j)) == j by {
        vstd::arithmetic::div_mod::lemma_mod_bound(j * 18, 25);
        vstd::arithmetic::div_mod::lemma_mul_mod_noop_left(j * 18, 7, 25);
        assert(j * 18 * 7 == 25 * (5 * j) + j) by (nonlinear_arith);
        vstd::arithmetic::div_mod::lemma_mod_multiples_vanish(5 * j, j, 25);
        vstd::arithmetic::div_mod::lemma_small_mod(j as nat, 25);
    }
}

/// Nonlinear mix of lane `i`: XOR with the complement of its next row
/// neighbour ANDed with the neighbour after that, all row indices taken
/// from the state before any lane of the row is rewritten.
pub open spec fn spec_chi_lane(s: Seq<u64>, i: int) -> u64
    recommends
        s.len() == WORDS,
        0 <= i < WORDS,
{
    let row = 5 * (i / 5);
    let p = i % 5;
    s[i] ^ ((!s[row + (p + 1) % 5]) & s[row + (p + 2) % 5])
}

/// Nonlinear layer, applied row by row.
pub open spec fn spec_chi(s: Seq<u64>) -> Seq<u64>
    recommends
        s.len() == WORDS,
{
    Seq::new(WORDS as nat, |i: int| spec_chi_lane(s, i))
}

/// Constant injection: XOR the round constant into lane 0.
pub open spec fn spec_iota(s: Seq<u64>, rc: u64) -> Seq<u64>
    recommends
        s.len() == WORDS,
{
    s.update(0, s[0] ^ rc)
}

/// One full permutation round at global round index `r`:
/// diffusion, rotate-and-permute, nonlinear mix, constant injection.
/// Kept opaque: callers compose rounds without ever unfolding the
/// four layers.
#[verifier::opaque]
pub open spec fn spec_round(s: Seq<u64>, r: nat) -> Seq<u64>
    recommends
        s.len() == WORDS,
{
    spec_iota(spec_chi(spec_rho_pi(spec_theta(s), r)), spec_round_constant(r))
}

/// `n` consecutive permutation rounds starting at global round index `r`.
pub open spec fn spec_rounds(s: Seq<u64>, r: nat, n: nat) -> Seq<u64>
    recommends
        s.len() == WORDS,
    decreases n,
{
    if n == 0 {
        s
    } else {
        spec_rounds(spec_round(s, r), (r + 1) as nat, (n - 1) as nat)
    }
}

// ---------------------------------------------------------------------
// Padding
// ---------------------------------------------------------------------

/// Number of zero-fill bytes between the `0x01` framing byte and the
/// final `0x80` byte, chosen so the padded length is a positive multiple
/// of the rate.
pub open spec fn spec_pad_zeros(n: nat) -> nat {
    ((RATE_BYTES as int - (n + 2) as int % (RATE_BYTES as int)) % (RATE_BYTES as int)) as nat
}

/// The padded message: the original bytes, one `0x01` byte, zero fill,
/// and a final `0x80` byte.  Padding is applied unconditionally, so at
/// least two bytes are always added.
pub open spec fn spec_pad(m: Seq<u8>) -> Seq<u8> {
    m + seq![1u8] + Seq::new(spec_pad_zeros(m.len()), |i: int| 0u8) + seq![0x80u8]
}

// ---------------------------------------------------------------------
// Absorption
// ---------------------------------------------------------------------

/// Word `i` of a rate-sized block, read as little-endian bytes.
pub open spec fn spec_block_word(b: Seq<u8>, i: int) -> u64
    recommends
        b.len() == RATE_BYTES,
        0 <= i < RATE_WORDS,
{
    spec_u64_from_le_bytes(b.subrange(8 * i, 8 * i + 8))
}

/// XOR one rate-sized block into the rate lanes.  Capacity lanes are
/// never touched.
pub open spec fn spec_absorb_block(s: Seq<u64>, b: Seq<u8>) -> Seq<u64>
    recommends
        s.len() == WORDS,
        b.len() == RATE_BYTES,
{
    Seq::new(
        WORDS as nat,
        |i: int| if i < RATE_WORDS { s[i] ^ spec_block_word(b, i) } else { s[i] },
    )
}

/// Absorb a padded message block by block, starting at global round
/// index `r`: each block is XORed into the rate lanes and followed by
/// `ROUNDS` permutation rounds.
pub open spec fn spec_absorb(s: Seq<u64>, r: nat, p: Seq<u8>) -> Seq<u64>
    recommends
        s.len() == WORDS,
        p.len() % (RATE_BYTES as nat) == 0,
    decreases p.len(),
{
    if p.len() < RATE_BYTES {
        s
    } else {
        spec_absorb(
            spec_rounds(spec_absorb_block(s, p.take(RATE_BYTES as int)), r, ROUNDS as nat),
            (r + ROUNDS) as nat,
            p.skip(RATE_BYTES as int),
        )
    }
}

// ---------------------------------------------------------------------
// Squeezing
// ---------------------------------------------------------------------

/// The first `k` lanes of the state as little-endian bytes.
pub open spec fn spec_lane_bytes(s: Seq<u64>, k: int) -> Seq<u8>
    recommends
        0 <= k <= s.len(),
    decreases k,
{
    if k <= 0 {
        Seq::empty()
    } else {
        spec_lane_bytes(s, k - 1) + spec_u64_to_le_bytes(s[k - 1])
    }
}

/// One full extraction: all rate lanes as bytes.
pub open spec fn spec_rate_bytes(s: Seq<u64>) -> Seq<u8>
    recommends
        s.len() == WORDS,
{
    spec_lane_bytes(s, RATE_WORDS as int)
}

/// Squeeze `need` output bytes starting at global round index `r`:
/// extract the rate lanes, and run one permutation round between
/// extractions while more output is needed.  The last extraction is
/// truncated to the bytes still missing.
pub open spec fn spec_squeeze(s: Seq<u64>, r: nat, need: nat) -> Seq<u8>
    recommends
        s.len() == WORDS,
    decreases need,
{
    if need <= RATE_BYTES {
        spec_rate_bytes(s).take(need as int)
    } else {
        spec_rate_bytes(s) + spec_squeeze(spec_round(s, r), (r + 1) as nat, (need - RATE_BYTES) as nat)
    }
}

/// The first `k` lanes yield exactly `8 * k` bytes.
pub proof fn lemma_lane_bytes_len(s: Seq<u64>, k: int)
    requires
        0 <= k,
    ensures
        spec_lane_bytes(s, k).len() == 8 * k,
    decreases k,
{
    lemma_auto_spec_u64_to_from_le_bytes();
    if k > 0 {
        lemma_lane_bytes_len(s, k - 1);
    }
}

/// One full extraction yields exactly `RATE_BYTES` bytes.
pub proof fn lemma_rate_bytes_len(s: Seq<u64>)
    ensures
        spec_rate_bytes(s).len() == RATE_BYTES,
{
    lemma_lane_bytes_len(s, RATE_WORDS as int);
}

/// Squeezing yields exactly the requested number of bytes.
pub proof fn lemma_squeeze_len(s: Seq<u64>, r: nat, need: nat)
    ensures
        spec_squeeze(s, r, need).len() == need,
    decreases need,
{
    lemma_rate_bytes_len(s);
    if need > RATE_BYTES {
        lemma_squeeze_len(spec_round(s, r), (r + 1) as nat, (need - RATE_BYTES) as nat);
    }
}

// ---------------------------------------------------------------------
// The hash
// ---------------------------------------------------------------------

/// The digest of a message: initialize from the domain tag, absorb the
/// padded message (`ROUNDS` rounds per block), run `FINAL_ROUNDS` extra
/// finalization rounds, then squeeze `OUTPUT_BYTES` bytes.  One global
/// round index spans the whole computation.
pub open spec fn spec_hash(m: Seq<u8>) -> Seq<u8> {
    let p = spec_pad(m);
    let blocks = p.len() / (RATE_BYTES as nat);
    let absorb_rounds = blocks * (ROUNDS as nat);
    let absorbed = spec_absorb(spec_initial_state(), 0, p);
    let finalized = spec_rounds(absorbed, absorb_rounds, FINAL_ROUNDS as nat);
    spec_squeeze(finalized, (absorb_rounds + FINAL_ROUNDS) as nat, OUTPUT_BYTES as nat)
}

// ---------------------------------------------------------------------
// Laws
// ---------------------------------------------------------------------

/// Padding never removes bytes and always lands on a positive multiple
/// of the rate: the padded length is the original length plus the
/// framing byte, the zero fill and the final byte; it is at least two
/// bytes longer than the message, at most a byte more than one full
/// block longer, and divisible by `RATE_BYTES`.
pub proof fn lemma_pad_shape(m: Seq<u8>)
    ensures
        spec_pad(m).len() == m.len() + 2 + spec_pad_zeros(m.len()),
        spec_pad(m).len() % (RATE_BYTES as nat) == 0,
        m.len() + 2 <= spec_pad(m).len() <= m.len() + RATE_BYTES + 1,
{
    let n = m.len() as int;
    let t = (n + 2) % 136;
    vstd::arithmetic::div_mod::lemma_mod_bound(n + 2, 136);
    vstd::arithmetic::div_mod::lemma_fundamental_div_mod(n + 2, 136);
    let q = (n + 2) / 136;
    if t == 0 {
        vstd::arithmetic::div_mod::lemma_small_mod(0nat, 136nat);
        assert(spec_pad_zeros(m.len()) == 0);
        assert(n + 2 == 136 * q);
        vstd::arithmetic::div_mod::lemma_mod_multiples_vanish(q, 0, 136);
    } else {
        vstd::arithmetic::div_mod::lemma_small_mod((136 - t) as nat, 136nat);
        assert(spec_pad_zeros(m.len()) == 136 - t);
        assert(n + 2 + (136 - t) == 136 * (q + 1)) by {
            assert(n + 2 == 136 * q + t);
        }
        vstd::arithmetic::div_mod::lemma_mod_multiples_vanish(q + 1, 0, 136);
    }
}

/// Block-boundary law: a message whose length is an exact multiple of
/// the rate still gains one whole extra block of padding.
pub proof fn lemma_pad_full_block(m: Seq<u8>)
    requires
        m.len() % (RATE_BYTES as nat) == 0,
    ensures
        spec_pad(m).len() == m.len() + RATE_BYTES,
{
    let n = m.len() as int;
    vstd::arithmetic::div_mod::lemma_fundamental_div_mod(n, 136);
    let q = n / 136;
    assert(n + 2 == 136 * q + 2);
    vstd::arithmetic::div_mod::lemma_mod_multiples_vanish(q, 2, 136);
    vstd::arithmetic::div_mod::lemma_small_mod(2nat, 136nat);
    assert((n + 2) % 136 == 2);
    vstd::arithmetic::div_mod::lemma_small_mod(134nat, 136nat);
    lemma_pad_shape(m);
}

/// Fixed-length law: every digest is exactly `OUTPUT_BYTES` bytes, for
/// every message including the empty one.
pub proof fn lemma_hash_len(m: Seq<u8>)
    ensures
        spec_hash(m).len() == OUTPUT_BYTES,
{
    let p = spec_pad(m);
    let blocks = p.len() / (RATE_BYTES as nat);
    let absorbed = spec_absorb(spec_initial_state(), 0, p);
    let finalized = spec_rounds(absorbed, blocks * (ROUNDS as nat), FINAL_ROUNDS as nat);
    lemma_squeeze_len(finalized, (blocks * (ROUNDS as nat) + FINAL_ROUNDS) as nat, OUTPUT_BYTES as nat);
}

/// Determinism law: the digest is a function of the message bytes and
/// of nothing else, so equal messages hash to equal digests, across
/// calls and across runs.
pub proof fn lemma_hash_deterministic(m1: Seq<u8>, m2: Seq<u8>)
    requires
        m1 == m2,
    ensures
        spec_hash(m1) == spec_hash(m2),
{
}

/// Capacity law: absorbing a block rewrites only the rate lanes; the
/// eight capacity lanes are never touched by input.
pub proof fn lemma_absorb_block_capacity(s: Seq<u64>, b: Seq<u8>)
    requires
        s.len() == WORDS,
        b.len() == RATE_BYTES,
    ensures
        forall|i: int| RATE_WORDS <= i < WORDS ==> spec_absorb_block(s, b)[i] == s[i],
{
}

} // verus!
