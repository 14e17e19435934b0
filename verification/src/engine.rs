//! Executable engine of the turb1600 sponge hash.
//!
//! Every function is verified against the specification-level model in
//! `model`: the digest returned by [`turb1600_hash`] is exactly
//! `spec_hash` of the input bytes.

use vstd::prelude::*;
use vstd::bytes::u64_from_le_bytes;
use vstd::bytes::u64_to_le_bytes;
use vstd::slice::slice_subrange;
use vstd::slice::slice_to_vec;

use crate::model::lemma_hash_len;
use crate::model::lemma_pad_shape;
use crate::model::lemma_pi_bijective;
use crate::model::lemma_rate_bytes_len;
use crate::model::lemma_squeeze_len;
use crate::model::rotl64;
use crate::model::spec_absorb;
use crate::model::spec_absorb_block;
use crate::model::spec_base_rot;
use crate::model::spec_block_word;
use crate::model::spec_chi;
use crate::model::spec_chi_lane;
use crate::model::spec_column_parity;
use crate::model::spec_domain_tag;
use crate::model::spec_hash;
use crate::model::spec_initial_state;
use crate::model::spec_iota;
use crate::model::spec_lane_bytes;
use crate::model::spec_pad;
use crate::model::spec_pad_zeros;
use crate::model::spec_pi;
use crate::model::spec_pi_inv;
use crate::model::spec_rate_bytes;
use crate::model::spec_rc_stream;
use crate::model::spec_rc_table;
use crate::model::spec_rho_pi;
use crate::model::spec_rot_amount;
use crate::model::spec_round;
use crate::model::spec_rounds;
use crate::model::spec_seed_fold;
use crate::model::spec_squeeze;
use crate::model::spec_theta;
use crate::model::spec_theta_d;
use crate::model::spec_xorshift;
use crate::model::spec_zero_state;

verus! {

// ---------------------------------------------------------------------
// Lane rotation
// ---------------------------------------------------------------------

/// Rotate a 64-bit lane left by `r` bit positions.
#[inline(always)]
pub fn rol(x: u64, r: u32) -> (res: u64)
    requires
        r < 64,
    ensures
        res == rotl64(x, r),
{
    if r == 0 {
        x
    } else {
        (x << r) | (x >> (64 - r))
    }
}

// ---------------------------------------------------------------------
// Round constants
// ---------------------------------------------------------------------

/// Build the full round-constant table by iterating the xor-shift
/// generator from its fixed seed.
pub fn gen_round_constants() -> (rc: [u64; 1024])
    ensures
        rc@ == spec_rc_table(),
{
    let mut rc = [0u64; 1024];
    let mut x: u64 = 0x9E37_79B9_7F4A_7C15;

    for i in 0..1024usize
        invariant
            x == spec_rc_stream(i as nat),
            rc@.len() == 1024,
            forall|j: int| 0 <= j < i ==> rc@[j] == spec_rc_stream((j + 1) as nat),
    {
        x = x ^ (x << 7);
        x = x ^ (x >> 9);
        x = x ^ (x << 8);
        rc[i] = x;
        proof {
            assert(x == spec_xorshift(spec_rc_stream(i as nat)));
        }
    }
    proof {
        assert(rc@ =~= spec_rc_table());
    }
    rc
}

// ---------------------------------------------------------------------
// State initialization
// ---------------------------------------------------------------------

/// The domain-separation tag as plain bytes; see `spec_domain_tag` for
/// the ASCII text it spells.
#[verifier::rlimit(100)]
fn domain_tag_bytes() -> (t: Vec<u8>)
    ensures
        t@ == spec_domain_tag(),
        t@.len() == 81,
{
    let mut t: Vec<u8> = Vec::new();
    t.push(116); t.push(117); t.push(114); t.push(98); t.push(49); t.push(54); t.push(48); t.push(48); t.push(32); t.push(124); t.push(32); t.push(115); t.push(112);
    t.push(111); t.push(110); t.push(103); t.push(101); t.push(45); t.push(104); t.push(97); t.push(115); t.push(104); t.push(32); t.push(124); t.push(32); t.push(115);
    t.push(116); t.push(97); t.push(116); t.push(101); t.push(61); t.push(49); t.push(54); t.push(48); t.push(48); t.push(32); t.push(124); t.push(32); t.push(114);
    t.push(97); t.push(116); t.push(101); t.push(61); t.push(49); t.push(48); t.push(56); t.push(56); t.push(32); t.push(124); t.push(32); t.push(99); t.push(97);
    t.push(112); t.push(97); t.push(99); t.push(105); t.push(116); t.push(121); t.push(61); t.push(53); t.push(49); t.push(50); t.push(32); t.push(124); t.push(32);
    t.push(111); t.push(117); t.push(116); t.push(112); t.push(117); t.push(116); t.push(61); t.push(49); t.push(48); t.push(50); t.push(52); t.push(32); t.push(124);
    t.push(32); t.push(118); t.push(49);
    proof {
        assert(t@ =~= spec_domain_tag());
    }
    t
}

/// Derive the initial 25-lane state from the domain tag, independent of
/// the message: tag byte `i`, offset by `i`, is XORed into lane
/// `i mod WORDS`.
pub fn initialize_state() -> (s: [u64; 25])
    ensures
        s@ == spec_initial_state(),
{
    let tag = domain_tag_bytes();
    let mut s = [0u64; 25];
    proof {
        assert(s@ =~= spec_zero_state());
    }

    for i in 0..81usize
        invariant
            tag@ == spec_domain_tag(),
            tag@.len() == 81,
            s@.len() == 25,
            s@ == spec_seed_fold(i as nat),
    {
        let lane = i % 25;
        let contribution = (tag[i] as u64) + (i as u64);
        s[lane] = s[lane] ^ contribution;
    }
    s
}

// ---------------------------------------------------------------------
// Round layers
// ---------------------------------------------------------------------

/// Diffusion layer: compute the five column parities and their
/// corrections, then XOR each column's correction into every lane of
/// that column.
pub fn theta_diffusion(state: &[u64; 25]) -> (out: [u64; 25])
    ensures
        out@ == spec_theta(state@),
{
    let mut c = [0u64; 5];
    for x in 0..5usize
        invariant
            c@.len() == 5,
            forall|k: int| 0 <= k < x ==> c@[k] == spec_column_parity(state@, k),
    {
        c[x] = state[x] ^ state[x + 5] ^ state[x + 10] ^ state[x + 15] ^ state[x + 20];
    }

    let mut d = [0u64; 5];
    for x in 0..5usize
        invariant
            c@.len() == 5,
            d@.len() == 5,
            forall|k: int| 0 <= k < 5 ==> c@[k] == spec_column_parity(state@, k),
            forall|k: int| 0 <= k < x ==> d@[k] == spec_theta_d(state@, k),
    {
        d[x] = c[(x + 4) % 5] ^ rol(c[(x + 1) % 5], 1);
    }

    let mut out = [0u64; 25];
    for i in 0..25usize
        invariant
            d@.len() == 5,
            out@.len() == 25,
            forall|k: int| 0 <= k < 5 ==> d@[k] == spec_theta_d(state@, k),
            forall|k: int| 0 <= k < i ==> out@[k] == state@[k] ^ spec_theta_d(state@, k % 5),
    {
        out[i] = state[i] ^ d[i % 5];
    }
    proof {
        assert(out@ =~= spec_theta(state@));
    }
    out
}

/// Base rotation amount of lane `i`; see `spec_base_rot`.
fn base_rotation(i: usize) -> (r: u32)
    requires
        i < 25,
    ensures
        r == spec_base_rot(i as int),
        r < 64,
{
    if i == 0 { 0 } else if i == 1 { 1 } else if i == 2 { 62 } else if i == 3 { 28 }
    else if i == 4 { 27 } else if i == 5 { 36 } else if i == 6 { 44 } else if i == 7 { 6 }
    else if i == 8 { 55 } else if i == 9 { 20 } else if i == 10 { 3 } else if i == 11 { 10 }
    else if i == 12 { 43 } else if i == 13 { 25 } else if i == 14 { 39 } else if i == 15 { 41 }
    else if i == 16 { 45 } else if i == 17 { 15 } else if i == 18 { 21 } else if i == 19 { 8 }
    else if i == 20 { 18 } else if i == 21 { 2 } else if i == 22 { 61 } else if i == 23 { 56 }
    else { 14 }
}

/// Rotate-and-permute layer: rotate each lane by its round-dependent
/// amount and write it to its new position.  A scratch buffer is
/// required: destinations are read from other lane indices, so an
/// in-place rewrite would clobber unread source lanes.
#[verifier::rlimit(100)]
pub fn bit_permutation(state: &[u64; 25], r: usize) -> (out: [u64; 25])
    ensures
        out@ == spec_rho_pi(state@, r as nat),
{
    let round_shift = (r % 64) * 13 % 64;
    proof {
        vstd::arithmetic::div_mod::lemma_mul_mod_noop_left(r as int, 13, 64);
    }
    let mut out = [0u64; 25];
    for i in 0..25usize
        invariant
            out@.len() == 25,
            round_shift == (r as nat * 13) % 64,
            forall|k: int|
                0 <= k < i ==> out@[spec_pi(k)] == rotl64(
                    state@[k],
                    spec_rot_amount(k, r as nat),
                ),
    {
        let amount = (base_rotation(i) + round_shift as u32) % 64;
        let rotated = rol(state[i], amount);
        let dest = i * 7 % 25;
        proof {
            assert(amount == spec_rot_amount(i as int, r as nat));
            assert(dest == spec_pi(i as int));
            lemma_pi_bijective();
            assert forall|k: int| 0 <= k < i implies spec_pi(k) != dest by {
                if spec_pi(k) == dest {
                    assert(spec_pi_inv(spec_pi(k)) == k && spec_pi_inv(spec_pi(i as int)) == i);
                }
            }
        }
        out[dest] = rotated;
    }
    proof {
        lemma_pi_bijective();
        assert forall|j: int| 0 <= j < 25 implies out@[j] == rotl64(
            state@[spec_pi_inv(j)],
            spec_rot_amount(spec_pi_inv(j), r as nat),
        ) by {
            assert(out@[spec_pi(spec_pi_inv(j))] == rotl64(
                state@[spec_pi_inv(j)],
                spec_rot_amount(spec_pi_inv(j), r as nat),
            ));
        }
        assert(out@ =~= spec_rho_pi(state@, r as nat));
    }
    out
}

/// Nonlinear layer: for each row of five lanes, XOR every lane with the
/// complement of its next neighbour ANDed with the neighbour after
/// that, all five outputs computed from the row as it stood before any
/// write.
pub fn chi_non_linearity(state: &[u64; 25]) -> (out: [u64; 25])
    ensures
        out@ == spec_chi(state@),
{
    let mut out = [0u64; 25];
    let mut row: usize = 0;
    while row < 25
        invariant
            row % 5 == 0,
            row <= 25,
            out@.len() == 25,
            forall|k: int| 0 <= k < row ==> out@[k] == spec_chi_lane(state@, k),
        decreases 25 - row,
    {
        let a = state[row];
        let b = state[row + 1];
        let c = state[row + 2];
        let d = state[row + 3];
        let e = state[row + 4];

        out[row] = a ^ ((!b) & c);
        out[row + 1] = b ^ ((!c) & d);
        out[row + 2] = c ^ ((!d) & e);
        out[row + 3] = d ^ ((!e) & a);
        out[row + 4] = e ^ ((!a) & b);

        row = row + 5;
    }
    proof {
        assert(out@ =~= spec_chi(state@));
    }
    out
}

/// Constant injection: XOR the round constant into lane 0.
pub fn add_round_constant(state: &mut [u64; 25], rc: u64)
    ensures
        final(state)@ == spec_iota(old(state)@, rc),
{
    let lane0 = state[0];
    state[0] = lane0 ^ rc;
}

// ---------------------------------------------------------------------
// Round function
// ---------------------------------------------------------------------

/// One full permutation round at global round index `r`: diffusion,
/// rotate-and-permute, nonlinear mix, constant injection.
pub fn round_function(state: &[u64; 25], r: usize, rc: &[u64; 1024]) -> (out: [u64; 25])
    requires
        rc@ == spec_rc_table(),
    ensures
        out@ == spec_round(state@, r as nat),
{
    let mut s = theta_diffusion(state);
    s = bit_permutation(&s, r);
    s = chi_non_linearity(&s);
    add_round_constant(&mut s, rc[r % 1024]);
    proof {
        reveal(crate::model::spec_round);
        assert(r as nat % 1024 == (r % 1024) as nat);
    }
    s
}

// ---------------------------------------------------------------------
// Padding and absorption
// ---------------------------------------------------------------------

/// Pad a message for absorption: append the `0x01` framing byte, zero
/// fill, and a final `0x80` byte, landing on a positive multiple of the
/// rate.  Padding is applied unconditionally, so even an aligned
/// message gains a whole extra block.
pub fn pad_message(message: &[u8]) -> (padded: Vec<u8>)
    requires
        message@.len() + 137 <= usize::MAX,
    ensures
        padded@ == spec_pad(message@),
{
    let len = message.len();
    let zeros = (136 - (len + 2) % 136) % 136;
    proof {
        assert(zeros == spec_pad_zeros(message@.len()));
    }

    let mut padded = slice_to_vec(message);
    padded.push(0x01);
    proof {
        assert(padded@ =~= message@ + seq![1u8] + Seq::new(0, |i: int| 0u8));
    }

    let mut k: usize = 0;
    while k < zeros
        invariant
            k <= zeros,
            zeros == spec_pad_zeros(message@.len()),
            padded@ == message@ + seq![1u8] + Seq::new(k as nat, |i: int| 0u8),
        decreases zeros - k,
    {
        padded.push(0x00);
        k = k + 1;
        proof {
            assert(padded@ =~= message@ + seq![1u8] + Seq::new(k as nat, |i: int| 0u8));
        }
    }

    padded.push(0x80);
    proof {
        assert(padded@ =~= spec_pad(message@));
    }
    padded
}

/// XOR one rate-sized block into the rate lanes of the state, reading
/// the block as 17 little-endian 64-bit words.  Capacity lanes are left
/// untouched.
pub fn absorb_block(state: &mut [u64; 25], block: &[u8])
    requires
        block@.len() == 136,
    ensures
        final(state)@ == spec_absorb_block(old(state)@, block@),
{
    for w in 0..17usize
        invariant
            block@.len() == 136,
            state@.len() == 25,
            forall|k: int| 0 <= k < w ==> state@[k] == old(state)@[k] ^ spec_block_word(block@, k),
            forall|k: int| w <= k < 25 ==> state@[k] == old(state)@[k],
    {
        let bytes = slice_subrange(block, 8 * w, 8 * w + 8);
        let word = u64_from_le_bytes(bytes);
        state[w] = state[w] ^ word;
    }
    proof {
        assert(state@ =~= spec_absorb_block(old(state)@, block@));
    }
}

// ---------------------------------------------------------------------
// Squeezing
// ---------------------------------------------------------------------

/// Squeeze `out_bytes` output bytes from the state, starting at global
/// round index `r0`: extract the rate lanes as little-endian bytes,
/// and run one permutation round between extractions while more output
/// is still needed; the final extraction is truncated to fit.
#[verifier::rlimit(100)]
pub fn squeeze(state: [u64; 25], r0: usize, out_bytes: usize, rc: &[u64; 1024]) -> (out: Vec<u8>)
    requires
        rc@ == spec_rc_table(),
        r0 + out_bytes as int / 136 + 1 <= usize::MAX,
    ensures
        out@ == spec_squeeze(state@, r0 as nat, out_bytes as nat),
        out@.len() == out_bytes,
{
    let mut s = state;
    let mut r = r0;
    let mut out: Vec<u8> = Vec::new();

    proof {
        lemma_squeeze_len(state@, r0 as nat, out_bytes as nat);
        lemma_rate_bytes_len(state@);
    }

    if out_bytes == 0 {
        proof {
            assert(spec_squeeze(state@, r0 as nat, 0) =~= out@);
        }
        return out;
    }

    proof {
        assert(spec_squeeze(state@, r0 as nat, out_bytes as nat) =~= out@ + spec_squeeze(
            s@,
            r as nat,
            out_bytes as nat,
        ));
    }

    while out.len() < out_bytes
        invariant_except_break
            rc@ == spec_rc_table(),
            r0 + out_bytes as int / 136 + 1 <= usize::MAX,
            out@.len() < out_bytes,
            out@.len() % 136 == 0,
            r == r0 + out@.len() as int / 136,
            spec_squeeze(state@, r0 as nat, out_bytes as nat) == out@ + spec_squeeze(
                s@,
                r as nat,
                (out_bytes - out@.len()) as nat,
            ),
        ensures
            out_bytes <= out@.len(),
            spec_squeeze(state@, r0 as nat, out_bytes as nat) == out@.take(out_bytes as int),
        decreases out_bytes - out@.len(),
    {
        let ghost out_before = out@;
        let ghost remaining = (out_bytes - out@.len()) as nat;

        for w in 0..17usize
            invariant
                s@.len() == 25,
                out@ == out_before + spec_lane_bytes(s@, w as int),
        {
            let mut wb = u64_to_le_bytes(s[w]);
            out.append(&mut wb);
        }
        proof {
            lemma_rate_bytes_len(s@);
            assert(out@ == out_before + spec_rate_bytes(s@));
        }

        if out.len() >= out_bytes {
            proof {
                // The digest is complete: what was owed fit in this
                // extraction, and the output is its prefix.
                assert(remaining <= 136);
                assert(spec_squeeze(s@, r as nat, remaining) == spec_rate_bytes(s@).take(
                    remaining as int,
                ));
                assert(out_before + spec_rate_bytes(s@).take(remaining as int) =~= out@.take(
                    out_bytes as int,
                ));
            }
            break;
        }

        proof {
            // More output is owed, so this extraction was a full one
            // and the squeeze recursion steps to the next round.
            assert(remaining > 136);
            assert(spec_squeeze(s@, r as nat, remaining) == spec_rate_bytes(s@) + spec_squeeze(
                spec_round(s@, r as nat),
                (r + 1) as nat,
                (remaining - 136) as nat,
            ));
            assert(out_before + (spec_rate_bytes(s@) + spec_squeeze(
                spec_round(s@, r as nat),
                (r + 1) as nat,
                (remaining - 136) as nat,
            )) =~= out@ + spec_squeeze(
                spec_round(s@, r as nat),
                (r + 1) as nat,
                (remaining - 136) as nat,
            ));
            vstd::arithmetic::div_mod::lemma_div_is_ordered(
                out@.len() as int,
                out_bytes as int,
                136,
            );
        }
        s = round_function(&s, r, rc);
        r = r + 1;
    }

    out.truncate(out_bytes);
    out
}

// ---------------------------------------------------------------------
// The hash entry point
// ---------------------------------------------------------------------

/// Hash a byte sequence to a 128-byte digest: initialize the state from
/// the domain tag, absorb the padded message with 16 permutation rounds
/// per block, run 4 extra finalization rounds, and squeeze 128 bytes.
/// A single global round index spans the whole call.
#[verifier::rlimit(50)]
pub fn turb1600_hash(message: &[u8]) -> (digest: Vec<u8>)
    requires
        message@.len() + 137 <= usize::MAX,
    ensures
        digest@ == spec_hash(message@),
        digest@.len() == 128,
{
    let rc = gen_round_constants();
    let mut state = initialize_state();
    let padded = pad_message(message);

    let plen = padded.len();
    let n_blocks = plen / 136;
    proof {
        lemma_pad_shape(message@);
        vstd::arithmetic::div_mod::lemma_fundamental_div_mod(plen as int, 136);
        assert(plen == 136 * n_blocks);
        assert(n_blocks >= 1);
        assert(136 * n_blocks <= usize::MAX);
        assert(16 * n_blocks + 5 <= usize::MAX);
        assert(padded@.skip(0) =~= padded@);
    }

    let mut r: usize = 0;
    let mut blk: usize = 0;

    while blk < n_blocks
        invariant
            rc@ == spec_rc_table(),
            padded@ == spec_pad(message@),
            padded@.len() == 136 * n_blocks,
            136 * n_blocks <= usize::MAX,
            16 * n_blocks + 5 <= usize::MAX,
            blk <= n_blocks,
            state@.len() == 25,
            r == 16 * blk,
            spec_absorb(state@, r as nat, padded@.skip(136 * blk)) == spec_absorb(
                spec_initial_state(),
                0,
                spec_pad(message@),
            ),
        decreases n_blocks - blk,
    {
        let ghost rest = padded@.skip(136 * blk);
        let block = slice_subrange(padded.as_slice(), blk * 136, blk * 136 + 136);
        proof {
            assert(rest.take(136) =~= block@);
        }
        absorb_block(&mut state, block);

        let ghost s_blk = state@;
        let ghost r_blk = r;
        for k in 0..16usize
            invariant
                rc@ == spec_rc_table(),
                state@.len() == 25,
                r == r_blk + k,
                r_blk + 16 <= usize::MAX,
                spec_rounds(state@, r as nat, (16 - k) as nat) == spec_rounds(
                    s_blk,
                    r_blk as nat,
                    16,
                ),
        {
            state = round_function(&state, r, &rc);
            r = r + 1;
        }
        blk = blk + 1;
        proof {
            assert(rest.skip(136) =~= padded@.skip(136 * blk));
        }
    }

    proof {
        assert(padded@.skip(136 * n_blocks).len() == 0);
        assert(state@ == spec_absorb(spec_initial_state(), 0, spec_pad(message@)));
    }

    let ghost s_fin = state@;
    let ghost r_fin = r;
    for k in 0..4usize
        invariant
            rc@ == spec_rc_table(),
            state@.len() == 25,
            r == r_fin + k,
            r_fin + 5 <= usize::MAX,
            spec_rounds(state@, r as nat, (4 - k) as nat) == spec_rounds(s_fin, r_fin as nat, 4),
    {
        state = round_function(&state, r, &rc);
        r = r + 1;
    }

    let digest = squeeze(state, r, 128, &rc);
    proof {
        lemma_hash_len(message@);
    }
    digest
}

} // verus!
