//! Vector engines of the 64-bit family, written with the three-input XOR,
//! the fused bit-clear-and-XOR and the fused XOR-and-rotate.
//!
//! The engine for one state keeps one plane in a register, two lanes side by
//! side. The engines for two and four states keep one word of two states in a
//! register, so that moving lanes is renaming registers; the engine for four
//! states works on two such pairs. A rotation is the XOR-and-rotate with a
//! zero operand, and theta's two rotations are two of them chained: the first
//! leaves the parity rotated by 19, the second adds the parity and rotates
//! the sum by 10.
use crate::batch::word_block64;
use crate::bits::{rotl64, rotr64};
use crate::codec::{le64, lemma_le64_of_bytes, words64_of_bytes};
use crate::neon::{
    uint64x2_t, vbcaxq_u64, vdupq_n_u64, veor3q_u64, veorq_u64, vqtbl1q_u8, vreinterpretq_u64_u8,
    vreinterpretq_u8_u64, vsetq_lane_u64, vxarq_u64,
};
use crate::permutation::ROUND_KEYS;
use crate::permutation64::{
    chi64, iota64, lemma_batch_of_word_blocks64, lemma_words6_equal, permutation64, permutation64_batch,
    rho_east64, rho_west64, rounds64, theta64,
};
use crate::transpose::{
    lanes64_of, lemma_planes64_of_registers, lemma_state_of_lane64_loaded, lemma_state_of_lane64_stored,
    load_registers, state_of_lane64, store_registers, to_block_major64_x2, to_block_major64_x4,
    to_lane_major64_x2, to_lane_major64_x4,
};
use vstd::prelude::*;

verus! {

/// Selects, for every lane, the bytes of the other lane.
pub const SWAP_U64S: [u8; 16] = [8, 9, 10, 11, 12, 13, 14, 15, 0, 1, 2, 3, 4, 5, 6, 7];

/// Selects, for every lane, the bytes of the other lane, moved up by two
/// byte positions.
pub const RHO_EAST_64: [u8; 16] = [14, 15, 8, 9, 10, 11, 12, 13, 6, 7, 0, 1, 2, 3, 4, 5];

/// An XOR with zero followed by a rotation right by `64 - n` bits is a
/// rotation left by `n` bits.
pub proof fn lemma_xar_rotates(x: u64, n: u32)
    by (bit_vector)
    requires
        1 <= n <= 63,
    ensures
        rotr64(x ^ 0, (64 - n) as u32) == rotl64(x, n),
{
}

/// Two chained XOR-and-rotate steps give theta's effect: the parity rotated
/// left by 10 bits, XOR the parity rotated left by 29 bits.
pub proof fn lemma_xar_theta(x: u64)
    by (bit_vector)
    ensures
        rotr64(x ^ rotr64(x ^ 0, 45), 54) == rotl64(x, 10) ^ rotl64(x, 29),
{
}

/// Moving every byte of a word up by two positions, the top bytes to the
/// bottom, is a rotation left by 16 bits.
pub proof fn lemma_byte_rotation64(x: u64)
    by (bit_vector)
    ensures
        le64(
            (x >> 48u64) as u8,
            (x >> 56u64) as u8,
            (x >> 0u64) as u8,
            (x >> 8u64) as u8,
            (x >> 16u64) as u8,
            (x >> 24u64) as u8,
            (x >> 32u64) as u8,
            (x >> 40u64) as u8,
        ) == rotl64(x, 16),
{
}

/// XOR with zero leaves a word as it is.
pub proof fn lemma_xor_zero64(x: u64)
    by (bit_vector)
    ensures
        x ^ 0 == x,
{
}

/// The fused bit clear and XOR computes one output of chi.
pub proof fn lemma_chi_form64(a: u64, b: u64, c: u64)
    by (bit_vector)
    ensures
        a ^ (c & !b) == a ^ (!b & c),
{
}

/// Lane by lane, the fused bit clear and XOR computes one output of chi.
pub proof fn lemma_bcax_lanes64(a: Seq<u64>, b: Seq<u64>, c: Seq<u64>, r: Seq<u64>)
    requires
        forall|i: int| 0 <= i < 2 ==> #[trigger] r[i] == a[i] ^ (c[i] & !b[i]),
    ensures
        forall|i: int| 0 <= i < 2 ==> #[trigger] r[i] == a[i] ^ (!b[i] & c[i]),
{
    assert forall|i: int| 0 <= i < 2 implies #[trigger] r[i] == a[i] ^ (!b[i] & c[i]) by {
        lemma_chi_form64(a[i], b[i], c[i]);
    }
}

/// Every lane rotated left by `n` bits.
pub fn rotate_lanes_left64(p: uint64x2_t, n: u32) -> (r: uint64x2_t)
    requires
        1 <= n <= 63,
    ensures
        forall|i: int| 0 <= i < 2 ==> #[trigger] r@[i] == rotl64(p@[i], n),
{
    let zero = vdupq_n_u64(0);
    let r = vxarq_u64(p, zero, 64 - n);
    proof {
        lemma_xar_rotates(p@[0], n);
        lemma_xar_rotates(p@[1], n);
    }
    r
}

/// Theta's effect of every lane: the lane rotated left by 10 bits, XOR the
/// lane rotated left by 29 bits.
pub fn theta_effect_lanes64(p: uint64x2_t) -> (e: uint64x2_t)
    ensures
        forall|i: int| 0 <= i < 2 ==> #[trigger] e@[i] == rotl64(p@[i], 10) ^ rotl64(p@[i], 29),
{
    let zero = vdupq_n_u64(0);
    let tp = vxarq_u64(p, zero, 64 - 19);
    let e = vxarq_u64(p, tp, 64 - 10);
    proof {
        lemma_xar_theta(p@[0]);
        lemma_xar_theta(p@[1]);
    }
    e
}

/// The two lanes change places.
pub fn swap_lanes64(p: uint64x2_t) -> (r: uint64x2_t)
    ensures
        r@ == seq![p@[1], p@[0]],
{
    let r = vreinterpretq_u64_u8(vqtbl1q_u8(vreinterpretq_u8_u64(p), SWAP_U64S));
    proof {
        lemma_le64_of_bytes(p@[0]);
        lemma_le64_of_bytes(p@[1]);
        assert(r@ =~= seq![p@[1], p@[0]]);
    }
    r
}

/// The two lanes change places and are rotated left by 16 bits.
pub fn rho_east_plane64(p: uint64x2_t) -> (r: uint64x2_t)
    ensures
        r@ == seq![rotl64(p@[1], 16), rotl64(p@[0], 16)],
{
    let r = vreinterpretq_u64_u8(vqtbl1q_u8(vreinterpretq_u8_u64(p), RHO_EAST_64));
    proof {
        lemma_byte_rotation64(p@[0]);
        lemma_byte_rotation64(p@[1]);
        assert(r@ =~= seq![rotl64(p@[1], 16), rotl64(p@[0], 16)]);
    }
    r
}

/// Theta on the plane registers of one state.
pub fn theta_planes64(a: &mut uint64x2_t, b: &mut uint64x2_t, c: &mut uint64x2_t)
    ensures
        final(a)@ + final(b)@ + final(c)@ == theta64(old(a)@ + old(b)@ + old(c)@),
{
    let parity = veor3q_u64(*a, *b, *c);
    let parity = swap_lanes64(parity);
    let effect = theta_effect_lanes64(parity);
    *a = veorq_u64(*a, effect);
    *b = veorq_u64(*b, effect);
    *c = veorq_u64(*c, effect);
    proof {
        lemma_words6_equal(a@ + b@ + c@, theta64(old(a)@ + old(b)@ + old(c)@));
    }
}

/// Rho-west on the plane registers of one state.
pub fn rho_west_planes64(a: &mut uint64x2_t, b: &mut uint64x2_t, c: &mut uint64x2_t)
    ensures
        final(a)@ + final(b)@ + final(c)@ == rho_west64(old(a)@ + old(b)@ + old(c)@),
{
    *b = swap_lanes64(*b);
    *c = rotate_lanes_left64(*c, 23);
    proof {
        lemma_words6_equal(a@ + b@ + c@, rho_west64(old(a)@ + old(b)@ + old(c)@));
    }
}

/// Iota on the plane registers of one state.
pub fn iota_planes64(a: &mut uint64x2_t, b: &mut uint64x2_t, c: &mut uint64x2_t, round_key: u32)
    ensures
        final(a)@ + final(b)@ + final(c)@ == iota64(old(a)@ + old(b)@ + old(c)@, round_key),
{
    let zero = vdupq_n_u64(0);
    let round_const = vsetq_lane_u64(round_key as u64, zero, 0);
    *a = veorq_u64(*a, round_const);
    proof {
        lemma_xor_zero64(old(a)@[1]);
    }
    proof {
        lemma_words6_equal(a@ + b@ + c@, iota64(old(a)@ + old(b)@ + old(c)@, round_key));
    }
}

/// Chi on the plane registers of one state.
pub fn chi_planes64(a: &mut uint64x2_t, b: &mut uint64x2_t, c: &mut uint64x2_t)
    ensures
        final(a)@ + final(b)@ + final(c)@ == chi64(old(a)@ + old(b)@ + old(c)@),
{
    let a2 = vbcaxq_u64(*a, *c, *b);
    let b2 = vbcaxq_u64(*b, *a, *c);
    let c2 = vbcaxq_u64(*c, *b, *a);
    proof {
        lemma_bcax_lanes64(a@, b@, c@, a2@);
        lemma_bcax_lanes64(b@, c@, a@, b2@);
        lemma_bcax_lanes64(c@, a@, b@, c2@);
    }
    *a = a2;
    *b = b2;
    *c = c2;
    proof {
        lemma_words6_equal(a@ + b@ + c@, chi64(old(a)@ + old(b)@ + old(c)@));
    }
}

/// Rho-east on the plane registers of one state.
pub fn rho_east_planes64(a: &mut uint64x2_t, b: &mut uint64x2_t, c: &mut uint64x2_t)
    ensures
        final(a)@ + final(b)@ + final(c)@ == rho_east64(old(a)@ + old(b)@ + old(c)@),
{
    *b = rotate_lanes_left64(*b, 1);
    *c = rho_east_plane64(*c);
    proof {
        lemma_words6_equal(a@ + b@ + c@, rho_east64(old(a)@ + old(b)@ + old(c)@));
    }
}

/// Theta on two states in lane-major registers.
pub fn theta_lanes64(x: &mut [uint64x2_t; 6])
    ensures
        state_of_lane64(final(x)@, 0) == theta64(state_of_lane64(old(x)@, 0)),
        state_of_lane64(final(x)@, 1) == theta64(state_of_lane64(old(x)@, 1)),
{
    let parity0 = veor3q_u64(x[0], x[2], x[4]);
    let parity1 = veor3q_u64(x[1], x[3], x[5]);
    let effect0 = theta_effect_lanes64(parity1);
    let effect1 = theta_effect_lanes64(parity0);
    x[0] = veorq_u64(x[0], effect0);
    x[2] = veorq_u64(x[2], effect0);
    x[4] = veorq_u64(x[4], effect0);
    x[1] = veorq_u64(x[1], effect1);
    x[3] = veorq_u64(x[3], effect1);
    x[5] = veorq_u64(x[5], effect1);
    proof {
        lemma_words6_equal(state_of_lane64(x@, 0), theta64(state_of_lane64(old(x)@, 0)));
        lemma_words6_equal(state_of_lane64(x@, 1), theta64(state_of_lane64(old(x)@, 1)));
    }
}

/// Rho-west on two states in lane-major registers.
pub fn rho_west_lanes64(x: &mut [uint64x2_t; 6])
    ensures
        state_of_lane64(final(x)@, 0) == rho_west64(state_of_lane64(old(x)@, 0)),
        state_of_lane64(final(x)@, 1) == rho_west64(state_of_lane64(old(x)@, 1)),
{
    let t = x[2];
    x[2] = x[3];
    x[3] = t;
    x[4] = rotate_lanes_left64(x[4], 23);
    x[5] = rotate_lanes_left64(x[5], 23);
    proof {
        lemma_words6_equal(state_of_lane64(x@, 0), rho_west64(state_of_lane64(old(x)@, 0)));
        lemma_words6_equal(state_of_lane64(x@, 1), rho_west64(state_of_lane64(old(x)@, 1)));
    }
}

/// Iota on two states in lane-major registers.
pub fn iota_lanes64(x: &mut [uint64x2_t; 6], round_key: u32)
    ensures
        state_of_lane64(final(x)@, 0) == iota64(state_of_lane64(old(x)@, 0), round_key),
        state_of_lane64(final(x)@, 1) == iota64(state_of_lane64(old(x)@, 1), round_key),
{
    let round_const = vdupq_n_u64(round_key as u64);
    x[0] = veorq_u64(x[0], round_const);
    proof {
        lemma_words6_equal(state_of_lane64(x@, 0), iota64(state_of_lane64(old(x)@, 0), round_key));
        lemma_words6_equal(state_of_lane64(x@, 1), iota64(state_of_lane64(old(x)@, 1), round_key));
    }
}

/// Chi on two states in lane-major registers.
pub fn chi_lanes64(x: &mut [uint64x2_t; 6])
    ensures
        state_of_lane64(final(x)@, 0) == chi64(state_of_lane64(old(x)@, 0)),
        state_of_lane64(final(x)@, 1) == chi64(state_of_lane64(old(x)@, 1)),
{
    let t0 = vbcaxq_u64(x[0], x[4], x[2]);
    let t1 = vbcaxq_u64(x[2], x[0], x[4]);
    let t2 = vbcaxq_u64(x[4], x[2], x[0]);
    proof {
        lemma_bcax_lanes64(x[0]@, x[2]@, x[4]@, t0@);
        lemma_bcax_lanes64(x[2]@, x[4]@, x[0]@, t1@);
        lemma_bcax_lanes64(x[4]@, x[0]@, x[2]@, t2@);
    }
    x[0] = t0;
    x[2] = t1;
    x[4] = t2;
    let t0 = vbcaxq_u64(x[1], x[5], x[3]);
    let t1 = vbcaxq_u64(x[3], x[1], x[5]);
    let t2 = vbcaxq_u64(x[5], x[3], x[1]);
    proof {
        lemma_bcax_lanes64(x[1]@, x[3]@, x[5]@, t0@);
        lemma_bcax_lanes64(x[3]@, x[5]@, x[1]@, t1@);
        lemma_bcax_lanes64(x[5]@, x[1]@, x[3]@, t2@);
    }
    x[1] = t0;
    x[3] = t1;
    x[5] = t2;
    proof {
        lemma_words6_equal(state_of_lane64(x@, 0), chi64(state_of_lane64(old(x)@, 0)));
        lemma_words6_equal(state_of_lane64(x@, 1), chi64(state_of_lane64(old(x)@, 1)));
    }
}

/// Rho-east on two states in lane-major registers.
pub fn rho_east_lanes64(x: &mut [uint64x2_t; 6])
    ensures
        state_of_lane64(final(x)@, 0) == rho_east64(state_of_lane64(old(x)@, 0)),
        state_of_lane64(final(x)@, 1) == rho_east64(state_of_lane64(old(x)@, 1)),
{
    x[2] = rotate_lanes_left64(x[2], 1);
    x[3] = rotate_lanes_left64(x[3], 1);
    let t = x[4];
    x[4] = x[5];
    x[5] = t;
    x[4] = rotate_lanes_left64(x[4], 16);
    x[5] = rotate_lanes_left64(x[5], 16);
    proof {
        lemma_words6_equal(state_of_lane64(x@, 0), rho_east64(state_of_lane64(old(x)@, 0)));
        lemma_words6_equal(state_of_lane64(x@, 1), rho_east64(state_of_lane64(old(x)@, 1)));
    }
}

/// Theta on two pairs of states in lane-major registers, the statements of
/// the two pairs interleaved.
pub fn theta_lanes64_x2(x: &mut [uint64x2_t; 12])
    ensures
        state_of_lane64(final(x)@.subrange(0, 6), 0) == theta64(state_of_lane64(old(x)@.subrange(0, 6), 0)),
        state_of_lane64(final(x)@.subrange(0, 6), 1) == theta64(state_of_lane64(old(x)@.subrange(0, 6), 1)),
        state_of_lane64(final(x)@.subrange(6, 12), 0) == theta64(state_of_lane64(old(x)@.subrange(6, 12), 0)),
        state_of_lane64(final(x)@.subrange(6, 12), 1) == theta64(state_of_lane64(old(x)@.subrange(6, 12), 1)),
{
    let parity0a = veor3q_u64(x[0], x[2], x[4]);
    let parity1a = veor3q_u64(x[1], x[3], x[5]);
    let parity0b = veor3q_u64(x[6], x[8], x[10]);
    let parity1b = veor3q_u64(x[7], x[9], x[11]);
    let effect0a = theta_effect_lanes64(parity1a);
    let effect1a = theta_effect_lanes64(parity0a);
    let effect0b = theta_effect_lanes64(parity1b);
    let effect1b = theta_effect_lanes64(parity0b);
    x[0] = veorq_u64(x[0], effect0a);
    x[2] = veorq_u64(x[2], effect0a);
    x[4] = veorq_u64(x[4], effect0a);
    x[1] = veorq_u64(x[1], effect1a);
    x[3] = veorq_u64(x[3], effect1a);
    x[5] = veorq_u64(x[5], effect1a);
    x[6] = veorq_u64(x[6], effect0b);
    x[8] = veorq_u64(x[8], effect0b);
    x[10] = veorq_u64(x[10], effect0b);
    x[7] = veorq_u64(x[7], effect1b);
    x[9] = veorq_u64(x[9], effect1b);
    x[11] = veorq_u64(x[11], effect1b);
    proof {
        lemma_words6_equal(
            state_of_lane64(x@.subrange(0, 6), 0),
            theta64(state_of_lane64(old(x)@.subrange(0, 6), 0)),
        );
        lemma_words6_equal(
            state_of_lane64(x@.subrange(0, 6), 1),
            theta64(state_of_lane64(old(x)@.subrange(0, 6), 1)),
        );
        lemma_words6_equal(
            state_of_lane64(x@.subrange(6, 12), 0),
            theta64(state_of_lane64(old(x)@.subrange(6, 12), 0)),
        );
        lemma_words6_equal(
            state_of_lane64(x@.subrange(6, 12), 1),
            theta64(state_of_lane64(old(x)@.subrange(6, 12), 1)),
        );
    }
}

/// Rho-west on two pairs of states in lane-major registers, the statements of
/// the two pairs interleaved.
pub fn rho_west_lanes64_x2(x: &mut [uint64x2_t; 12])
    ensures
        state_of_lane64(final(x)@.subrange(0, 6), 0) == rho_west64(state_of_lane64(old(x)@.subrange(0, 6), 0)),
        state_of_lane64(final(x)@.subrange(0, 6), 1) == rho_west64(state_of_lane64(old(x)@.subrange(0, 6), 1)),
        state_of_lane64(final(x)@.subrange(6, 12), 0) == rho_west64(state_of_lane64(old(x)@.subrange(6, 12), 0)),
        state_of_lane64(final(x)@.subrange(6, 12), 1) == rho_west64(state_of_lane64(old(x)@.subrange(6, 12), 1)),
{
    let ta = x[2];
    x[2] = x[3];
    x[3] = ta;
    let tb = x[8];
    x[8] = x[9];
    x[9] = tb;
    x[4] = rotate_lanes_left64(x[4], 23);
    x[5] = rotate_lanes_left64(x[5], 23);
    x[10] = rotate_lanes_left64(x[10], 23);
    x[11] = rotate_lanes_left64(x[11], 23);
    proof {
        lemma_words6_equal(
            state_of_lane64(x@.subrange(0, 6), 0),
            rho_west64(state_of_lane64(old(x)@.subrange(0, 6), 0)),
        );
        lemma_words6_equal(
            state_of_lane64(x@.subrange(0, 6), 1),
            rho_west64(state_of_lane64(old(x)@.subrange(0, 6), 1)),
        );
        lemma_words6_equal(
            state_of_lane64(x@.subrange(6, 12), 0),
            rho_west64(state_of_lane64(old(x)@.subrange(6, 12), 0)),
        );
        lemma_words6_equal(
            state_of_lane64(x@.subrange(6, 12), 1),
            rho_west64(state_of_lane64(old(x)@.subrange(6, 12), 1)),
        );
    }
}

/// Iota on two pairs of states in lane-major registers, the statements of
/// the two pairs interleaved.
pub fn iota_lanes64_x2(x: &mut [uint64x2_t; 12], round_key: u32)
    ensures
        state_of_lane64(final(x)@.subrange(0, 6), 0) == iota64(state_of_lane64(old(x)@.subrange(0, 6), 0), round_key),
        state_of_lane64(final(x)@.subrange(0, 6), 1) == iota64(state_of_lane64(old(x)@.subrange(0, 6), 1), round_key),
        state_of_lane64(final(x)@.subrange(6, 12), 0) == iota64(state_of_lane64(old(x)@.subrange(6, 12), 0), round_key),
        state_of_lane64(final(x)@.subrange(6, 12), 1) == iota64(state_of_lane64(old(x)@.subrange(6, 12), 1), round_key),
{
    let round_const = vdupq_n_u64(round_key as u64);
    x[0] = veorq_u64(x[0], round_const);
    x[6] = veorq_u64(x[6], round_const);
    proof {
        lemma_words6_equal(
            state_of_lane64(x@.subrange(0, 6), 0),
            iota64(state_of_lane64(old(x)@.subrange(0, 6), 0), round_key),
        );
        lemma_words6_equal(
            state_of_lane64(x@.subrange(0, 6), 1),
            iota64(state_of_lane64(old(x)@.subrange(0, 6), 1), round_key),
        );
        lemma_words6_equal(
            state_of_lane64(x@.subrange(6, 12), 0),
            iota64(state_of_lane64(old(x)@.subrange(6, 12), 0), round_key),
        );
        lemma_words6_equal(
            state_of_lane64(x@.subrange(6, 12), 1),
            iota64(state_of_lane64(old(x)@.subrange(6, 12), 1), round_key),
        );
    }
}

/// Chi on two pairs of states in lane-major registers, the statements of
/// the two pairs interleaved.
pub fn chi_lanes64_x2(x: &mut [uint64x2_t; 12])
    ensures
        state_of_lane64(final(x)@.subrange(0, 6), 0) == chi64(state_of_lane64(old(x)@.subrange(0, 6), 0)),
        state_of_lane64(final(x)@.subrange(0, 6), 1) == chi64(state_of_lane64(old(x)@.subrange(0, 6), 1)),
        state_of_lane64(final(x)@.subrange(6, 12), 0) == chi64(state_of_lane64(old(x)@.subrange(6, 12), 0)),
        state_of_lane64(final(x)@.subrange(6, 12), 1) == chi64(state_of_lane64(old(x)@.subrange(6, 12), 1)),
{
    let t0 = vbcaxq_u64(x[0], x[4], x[2]);
    let t1 = vbcaxq_u64(x[2], x[0], x[4]);
    let t2 = vbcaxq_u64(x[4], x[2], x[0]);
    proof {
        lemma_bcax_lanes64(x[0]@, x[2]@, x[4]@, t0@);
        lemma_bcax_lanes64(x[2]@, x[4]@, x[0]@, t1@);
        lemma_bcax_lanes64(x[4]@, x[0]@, x[2]@, t2@);
    }
    x[0] = t0;
    x[2] = t1;
    x[4] = t2;
    let t0 = vbcaxq_u64(x[1], x[5], x[3]);
    let t1 = vbcaxq_u64(x[3], x[1], x[5]);
    let t2 = vbcaxq_u64(x[5], x[3], x[1]);
    proof {
        lemma_bcax_lanes64(x[1]@, x[3]@, x[5]@, t0@);
        lemma_bcax_lanes64(x[3]@, x[5]@, x[1]@, t1@);
        lemma_bcax_lanes64(x[5]@, x[1]@, x[3]@, t2@);
    }
    x[1] = t0;
    x[3] = t1;
    x[5] = t2;
    let t0 = vbcaxq_u64(x[6], x[10], x[8]);
    let t1 = vbcaxq_u64(x[8], x[6], x[10]);
    let t2 = vbcaxq_u64(x[10], x[8], x[6]);
    proof {
        lemma_bcax_lanes64(x[6]@, x[8]@, x[10]@, t0@);
        lemma_bcax_lanes64(x[8]@, x[10]@, x[6]@, t1@);
        lemma_bcax_lanes64(x[10]@, x[6]@, x[8]@, t2@);
    }
    x[6] = t0;
    x[8] = t1;
    x[10] = t2;
    let t0 = vbcaxq_u64(x[7], x[11], x[9]);
    let t1 = vbcaxq_u64(x[9], x[7], x[11]);
    let t2 = vbcaxq_u64(x[11], x[9], x[7]);
    proof {
        lemma_bcax_lanes64(x[7]@, x[9]@, x[11]@, t0@);
        lemma_bcax_lanes64(x[9]@, x[11]@, x[7]@, t1@);
        lemma_bcax_lanes64(x[11]@, x[7]@, x[9]@, t2@);
    }
    x[7] = t0;
    x[9] = t1;
    x[11] = t2;
    proof {
        lemma_words6_equal(
            state_of_lane64(x@.subrange(0, 6), 0),
            chi64(state_of_lane64(old(x)@.subrange(0, 6), 0)),
        );
        lemma_words6_equal(
            state_of_lane64(x@.subrange(0, 6), 1),
            chi64(state_of_lane64(old(x)@.subrange(0, 6), 1)),
        );
        lemma_words6_equal(
            state_of_lane64(x@.subrange(6, 12), 0),
            chi64(state_of_lane64(old(x)@.subrange(6, 12), 0)),
        );
        lemma_words6_equal(
            state_of_lane64(x@.subrange(6, 12), 1),
            chi64(state_of_lane64(old(x)@.subrange(6, 12), 1)),
        );
    }
}

/// Rho-east on two pairs of states in lane-major registers, the statements of
/// the two pairs interleaved.
pub fn rho_east_lanes64_x2(x: &mut [uint64x2_t; 12])
    ensures
        state_of_lane64(final(x)@.subrange(0, 6), 0) == rho_east64(state_of_lane64(old(x)@.subrange(0, 6), 0)),
        state_of_lane64(final(x)@.subrange(0, 6), 1) == rho_east64(state_of_lane64(old(x)@.subrange(0, 6), 1)),
        state_of_lane64(final(x)@.subrange(6, 12), 0) == rho_east64(state_of_lane64(old(x)@.subrange(6, 12), 0)),
        state_of_lane64(final(x)@.subrange(6, 12), 1) == rho_east64(state_of_lane64(old(x)@.subrange(6, 12), 1)),
{
    x[2] = rotate_lanes_left64(x[2], 1);
    x[3] = rotate_lanes_left64(x[3], 1);
    x[8] = rotate_lanes_left64(x[8], 1);
    x[9] = rotate_lanes_left64(x[9], 1);
    let ta = x[4];
    x[4] = x[5];
    x[5] = ta;
    let tb = x[10];
    x[10] = x[11];
    x[11] = tb;
    x[4] = rotate_lanes_left64(x[4], 16);
    x[5] = rotate_lanes_left64(x[5], 16);
    x[10] = rotate_lanes_left64(x[10], 16);
    x[11] = rotate_lanes_left64(x[11], 16);
    proof {
        lemma_words6_equal(
            state_of_lane64(x@.subrange(0, 6), 0),
            rho_east64(state_of_lane64(old(x)@.subrange(0, 6), 0)),
        );
        lemma_words6_equal(
            state_of_lane64(x@.subrange(0, 6), 1),
            rho_east64(state_of_lane64(old(x)@.subrange(0, 6), 1)),
        );
        lemma_words6_equal(
            state_of_lane64(x@.subrange(6, 12), 0),
            rho_east64(state_of_lane64(old(x)@.subrange(6, 12), 0)),
        );
        lemma_words6_equal(
            state_of_lane64(x@.subrange(6, 12), 1),
            rho_east64(state_of_lane64(old(x)@.subrange(6, 12), 1)),
        );
    }
}

/// The permutation on 64-bit words on one 48-byte state, in place, on three
/// vector registers that hold one plane each.
#[inline(never)]
pub fn xoodoo64_aarch64_sha3(x: &mut [u8; 48])
    ensures
        final(x)@ == permutation64(old(x)@),
{
    let mut r: [uint64x2_t; 3] = [[0u64; 2]; 3];
    load_registers(x.as_slice(), &mut r);
    let mut a: uint64x2_t = r[0];
    let mut b: uint64x2_t = r[1];
    let mut c: uint64x2_t = r[2];
    proof {
        lemma_planes64_of_registers(r@, 0);
        assert(lanes64_of(r@).subrange(0, 6) =~= lanes64_of(r@));
    }

    let mut i: usize = 0;
    while i < 12
        invariant
            i <= 12,
            a@ + b@ + c@ == rounds64(words64_of_bytes(old(x)@), i as nat),
        decreases 12 - i,
    {
        theta_planes64(&mut a, &mut b, &mut c);
        rho_west_planes64(&mut a, &mut b, &mut c);
        iota_planes64(&mut a, &mut b, &mut c, ROUND_KEYS[i]);
        chi_planes64(&mut a, &mut b, &mut c);
        rho_east_planes64(&mut a, &mut b, &mut c);
        i += 1;
    }

    let r: [uint64x2_t; 3] = [a, b, c];
    store_registers(&r, x);
    proof {
        lemma_planes64_of_registers(r@, 0);
        assert(lanes64_of(r@).subrange(0, 6) =~= lanes64_of(r@));
    }
}

/// The permutation on 64-bit words on two 48-byte states laid out one after
/// the other, in place: the states are transposed so that register `w`
/// holds word `w` of both, every operation then advances the two states at
/// once, and the result is transposed back.
#[inline(never)]
pub fn xoodoo64_aarch64_sha3_x2(state: &mut [u8; 96])
    ensures
        final(state)@ == permutation64_batch(old(state)@, 2),
{
    let mut r: [uint64x2_t; 6] = [[0u64; 2]; 6];
    load_registers(state.as_slice(), &mut r);
    let mut x: [uint64x2_t; 6] = to_lane_major64_x2(&r);
    proof {
        let words = words64_of_bytes(state@);
        lemma_state_of_lane64_loaded(x@, words, 0);
        lemma_state_of_lane64_loaded(x@, words, 1);
    }

    let mut i: usize = 0;
    while i < 12
        invariant
            i <= 12,
            state_of_lane64(x@, 0) == rounds64(
                word_block64(words64_of_bytes(old(state)@), 0),
                i as nat,
            ),
            state_of_lane64(x@, 1) == rounds64(
                word_block64(words64_of_bytes(old(state)@), 1),
                i as nat,
            ),
        decreases 12 - i,
    {
        theta_lanes64(&mut x);
        rho_west_lanes64(&mut x);
        iota_lanes64(&mut x, ROUND_KEYS[i]);
        chi_lanes64(&mut x);
        rho_east_lanes64(&mut x);
        i += 1;
    }

    let r: [uint64x2_t; 6] = to_block_major64_x2(&x);
    store_registers(&r, state);
    proof {
        let words = lanes64_of(r@);
        lemma_state_of_lane64_stored(x@, words, 0);
        lemma_state_of_lane64_stored(x@, words, 1);
        lemma_batch_of_word_blocks64(old(state)@, words, 2);
    }
}

/// The permutation on 64-bit words on four 48-byte states laid out one after
/// the other, in place: the states are transposed pair by pair so that a
/// register holds one word of the two states of a pair, every operation
/// then advances a pair at once, and the result is transposed back.
#[inline(never)]
pub fn xoodoo64_aarch64_sha3_x4(state: &mut [u8; 192])
    ensures
        final(state)@ == permutation64_batch(old(state)@, 4),
{
    let mut r: [uint64x2_t; 12] = [[0u64; 2]; 12];
    load_registers(state.as_slice(), &mut r);
    let mut x: [uint64x2_t; 12] = to_lane_major64_x4(&r);
    proof {
        let words = words64_of_bytes(state@);
        assert(lanes64_of(r@.subrange(0, 6)) =~= words.subrange(0, 12));
        lemma_state_of_lane64_loaded(x@.subrange(0, 6), words.subrange(0, 12), 0);
        assert(words.subrange(0, 12).subrange(0, 6) =~= word_block64(words, 0));
        lemma_state_of_lane64_loaded(x@.subrange(0, 6), words.subrange(0, 12), 1);
        assert(words.subrange(0, 12).subrange(6, 12) =~= word_block64(words, 1));
        assert(lanes64_of(r@.subrange(6, 12)) =~= words.subrange(12, 24));
        lemma_state_of_lane64_loaded(x@.subrange(6, 12), words.subrange(12, 24), 0);
        assert(words.subrange(12, 24).subrange(0, 6) =~= word_block64(words, 2));
        lemma_state_of_lane64_loaded(x@.subrange(6, 12), words.subrange(12, 24), 1);
        assert(words.subrange(12, 24).subrange(6, 12) =~= word_block64(words, 3));
    }

    let mut i: usize = 0;
    while i < 12
        invariant
            i <= 12,
            state_of_lane64(x@.subrange(0, 6), 0) == rounds64(
                word_block64(words64_of_bytes(old(state)@), 0),
                i as nat,
            ),
            state_of_lane64(x@.subrange(0, 6), 1) == rounds64(
                word_block64(words64_of_bytes(old(state)@), 1),
                i as nat,
            ),
            state_of_lane64(x@.subrange(6, 12), 0) == rounds64(
                word_block64(words64_of_bytes(old(state)@), 2),
                i as nat,
            ),
            state_of_lane64(x@.subrange(6, 12), 1) == rounds64(
                word_block64(words64_of_bytes(old(state)@), 3),
                i as nat,
            ),
        decreases 12 - i,
    {
        theta_lanes64_x2(&mut x);
        rho_west_lanes64_x2(&mut x);
        iota_lanes64_x2(&mut x, ROUND_KEYS[i]);
        chi_lanes64_x2(&mut x);
        rho_east_lanes64_x2(&mut x);
        i += 1;
    }

    let r: [uint64x2_t; 12] = to_block_major64_x4(&x);
    store_registers(&r, state);
    proof {
        let words = lanes64_of(r@);
        assert(lanes64_of(r@.subrange(0, 6)) =~= words.subrange(0, 12));
        lemma_state_of_lane64_stored(x@.subrange(0, 6), words.subrange(0, 12), 0);
        assert(words.subrange(0, 12).subrange(0, 6) =~= word_block64(words, 0));
        lemma_state_of_lane64_stored(x@.subrange(0, 6), words.subrange(0, 12), 1);
        assert(words.subrange(0, 12).subrange(6, 12) =~= word_block64(words, 1));
        assert(lanes64_of(r@.subrange(6, 12)) =~= words.subrange(12, 24));
        lemma_state_of_lane64_stored(x@.subrange(6, 12), words.subrange(12, 24), 0);
        assert(words.subrange(12, 24).subrange(0, 6) =~= word_block64(words, 2));
        lemma_state_of_lane64_stored(x@.subrange(6, 12), words.subrange(12, 24), 1);
        assert(words.subrange(12, 24).subrange(6, 12) =~= word_block64(words, 3));
        lemma_batch_of_word_blocks64(old(state)@, words, 4);
    }
}

} // verus!
