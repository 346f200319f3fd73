//! Vector engines of the 32-bit family, written in two-input XOR and
//! bit-clear operations.
//!
//! The engines for one and two states keep one plane in a register, four lanes
//! side by side: moving the lanes of a plane is a byte table lookup, and a
//! rotation of every lane is a shift right and a shift left with insert. The
//! engine for four states keeps one word of all four states in a register, so
//! that moving lanes is renaming registers.
//!
//! Every operation on a register is a function of [`crate::neon`], the
//! lane-wise definition of the instruction of the same name.
use crate::batch::word_block;
use crate::bits::rotl32;
use crate::codec::{le32, lemma_le32_of_bytes, words_of_bytes};
use crate::neon::{
    shr32, sli32, uint32x4_t, uint64x2_t, vbicq_u32, vdupq_n_u32, veorq_u32, vqtbl1q_u8, vreinterpretq_u32_u8,
    vreinterpretq_u8_u32, vsetq_lane_u32, vshrq_n_u32, vsliq_n_u32,
};
use crate::permutation::{
    chi, iota, lemma_batch_of_word_blocks, lemma_words12_equal, permutation, permutation_batch, rho_east,
    rho_west, rounds, theta, ROUND_KEYS,
};
use crate::transpose::{
    halves_of, lanes_of, lemma_bytes_of_stored, lemma_halves_of_loaded, lemma_planes_of_registers,
    lemma_state_of_lane_loaded, lemma_state_of_lane_stored, load_registers, load_registers_u32, state_of_lane,
    store_registers, store_registers_u32, to_block_major_x4, to_lane_major_x4,
};
use vstd::prelude::*;

verus! {

/// Selects, for every lane, the bytes of the next lane.
pub const THETA_SHIFT: [u8; 16] = [4, 5, 6, 7, 8, 9, 10, 11, 12, 13, 14, 15, 0, 1, 2, 3];

/// Selects, for every lane, the bytes of the lane before.
pub const RHO_WEST_1: [u8; 16] = [12, 13, 14, 15, 0, 1, 2, 3, 4, 5, 6, 7, 8, 9, 10, 11];

/// Selects, for every lane, the bytes of the lane two positions on, moved up
/// by one byte position.
pub const RHO_EAST_2: [u8; 16] = [11, 8, 9, 10, 15, 12, 13, 14, 3, 0, 1, 2, 7, 4, 5, 6];

/// Selects, for every lane, its own bytes moved up by one byte position.
pub const RHO_EAST_BYTES: [u8; 16] = [3, 0, 1, 2, 7, 4, 5, 6, 11, 8, 9, 10, 15, 12, 13, 14];

/// A shift right by `32 - n` bits followed by a shift left by `n` bits with
/// insert is a rotation left by `n` bits.
pub proof fn lemma_shift_insert_rotates(x: u32, n: u32)
    by (bit_vector)
    requires
        1 <= n <= 31,
    ensures
        sli32(shr32(x, (32 - n) as u32), x, n) == rotl32(x, n),
{
}

/// Moving every byte of a word up by one position, the top byte to the
/// bottom, is a rotation left by 8 bits.
pub proof fn lemma_byte_rotation(x: u32)
    by (bit_vector)
    ensures
        le32((x >> 24u32) as u8, (x >> 0u32) as u8, (x >> 8u32) as u8, (x >> 16u32) as u8) == rotl32(x, 8),
{
}

/// XOR with zero leaves a word as it is.
pub proof fn lemma_xor_zero(x: u32)
    by (bit_vector)
    ensures
        x ^ 0 == x,
{
}

/// A bit clear followed by an XOR, and the fused bit clear and XOR, compute
/// one output of chi.
pub proof fn lemma_chi_forms(a: u32, b: u32, c: u32)
    by (bit_vector)
    ensures
        (c & !b) ^ a == a ^ (!b & c),
        a ^ (c & !b) == a ^ (!b & c),
{
}

/// Lane by lane, a bit clear followed by an XOR computes one output of chi.
pub proof fn lemma_bic_xor_lanes(a: Seq<u32>, b: Seq<u32>, c: Seq<u32>, r: Seq<u32>)
    requires
        forall|i: int| 0 <= i < 4 ==> #[trigger] r[i] == (c[i] & !b[i]) ^ a[i],
    ensures
        forall|i: int| 0 <= i < 4 ==> #[trigger] r[i] == a[i] ^ (!b[i] & c[i]),
{
    assert forall|i: int| 0 <= i < 4 implies #[trigger] r[i] == a[i] ^ (!b[i] & c[i]) by {
        lemma_chi_forms(a[i], b[i], c[i]);
    }
}

/// Lane by lane, the fused bit clear and XOR computes one output of chi.
pub proof fn lemma_bcax_lanes(a: Seq<u32>, b: Seq<u32>, c: Seq<u32>, r: Seq<u32>)
    requires
        forall|i: int| 0 <= i < 4 ==> #[trigger] r[i] == a[i] ^ (c[i] & !b[i]),
    ensures
        forall|i: int| 0 <= i < 4 ==> #[trigger] r[i] == a[i] ^ (!b[i] & c[i]),
{
    assert forall|i: int| 0 <= i < 4 implies #[trigger] r[i] == a[i] ^ (!b[i] & c[i]) by {
        lemma_chi_forms(a[i], b[i], c[i]);
    }
}

/// Every lane rotated left by `n` bits.
pub fn rotate_lanes_left(p: uint32x4_t, n: u32) -> (r: uint32x4_t)
    requires
        1 <= n <= 31,
    ensures
        forall|i: int| 0 <= i < 4 ==> #[trigger] r@[i] == rotl32(p@[i], n),
{
    let r = vsliq_n_u32(vshrq_n_u32(p, 32 - n), p, n);
    proof {
        lemma_shift_insert_rotates(p@[0], n);
        lemma_shift_insert_rotates(p@[1], n);
        lemma_shift_insert_rotates(p@[2], n);
        lemma_shift_insert_rotates(p@[3], n);
    }
    r
}

/// Every lane takes the value of the next lane, lane 3 that of lane 0.
pub fn lanes_from_next(p: uint32x4_t) -> (r: uint32x4_t)
    ensures
        r@ == seq![p@[1], p@[2], p@[3], p@[0]],
{
    let r = vreinterpretq_u32_u8(vqtbl1q_u8(vreinterpretq_u8_u32(p), THETA_SHIFT));
    proof {
        lemma_le32_of_bytes(p@[0]);
        lemma_le32_of_bytes(p@[1]);
        lemma_le32_of_bytes(p@[2]);
        lemma_le32_of_bytes(p@[3]);
        assert(r@ =~= seq![p@[1], p@[2], p@[3], p@[0]]);
    }
    r
}

/// Every lane takes the value of the lane before, lane 0 that of lane 3.
pub fn lanes_from_previous(p: uint32x4_t) -> (r: uint32x4_t)
    ensures
        r@ == seq![p@[3], p@[0], p@[1], p@[2]],
{
    let r = vreinterpretq_u32_u8(vqtbl1q_u8(vreinterpretq_u8_u32(p), RHO_WEST_1));
    proof {
        lemma_le32_of_bytes(p@[0]);
        lemma_le32_of_bytes(p@[1]);
        lemma_le32_of_bytes(p@[2]);
        lemma_le32_of_bytes(p@[3]);
        assert(r@ =~= seq![p@[3], p@[0], p@[1], p@[2]]);
    }
    r
}

/// Every lane takes the value of the lane two positions on, rotated left by
/// 8 bits.
pub fn rho_east_plane(p: uint32x4_t) -> (r: uint32x4_t)
    ensures
        r@ == seq![rotl32(p@[2], 8), rotl32(p@[3], 8), rotl32(p@[0], 8), rotl32(p@[1], 8)],
{
    let r = vreinterpretq_u32_u8(vqtbl1q_u8(vreinterpretq_u8_u32(p), RHO_EAST_2));
    proof {
        lemma_byte_rotation(p@[0]);
        lemma_byte_rotation(p@[1]);
        lemma_byte_rotation(p@[2]);
        lemma_byte_rotation(p@[3]);
        assert(r@ =~= seq![rotl32(p@[2], 8), rotl32(p@[3], 8), rotl32(p@[0], 8), rotl32(p@[1], 8)]);
    }
    r
}

/// Every lane rotated left by 8 bits, as a move of its bytes.
pub fn rotate_lane_bytes(p: uint32x4_t) -> (r: uint32x4_t)
    ensures
        forall|i: int| 0 <= i < 4 ==> #[trigger] r@[i] == rotl32(p@[i], 8),
{
    let r = vreinterpretq_u32_u8(vqtbl1q_u8(vreinterpretq_u8_u32(p), RHO_EAST_BYTES));
    proof {
        lemma_byte_rotation(p@[0]);
        lemma_byte_rotation(p@[1]);
        lemma_byte_rotation(p@[2]);
        lemma_byte_rotation(p@[3]);
    }
    r
}

/// Theta on the plane registers of one state.
pub fn theta_planes(a: &mut uint32x4_t, b: &mut uint32x4_t, c: &mut uint32x4_t)
    ensures
        final(a)@ + final(b)@ + final(c)@ == theta(old(a)@ + old(b)@ + old(c)@),
{
    let parity = veorq_u32(veorq_u32(*a, *b), *c);
    let parity = lanes_from_next(parity);
    let effect = veorq_u32(rotate_lanes_left(parity, 5), rotate_lanes_left(parity, 14));
    *a = veorq_u32(*a, effect);
    *b = veorq_u32(*b, effect);
    *c = veorq_u32(*c, effect);
    proof {
        lemma_words12_equal(a@ + b@ + c@, theta(old(a)@ + old(b)@ + old(c)@));
    }
}

/// Rho-west on the plane registers of one state.
pub fn rho_west_planes(a: &mut uint32x4_t, b: &mut uint32x4_t, c: &mut uint32x4_t)
    ensures
        final(a)@ + final(b)@ + final(c)@ == rho_west(old(a)@ + old(b)@ + old(c)@),
{
    *b = lanes_from_previous(*b);
    *c = rotate_lanes_left(*c, 11);
    proof {
        lemma_words12_equal(a@ + b@ + c@, rho_west(old(a)@ + old(b)@ + old(c)@));
    }
}

/// Iota on the plane registers of one state.
pub fn iota_planes(a: &mut uint32x4_t, b: &mut uint32x4_t, c: &mut uint32x4_t, round_key: u32)
    ensures
        final(a)@ + final(b)@ + final(c)@ == iota(old(a)@ + old(b)@ + old(c)@, round_key),
{
    let round_const = vdupq_n_u32(0);
    let round_const = vsetq_lane_u32(round_key, round_const, 0);
    *a = veorq_u32(*a, round_const);
    proof {
        lemma_xor_zero(old(a)@[1]);
        lemma_xor_zero(old(a)@[2]);
        lemma_xor_zero(old(a)@[3]);
    }
    proof {
        lemma_words12_equal(a@ + b@ + c@, iota(old(a)@ + old(b)@ + old(c)@, round_key));
    }
}

/// Chi on the plane registers of one state.
pub fn chi_planes(a: &mut uint32x4_t, b: &mut uint32x4_t, c: &mut uint32x4_t)
    ensures
        final(a)@ + final(b)@ + final(c)@ == chi(old(a)@ + old(b)@ + old(c)@),
{
    let a2 = veorq_u32(vbicq_u32(*c, *b), *a);
    let b2 = veorq_u32(vbicq_u32(*a, *c), *b);
    let c2 = veorq_u32(vbicq_u32(*b, *a), *c);
    proof {
        lemma_bic_xor_lanes(a@, b@, c@, a2@);
        lemma_bic_xor_lanes(b@, c@, a@, b2@);
        lemma_bic_xor_lanes(c@, a@, b@, c2@);
    }
    *a = a2;
    *b = b2;
    *c = c2;
    proof {
        lemma_words12_equal(a@ + b@ + c@, chi(old(a)@ + old(b)@ + old(c)@));
    }
}

/// Rho-east on the plane registers of one state.
pub fn rho_east_planes(a: &mut uint32x4_t, b: &mut uint32x4_t, c: &mut uint32x4_t)
    ensures
        final(a)@ + final(b)@ + final(c)@ == rho_east(old(a)@ + old(b)@ + old(c)@),
{
    *b = rotate_lanes_left(*b, 1);
    *c = rho_east_plane(*c);
    proof {
        lemma_words12_equal(a@ + b@ + c@, rho_east(old(a)@ + old(b)@ + old(c)@));
    }
}

/// Theta on the plane registers of two states, statement by statement.
pub fn theta_planes_x2(
    a0: &mut uint32x4_t,
    b0: &mut uint32x4_t,
    c0: &mut uint32x4_t,
    a1: &mut uint32x4_t,
    b1: &mut uint32x4_t,
    c1: &mut uint32x4_t,
)
    ensures
        final(a0)@ + final(b0)@ + final(c0)@ == theta(old(a0)@ + old(b0)@ + old(c0)@),
        final(a1)@ + final(b1)@ + final(c1)@ == theta(old(a1)@ + old(b1)@ + old(c1)@),
{
    let parity0 = veorq_u32(veorq_u32(*a0, *b0), *c0);
    let parity1 = veorq_u32(veorq_u32(*a1, *b1), *c1);
    let parity0 = lanes_from_next(parity0);
    let parity1 = lanes_from_next(parity1);
    let effect0 = veorq_u32(rotate_lanes_left(parity0, 5), rotate_lanes_left(parity0, 14));
    let effect1 = veorq_u32(rotate_lanes_left(parity1, 5), rotate_lanes_left(parity1, 14));
    *a0 = veorq_u32(*a0, effect0);
    *a1 = veorq_u32(*a1, effect1);
    *b0 = veorq_u32(*b0, effect0);
    *b1 = veorq_u32(*b1, effect1);
    *c0 = veorq_u32(*c0, effect0);
    *c1 = veorq_u32(*c1, effect1);
    proof {
        lemma_words12_equal(a0@ + b0@ + c0@, theta(old(a0)@ + old(b0)@ + old(c0)@));
        lemma_words12_equal(a1@ + b1@ + c1@, theta(old(a1)@ + old(b1)@ + old(c1)@));
    }
}

/// Rho-west on the plane registers of two states, statement by statement.
pub fn rho_west_planes_x2(
    a0: &mut uint32x4_t,
    b0: &mut uint32x4_t,
    c0: &mut uint32x4_t,
    a1: &mut uint32x4_t,
    b1: &mut uint32x4_t,
    c1: &mut uint32x4_t,
)
    ensures
        final(a0)@ + final(b0)@ + final(c0)@ == rho_west(old(a0)@ + old(b0)@ + old(c0)@),
        final(a1)@ + final(b1)@ + final(c1)@ == rho_west(old(a1)@ + old(b1)@ + old(c1)@),
{
    *b0 = lanes_from_previous(*b0);
    *b1 = lanes_from_previous(*b1);
    *c0 = rotate_lanes_left(*c0, 11);
    *c1 = rotate_lanes_left(*c1, 11);
    proof {
        lemma_words12_equal(a0@ + b0@ + c0@, rho_west(old(a0)@ + old(b0)@ + old(c0)@));
        lemma_words12_equal(a1@ + b1@ + c1@, rho_west(old(a1)@ + old(b1)@ + old(c1)@));
    }
}

/// Iota on the plane registers of two states, statement by statement.
pub fn iota_planes_x2(
    a0: &mut uint32x4_t,
    b0: &mut uint32x4_t,
    c0: &mut uint32x4_t,
    a1: &mut uint32x4_t,
    b1: &mut uint32x4_t,
    c1: &mut uint32x4_t,
    round_key: u32,
)
    ensures
        final(a0)@ + final(b0)@ + final(c0)@ == iota(old(a0)@ + old(b0)@ + old(c0)@, round_key),
        final(a1)@ + final(b1)@ + final(c1)@ == iota(old(a1)@ + old(b1)@ + old(c1)@, round_key),
{
    let round_const = vdupq_n_u32(0);
    let round_const = vsetq_lane_u32(round_key, round_const, 0);
    *a0 = veorq_u32(*a0, round_const);
    *a1 = veorq_u32(*a1, round_const);
    proof {
        lemma_xor_zero(old(a0)@[1]);
        lemma_xor_zero(old(a0)@[2]);
        lemma_xor_zero(old(a0)@[3]);
        lemma_xor_zero(old(a1)@[1]);
        lemma_xor_zero(old(a1)@[2]);
        lemma_xor_zero(old(a1)@[3]);
    }
    proof {
        lemma_words12_equal(a0@ + b0@ + c0@, iota(old(a0)@ + old(b0)@ + old(c0)@, round_key));
        lemma_words12_equal(a1@ + b1@ + c1@, iota(old(a1)@ + old(b1)@ + old(c1)@, round_key));
    }
}

/// Chi on the plane registers of two states, statement by statement.
pub fn chi_planes_x2(
    a0: &mut uint32x4_t,
    b0: &mut uint32x4_t,
    c0: &mut uint32x4_t,
    a1: &mut uint32x4_t,
    b1: &mut uint32x4_t,
    c1: &mut uint32x4_t,
)
    ensures
        final(a0)@ + final(b0)@ + final(c0)@ == chi(old(a0)@ + old(b0)@ + old(c0)@),
        final(a1)@ + final(b1)@ + final(c1)@ == chi(old(a1)@ + old(b1)@ + old(c1)@),
{
    let t0 = veorq_u32(vbicq_u32(*c0, *b0), *a0);
    let t1 = veorq_u32(vbicq_u32(*a0, *c0), *b0);
    let t2 = veorq_u32(vbicq_u32(*b0, *a0), *c0);
    proof {
        lemma_bic_xor_lanes(a0@, b0@, c0@, t0@);
        lemma_bic_xor_lanes(b0@, c0@, a0@, t1@);
        lemma_bic_xor_lanes(c0@, a0@, b0@, t2@);
    }
    *a0 = t0;
    *b0 = t1;
    *c0 = t2;
    let t0 = veorq_u32(vbicq_u32(*c1, *b1), *a1);
    let t1 = veorq_u32(vbicq_u32(*a1, *c1), *b1);
    let t2 = veorq_u32(vbicq_u32(*b1, *a1), *c1);
    proof {
        lemma_bic_xor_lanes(a1@, b1@, c1@, t0@);
        lemma_bic_xor_lanes(b1@, c1@, a1@, t1@);
        lemma_bic_xor_lanes(c1@, a1@, b1@, t2@);
    }
    *a1 = t0;
    *b1 = t1;
    *c1 = t2;
    proof {
        lemma_words12_equal(a0@ + b0@ + c0@, chi(old(a0)@ + old(b0)@ + old(c0)@));
        lemma_words12_equal(a1@ + b1@ + c1@, chi(old(a1)@ + old(b1)@ + old(c1)@));
    }
}

/// Rho-east on the plane registers of two states, statement by statement.
pub fn rho_east_planes_x2(
    a0: &mut uint32x4_t,
    b0: &mut uint32x4_t,
    c0: &mut uint32x4_t,
    a1: &mut uint32x4_t,
    b1: &mut uint32x4_t,
    c1: &mut uint32x4_t,
)
    ensures
        final(a0)@ + final(b0)@ + final(c0)@ == rho_east(old(a0)@ + old(b0)@ + old(c0)@),
        final(a1)@ + final(b1)@ + final(c1)@ == rho_east(old(a1)@ + old(b1)@ + old(c1)@),
{
    *b0 = rotate_lanes_left(*b0, 1);
    *b1 = rotate_lanes_left(*b1, 1);
    *c0 = rho_east_plane(*c0);
    *c1 = rho_east_plane(*c1);
    proof {
        lemma_words12_equal(a0@ + b0@ + c0@, rho_east(old(a0)@ + old(b0)@ + old(c0)@));
        lemma_words12_equal(a1@ + b1@ + c1@, rho_east(old(a1)@ + old(b1)@ + old(c1)@));
    }
}

/// Theta on four states in lane-major registers.
pub fn theta_lanes(x: &mut [uint32x4_t; 12])
    ensures
        state_of_lane(final(x)@, 0) == theta(state_of_lane(old(x)@, 0)),
        state_of_lane(final(x)@, 1) == theta(state_of_lane(old(x)@, 1)),
        state_of_lane(final(x)@, 2) == theta(state_of_lane(old(x)@, 2)),
        state_of_lane(final(x)@, 3) == theta(state_of_lane(old(x)@, 3)),
{
    let parity0 = veorq_u32(veorq_u32(x[0], x[4]), x[8]);
    let parity1 = veorq_u32(veorq_u32(x[1], x[5]), x[9]);
    let parity2 = veorq_u32(veorq_u32(x[2], x[6]), x[10]);
    let parity3 = veorq_u32(veorq_u32(x[3], x[7]), x[11]);
    let effect0 = veorq_u32(rotate_lanes_left(parity1, 5), rotate_lanes_left(parity1, 14));
    let effect1 = veorq_u32(rotate_lanes_left(parity2, 5), rotate_lanes_left(parity2, 14));
    let effect2 = veorq_u32(rotate_lanes_left(parity3, 5), rotate_lanes_left(parity3, 14));
    let effect3 = veorq_u32(rotate_lanes_left(parity0, 5), rotate_lanes_left(parity0, 14));
    x[0] = veorq_u32(x[0], effect0);
    x[4] = veorq_u32(x[4], effect0);
    x[8] = veorq_u32(x[8], effect0);
    x[1] = veorq_u32(x[1], effect1);
    x[5] = veorq_u32(x[5], effect1);
    x[9] = veorq_u32(x[9], effect1);
    x[2] = veorq_u32(x[2], effect2);
    x[6] = veorq_u32(x[6], effect2);
    x[10] = veorq_u32(x[10], effect2);
    x[3] = veorq_u32(x[3], effect3);
    x[7] = veorq_u32(x[7], effect3);
    x[11] = veorq_u32(x[11], effect3);
    proof {
        lemma_words12_equal(state_of_lane(x@, 0), theta(state_of_lane(old(x)@, 0)));
        lemma_words12_equal(state_of_lane(x@, 1), theta(state_of_lane(old(x)@, 1)));
        lemma_words12_equal(state_of_lane(x@, 2), theta(state_of_lane(old(x)@, 2)));
        lemma_words12_equal(state_of_lane(x@, 3), theta(state_of_lane(old(x)@, 3)));
    }
}

/// Rho-west on four states in lane-major registers: moving the lanes of a
/// plane is renaming registers.
pub fn rho_west_lanes(x: &mut [uint32x4_t; 12])
    ensures
        state_of_lane(final(x)@, 0) == rho_west(state_of_lane(old(x)@, 0)),
        state_of_lane(final(x)@, 1) == rho_west(state_of_lane(old(x)@, 1)),
        state_of_lane(final(x)@, 2) == rho_west(state_of_lane(old(x)@, 2)),
        state_of_lane(final(x)@, 3) == rho_west(state_of_lane(old(x)@, 3)),
{
    let t = x[7];
    x[7] = x[6];
    x[6] = x[5];
    x[5] = x[4];
    x[4] = t;
    x[8] = rotate_lanes_left(x[8], 11);
    x[9] = rotate_lanes_left(x[9], 11);
    x[10] = rotate_lanes_left(x[10], 11);
    x[11] = rotate_lanes_left(x[11], 11);
    proof {
        lemma_words12_equal(state_of_lane(x@, 0), rho_west(state_of_lane(old(x)@, 0)));
        lemma_words12_equal(state_of_lane(x@, 1), rho_west(state_of_lane(old(x)@, 1)));
        lemma_words12_equal(state_of_lane(x@, 2), rho_west(state_of_lane(old(x)@, 2)));
        lemma_words12_equal(state_of_lane(x@, 3), rho_west(state_of_lane(old(x)@, 3)));
    }
}

/// Iota on four states in lane-major registers: every state takes the round
/// key.
pub fn iota_lanes(x: &mut [uint32x4_t; 12], round_key: u32)
    ensures
        state_of_lane(final(x)@, 0) == iota(state_of_lane(old(x)@, 0), round_key),
        state_of_lane(final(x)@, 1) == iota(state_of_lane(old(x)@, 1), round_key),
        state_of_lane(final(x)@, 2) == iota(state_of_lane(old(x)@, 2), round_key),
        state_of_lane(final(x)@, 3) == iota(state_of_lane(old(x)@, 3), round_key),
{
    let round_const = vdupq_n_u32(round_key);
    x[0] = veorq_u32(x[0], round_const);
    proof {
        lemma_words12_equal(state_of_lane(x@, 0), iota(state_of_lane(old(x)@, 0), round_key));
        lemma_words12_equal(state_of_lane(x@, 1), iota(state_of_lane(old(x)@, 1), round_key));
        lemma_words12_equal(state_of_lane(x@, 2), iota(state_of_lane(old(x)@, 2), round_key));
        lemma_words12_equal(state_of_lane(x@, 3), iota(state_of_lane(old(x)@, 3), round_key));
    }
}

/// Chi on four states in lane-major registers.
pub fn chi_lanes(x: &mut [uint32x4_t; 12])
    ensures
        state_of_lane(final(x)@, 0) == chi(state_of_lane(old(x)@, 0)),
        state_of_lane(final(x)@, 1) == chi(state_of_lane(old(x)@, 1)),
        state_of_lane(final(x)@, 2) == chi(state_of_lane(old(x)@, 2)),
        state_of_lane(final(x)@, 3) == chi(state_of_lane(old(x)@, 3)),
{
    let t0 = veorq_u32(vbicq_u32(x[8], x[4]), x[0]);
    let t1 = veorq_u32(vbicq_u32(x[0], x[8]), x[4]);
    let t2 = veorq_u32(vbicq_u32(x[4], x[0]), x[8]);
    proof {
        lemma_bic_xor_lanes(x[0]@, x[4]@, x[8]@, t0@);
        lemma_bic_xor_lanes(x[4]@, x[8]@, x[0]@, t1@);
        lemma_bic_xor_lanes(x[8]@, x[0]@, x[4]@, t2@);
    }
    x[0] = t0;
    x[4] = t1;
    x[8] = t2;
    let t0 = veorq_u32(vbicq_u32(x[9], x[5]), x[1]);
    let t1 = veorq_u32(vbicq_u32(x[1], x[9]), x[5]);
    let t2 = veorq_u32(vbicq_u32(x[5], x[1]), x[9]);
    proof {
        lemma_bic_xor_lanes(x[1]@, x[5]@, x[9]@, t0@);
        lemma_bic_xor_lanes(x[5]@, x[9]@, x[1]@, t1@);
        lemma_bic_xor_lanes(x[9]@, x[1]@, x[5]@, t2@);
    }
    x[1] = t0;
    x[5] = t1;
    x[9] = t2;
    let t0 = veorq_u32(vbicq_u32(x[10], x[6]), x[2]);
    let t1 = veorq_u32(vbicq_u32(x[2], x[10]), x[6]);
    let t2 = veorq_u32(vbicq_u32(x[6], x[2]), x[10]);
    proof {
        lemma_bic_xor_lanes(x[2]@, x[6]@, x[10]@, t0@);
        lemma_bic_xor_lanes(x[6]@, x[10]@, x[2]@, t1@);
        lemma_bic_xor_lanes(x[10]@, x[2]@, x[6]@, t2@);
    }
    x[2] = t0;
    x[6] = t1;
    x[10] = t2;
    let t0 = veorq_u32(vbicq_u32(x[11], x[7]), x[3]);
    let t1 = veorq_u32(vbicq_u32(x[3], x[11]), x[7]);
    let t2 = veorq_u32(vbicq_u32(x[7], x[3]), x[11]);
    proof {
        lemma_bic_xor_lanes(x[3]@, x[7]@, x[11]@, t0@);
        lemma_bic_xor_lanes(x[7]@, x[11]@, x[3]@, t1@);
        lemma_bic_xor_lanes(x[11]@, x[3]@, x[7]@, t2@);
    }
    x[3] = t0;
    x[7] = t1;
    x[11] = t2;
    proof {
        lemma_words12_equal(state_of_lane(x@, 0), chi(state_of_lane(old(x)@, 0)));
        lemma_words12_equal(state_of_lane(x@, 1), chi(state_of_lane(old(x)@, 1)));
        lemma_words12_equal(state_of_lane(x@, 2), chi(state_of_lane(old(x)@, 2)));
        lemma_words12_equal(state_of_lane(x@, 3), chi(state_of_lane(old(x)@, 3)));
    }
}

/// Rho-east on four states in lane-major registers.
pub fn rho_east_lanes(x: &mut [uint32x4_t; 12])
    ensures
        state_of_lane(final(x)@, 0) == rho_east(state_of_lane(old(x)@, 0)),
        state_of_lane(final(x)@, 1) == rho_east(state_of_lane(old(x)@, 1)),
        state_of_lane(final(x)@, 2) == rho_east(state_of_lane(old(x)@, 2)),
        state_of_lane(final(x)@, 3) == rho_east(state_of_lane(old(x)@, 3)),
{
    x[4] = rotate_lanes_left(x[4], 1);
    x[5] = rotate_lanes_left(x[5], 1);
    x[6] = rotate_lanes_left(x[6], 1);
    x[7] = rotate_lanes_left(x[7], 1);
    let t = x[8];
    x[8] = x[10];
    x[10] = t;
    let t = x[9];
    x[9] = x[11];
    x[11] = t;
    x[8] = rotate_lane_bytes(x[8]);
    x[9] = rotate_lane_bytes(x[9]);
    x[10] = rotate_lane_bytes(x[10]);
    x[11] = rotate_lane_bytes(x[11]);
    proof {
        lemma_words12_equal(state_of_lane(x@, 0), rho_east(state_of_lane(old(x)@, 0)));
        lemma_words12_equal(state_of_lane(x@, 1), rho_east(state_of_lane(old(x)@, 1)));
        lemma_words12_equal(state_of_lane(x@, 2), rho_east(state_of_lane(old(x)@, 2)));
        lemma_words12_equal(state_of_lane(x@, 3), rho_east(state_of_lane(old(x)@, 3)));
    }
}

/// The permutation on one 48-byte state, in place, on three vector
/// registers that hold one plane each.
#[inline(never)]
pub fn xoodoo_aarch64(x: &mut [u8; 48])
    ensures
        final(x)@ == permutation(old(x)@),
{
    let mut r: [uint32x4_t; 3] = [[0u32; 4]; 3];
    load_registers_u32(x.as_slice(), &mut r);
    let mut a: uint32x4_t = r[0];
    let mut b: uint32x4_t = r[1];
    let mut c: uint32x4_t = r[2];
    proof {
        lemma_planes_of_registers(r@, 0);
        assert(lanes_of(r@).subrange(0, 12) =~= lanes_of(r@));
    }

    let mut i: usize = 0;
    while i < 12
        invariant
            i <= 12,
            a@ + b@ + c@ == rounds(words_of_bytes(old(x)@), i as nat),
        decreases 12 - i,
    {
        theta_planes(&mut a, &mut b, &mut c);
        rho_west_planes(&mut a, &mut b, &mut c);
        iota_planes(&mut a, &mut b, &mut c, ROUND_KEYS[i]);
        chi_planes(&mut a, &mut b, &mut c);
        rho_east_planes(&mut a, &mut b, &mut c);
        i += 1;
    }

    let r: [uint32x4_t; 3] = [a, b, c];
    store_registers_u32(&r, x);
    proof {
        lemma_planes_of_registers(r@, 0);
        assert(lanes_of(r@).subrange(0, 12) =~= lanes_of(r@));
    }
}

/// The permutation on two 48-byte states laid out one after the other, in
/// place, on three vector registers per state: every state is permuted on
/// its own.
#[inline(never)]
pub fn xoodoo_aarch64_x2(x: &mut [u8; 96])
    ensures
        final(x)@ == permutation_batch(old(x)@, 2),
{
    let mut r: [uint32x4_t; 6] = [[0u32; 4]; 6];
    load_registers_u32(x.as_slice(), &mut r);
    let mut a0: uint32x4_t = r[0];
    let mut b0: uint32x4_t = r[1];
    let mut c0: uint32x4_t = r[2];
    let mut a1: uint32x4_t = r[3];
    let mut b1: uint32x4_t = r[4];
    let mut c1: uint32x4_t = r[5];
    proof {
        lemma_planes_of_registers(r@, 0);
        lemma_planes_of_registers(r@, 1);
    }

    let mut i: usize = 0;
    while i < 12
        invariant
            i <= 12,
            a0@ + b0@ + c0@ == rounds(word_block(words_of_bytes(old(x)@), 0), i as nat),
            a1@ + b1@ + c1@ == rounds(word_block(words_of_bytes(old(x)@), 1), i as nat),
        decreases 12 - i,
    {
        theta_planes_x2(&mut a0, &mut b0, &mut c0, &mut a1, &mut b1, &mut c1);
        rho_west_planes_x2(&mut a0, &mut b0, &mut c0, &mut a1, &mut b1, &mut c1);
        iota_planes_x2(&mut a0, &mut b0, &mut c0, &mut a1, &mut b1, &mut c1, ROUND_KEYS[i]);
        chi_planes_x2(&mut a0, &mut b0, &mut c0, &mut a1, &mut b1, &mut c1);
        rho_east_planes_x2(&mut a0, &mut b0, &mut c0, &mut a1, &mut b1, &mut c1);
        i += 1;
    }

    let r: [uint32x4_t; 6] = [a0, b0, c0, a1, b1, c1];
    store_registers_u32(&r, x);
    proof {
        lemma_planes_of_registers(r@, 0);
        lemma_planes_of_registers(r@, 1);
        lemma_batch_of_word_blocks(old(x)@, lanes_of(r@), 2);
    }
}

/// The permutation on four 48-byte states laid out one after the other, in
/// place: the states are transposed so that register `w` holds word `w` of
/// all four, every operation then advances the four states at once, and the
/// result is transposed back.
#[inline(never)]
pub fn xoodoo_aarch64_x4(state: &mut [u8; 192])
    ensures
        final(state)@ == permutation_batch(old(state)@, 4),
{
    let mut r: [uint64x2_t; 12] = [[0u64; 2]; 12];
    load_registers(state.as_slice(), &mut r);
    let mut x: [uint32x4_t; 12] = to_lane_major_x4(&r);
    proof {
        lemma_halves_of_loaded(state@, r@);
        lemma_state_of_lane_loaded(x@, words_of_bytes(state@), 0);
        lemma_state_of_lane_loaded(x@, words_of_bytes(state@), 1);
        lemma_state_of_lane_loaded(x@, words_of_bytes(state@), 2);
        lemma_state_of_lane_loaded(x@, words_of_bytes(state@), 3);
    }

    let mut i: usize = 0;
    while i < 12
        invariant
            i <= 12,
            state_of_lane(x@, 0) == rounds(word_block(words_of_bytes(old(state)@), 0), i as nat),
            state_of_lane(x@, 1) == rounds(word_block(words_of_bytes(old(state)@), 1), i as nat),
            state_of_lane(x@, 2) == rounds(word_block(words_of_bytes(old(state)@), 2), i as nat),
            state_of_lane(x@, 3) == rounds(word_block(words_of_bytes(old(state)@), 3), i as nat),
        decreases 12 - i,
    {
        theta_lanes(&mut x);
        rho_west_lanes(&mut x);
        iota_lanes(&mut x, ROUND_KEYS[i]);
        chi_lanes(&mut x);
        rho_east_lanes(&mut x);
        i += 1;
    }

    let r: [uint64x2_t; 12] = to_block_major_x4(&x);
    store_registers(&r, state);
    proof {
        lemma_bytes_of_stored(r@);
        lemma_state_of_lane_stored(x@, halves_of(r@), 0);
        lemma_state_of_lane_stored(x@, halves_of(r@), 1);
        lemma_state_of_lane_stored(x@, halves_of(r@), 2);
        lemma_state_of_lane_stored(x@, halves_of(r@), 3);
        lemma_batch_of_word_blocks(old(state)@, halves_of(r@), 4);
    }
}

} // verus!
