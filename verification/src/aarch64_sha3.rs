//! Vector engines of the 32-bit family, written with the three-input XOR and
//! the fused bit-clear-and-XOR: theta's column parity and every output of chi
//! are one operation each. In everything else they are the engines written
//! in two-input operations.
use crate::aarch64::{
    iota_lanes, iota_planes, iota_planes_x2, lanes_from_next, lemma_bcax_lanes, rho_east_lanes,
    rho_east_planes, rho_east_planes_x2, rho_west_lanes, rho_west_planes, rho_west_planes_x2,
    rotate_lanes_left,
};
use crate::batch::word_block;
use crate::codec::words_of_bytes;
use crate::neon::{uint32x4_t, uint64x2_t, vbcaxq_u32, veor3q_u32, veorq_u32};
use crate::permutation::{
    chi, lemma_batch_of_word_blocks, lemma_words12_equal, permutation, permutation_batch, rounds, theta,
    ROUND_KEYS,
};
use crate::transpose::{
    halves_of, lanes_of, lemma_bytes_of_stored, lemma_halves_of_loaded, lemma_planes_of_registers,
    lemma_state_of_lane_loaded, lemma_state_of_lane_stored, load_registers, load_registers_u32, state_of_lane,
    store_registers, store_registers_u32, to_block_major_x4, to_lane_major_x4,
};
use vstd::prelude::*;

verus! {

/// Theta on the plane registers of one state.
pub fn theta_planes(a: &mut uint32x4_t, b: &mut uint32x4_t, c: &mut uint32x4_t)
    ensures
        final(a)@ + final(b)@ + final(c)@ == theta(old(a)@ + old(b)@ + old(c)@),
{
    let parity = veor3q_u32(*a, *b, *c);
    let parity = lanes_from_next(parity);
    let effect = veorq_u32(rotate_lanes_left(parity, 5), rotate_lanes_left(parity, 14));
    *a = veorq_u32(*a, effect);
    *b = veorq_u32(*b, effect);
    *c = veorq_u32(*c, effect);
    proof {
        lemma_words12_equal(a@ + b@ + c@, theta(old(a)@ + old(b)@ + old(c)@));
    }
}

/// Chi on the plane registers of one state.
pub fn chi_planes(a: &mut uint32x4_t, b: &mut uint32x4_t, c: &mut uint32x4_t)
    ensures
        final(a)@ + final(b)@ + final(c)@ == chi(old(a)@ + old(b)@ + old(c)@),
{
    let a2 = vbcaxq_u32(*a, *c, *b);
    let b2 = vbcaxq_u32(*b, *a, *c);
    let c2 = vbcaxq_u32(*c, *b, *a);
    proof {
        lemma_bcax_lanes(a@, b@, c@, a2@);
        lemma_bcax_lanes(b@, c@, a@, b2@);
        lemma_bcax_lanes(c@, a@, b@, c2@);
    }
    *a = a2;
    *b = b2;
    *c = c2;
    proof {
        lemma_words12_equal(a@ + b@ + c@, chi(old(a)@ + old(b)@ + old(c)@));
    }
}

/// Theta on the plane registers of two states, statement by statement.
pub fn theta_planes_x2(
    a0: &mut uint32x4_t,
    b0: &mut uint32x4_t,
    c0: &mut uint32x4_t,
    a1: &mut uint32x4_t,
    b1: &mut uint32x4_t,
    c1: &mut uint32x4_t,
)
    ensures
        final(a0)@ + final(b0)@ + final(c0)@ == theta(old(a0)@ + old(b0)@ + old(c0)@),
        final(a1)@ + final(b1)@ + final(c1)@ == theta(old(a1)@ + old(b1)@ + old(c1)@),
{
    let parity0 = veor3q_u32(*a0, *b0, *c0);
    let parity1 = veor3q_u32(*a1, *b1, *c1);
    let parity0 = lanes_from_next(parity0);
    let parity1 = lanes_from_next(parity1);
    let effect0 = veorq_u32(rotate_lanes_left(parity0, 5), rotate_lanes_left(parity0, 14));
    let effect1 = veorq_u32(rotate_lanes_left(parity1, 5), rotate_lanes_left(parity1, 14));
    *a0 = veorq_u32(*a0, effect0);
    *a1 = veorq_u32(*a1, effect1);
    *b0 = veorq_u32(*b0, effect0);
    *b1 = veorq_u32(*b1, effect1);
    *c0 = veorq_u32(*c0, effect0);
    *c1 = veorq_u32(*c1, effect1);
    proof {
        lemma_words12_equal(a0@ + b0@ + c0@, theta(old(a0)@ + old(b0)@ + old(c0)@));
        lemma_words12_equal(a1@ + b1@ + c1@, theta(old(a1)@ + old(b1)@ + old(c1)@));
    }
}

/// Chi on the plane registers of two states, statement by statement.
pub fn chi_planes_x2(
    a0: &mut uint32x4_t,
    b0: &mut uint32x4_t,
    c0: &mut uint32x4_t,
    a1: &mut uint32x4_t,
    b1: &mut uint32x4_t,
    c1: &mut uint32x4_t,
)
    ensures
        final(a0)@ + final(b0)@ + final(c0)@ == chi(old(a0)@ + old(b0)@ + old(c0)@),
        final(a1)@ + final(b1)@ + final(c1)@ == chi(old(a1)@ + old(b1)@ + old(c1)@),
{
    let t0 = vbcaxq_u32(*a0, *c0, *b0);
    let t1 = vbcaxq_u32(*b0, *a0, *c0);
    let t2 = vbcaxq_u32(*c0, *b0, *a0);
    proof {
        lemma_bcax_lanes(a0@, b0@, c0@, t0@);
        lemma_bcax_lanes(b0@, c0@, a0@, t1@);
        lemma_bcax_lanes(c0@, a0@, b0@, t2@);
    }
    *a0 = t0;
    *b0 = t1;
    *c0 = t2;
    let t0 = vbcaxq_u32(*a1, *c1, *b1);
    let t1 = vbcaxq_u32(*b1, *a1, *c1);
    let t2 = vbcaxq_u32(*c1, *b1, *a1);
    proof {
        lemma_bcax_lanes(a1@, b1@, c1@, t0@);
        lemma_bcax_lanes(b1@, c1@, a1@, t1@);
        lemma_bcax_lanes(c1@, a1@, b1@, t2@);
    }
    *a1 = t0;
    *b1 = t1;
    *c1 = t2;
    proof {
        lemma_words12_equal(a0@ + b0@ + c0@, chi(old(a0)@ + old(b0)@ + old(c0)@));
        lemma_words12_equal(a1@ + b1@ + c1@, chi(old(a1)@ + old(b1)@ + old(c1)@));
    }
}

/// Theta on four states in lane-major registers.
pub fn theta_lanes(x: &mut [uint32x4_t; 12])
    ensures
        state_of_lane(final(x)@, 0) == theta(state_of_lane(old(x)@, 0)),
        state_of_lane(final(x)@, 1) == theta(state_of_lane(old(x)@, 1)),
        state_of_lane(final(x)@, 2) == theta(state_of_lane(old(x)@, 2)),
        state_of_lane(final(x)@, 3) == theta(state_of_lane(old(x)@, 3)),
{
    let parity0 = veor3q_u32(x[0], x[4], x[8]);
    let parity1 = veor3q_u32(x[1], x[5], x[9]);
    let parity2 = veor3q_u32(x[2], x[6], x[10]);
    let parity3 = veor3q_u32(x[3], x[7], x[11]);
    let effect0 = veorq_u32(rotate_lanes_left(parity1, 5), rotate_lanes_left(parity1, 14));
    let effect1 = veorq_u32(rotate_lanes_left(parity2, 5), rotate_lanes_left(parity2, 14));
    let effect2 = veorq_u32(rotate_lanes_left(parity3, 5), rotate_lanes_left(parity3, 14));
    let effect3 = veorq_u32(rotate_lanes_left(parity0, 5), rotate_lanes_left(parity0, 14));
    x[0] = veorq_u32(x[0], effect0);
    x[4] = veorq_u32(x[4], effect0);
    x[8] = veorq_u32(x[8], effect0);
    x[1] = veorq_u32(x[1], effect1);
    x[5] = veorq_u32(x[5], effect1);
    x[9] = veorq_u32(x[9], effect1);
    x[2] = veorq_u32(x[2], effect2);
    x[6] = veorq_u32(x[6], effect2);
    x[10] = veorq_u32(x[10], effect2);
    x[3] = veorq_u32(x[3], effect3);
    x[7] = veorq_u32(x[7], effect3);
    x[11] = veorq_u32(x[11], effect3);
    proof {
        lemma_words12_equal(state_of_lane(x@, 0), theta(state_of_lane(old(x)@, 0)));
        lemma_words12_equal(state_of_lane(x@, 1), theta(state_of_lane(old(x)@, 1)));
        lemma_words12_equal(state_of_lane(x@, 2), theta(state_of_lane(old(x)@, 2)));
        lemma_words12_equal(state_of_lane(x@, 3), theta(state_of_lane(old(x)@, 3)));
    }
}

/// Chi on four states in lane-major registers.
pub fn chi_lanes(x: &mut [uint32x4_t; 12])
    ensures
        state_of_lane(final(x)@, 0) == chi(state_of_lane(old(x)@, 0)),
        state_of_lane(final(x)@, 1) == chi(state_of_lane(old(x)@, 1)),
        state_of_lane(final(x)@, 2) == chi(state_of_lane(old(x)@, 2)),
        state_of_lane(final(x)@, 3) == chi(state_of_lane(old(x)@, 3)),
{
    let t0 = vbcaxq_u32(x[0], x[8], x[4]);
    let t1 = vbcaxq_u32(x[4], x[0], x[8]);
    let t2 = vbcaxq_u32(x[8], x[4], x[0]);
    proof {
        lemma_bcax_lanes(x[0]@, x[4]@, x[8]@, t0@);
        lemma_bcax_lanes(x[4]@, x[8]@, x[0]@, t1@);
        lemma_bcax_lanes(x[8]@, x[0]@, x[4]@, t2@);
    }
    x[0] = t0;
    x[4] = t1;
    x[8] = t2;
    let t0 = vbcaxq_u32(x[1], x[9], x[5]);
    let t1 = vbcaxq_u32(x[5], x[1], x[9]);
    let t2 = vbcaxq_u32(x[9], x[5], x[1]);
    proof {
        lemma_bcax_lanes(x[1]@, x[5]@, x[9]@, t0@);
        lemma_bcax_lanes(x[5]@, x[9]@, x[1]@, t1@);
        lemma_bcax_lanes(x[9]@, x[1]@, x[5]@, t2@);
    }
    x[1] = t0;
    x[5] = t1;
    x[9] = t2;
    let t0 = vbcaxq_u32(x[2], x[10], x[6]);
    let t1 = vbcaxq_u32(x[6], x[2], x[10]);
    let t2 = vbcaxq_u32(x[10], x[6], x[2]);
    proof {
        lemma_bcax_lanes(x[2]@, x[6]@, x[10]@, t0@);
        lemma_bcax_lanes(x[6]@, x[10]@, x[2]@, t1@);
        lemma_bcax_lanes(x[10]@, x[2]@, x[6]@, t2@);
    }
    x[2] = t0;
    x[6] = t1;
    x[10] = t2;
    let t0 = vbcaxq_u32(x[3], x[11], x[7]);
    let t1 = vbcaxq_u32(x[7], x[3], x[11]);
    let t2 = vbcaxq_u32(x[11], x[7], x[3]);
    proof {
        lemma_bcax_lanes(x[3]@, x[7]@, x[11]@, t0@);
        lemma_bcax_lanes(x[7]@, x[11]@, x[3]@, t1@);
        lemma_bcax_lanes(x[11]@, x[3]@, x[7]@, t2@);
    }
    x[3] = t0;
    x[7] = t1;
    x[11] = t2;
    proof {
        lemma_words12_equal(state_of_lane(x@, 0), chi(state_of_lane(old(x)@, 0)));
        lemma_words12_equal(state_of_lane(x@, 1), chi(state_of_lane(old(x)@, 1)));
        lemma_words12_equal(state_of_lane(x@, 2), chi(state_of_lane(old(x)@, 2)));
        lemma_words12_equal(state_of_lane(x@, 3), chi(state_of_lane(old(x)@, 3)));
    }
}

/// The permutation on one 48-byte state, in place, on three vector
/// registers that hold one plane each.
#[inline(never)]
pub fn xoodoo_aarch64_sha3(x: &mut [u8; 48])
    ensures
        final(x)@ == permutation(old(x)@),
{
    let mut r: [uint32x4_t; 3] = [[0u32; 4]; 3];
    load_registers_u32(x.as_slice(), &mut r);
    let mut a: uint32x4_t = r[0];
    let mut b: uint32x4_t = r[1];
    let mut c: uint32x4_t = r[2];
    proof {
        lemma_planes_of_registers(r@, 0);
        assert(lanes_of(r@).subrange(0, 12) =~= lanes_of(r@));
    }

    let mut i: usize = 0;
    while i < 12
        invariant
            i <= 12,
            a@ + b@ + c@ == rounds(words_of_bytes(old(x)@), i as nat),
        decreases 12 - i,
    {
        theta_planes(&mut a, &mut b, &mut c);
        rho_west_planes(&mut a, &mut b, &mut c);
        iota_planes(&mut a, &mut b, &mut c, ROUND_KEYS[i]);
        chi_planes(&mut a, &mut b, &mut c);
        rho_east_planes(&mut a, &mut b, &mut c);
        i += 1;
    }

    let r: [uint32x4_t; 3] = [a, b, c];
    store_registers_u32(&r, x);
    proof {
        lemma_planes_of_registers(r@, 0);
        assert(lanes_of(r@).subrange(0, 12) =~= lanes_of(r@));
    }
}

/// The permutation on two 48-byte states laid out one after the other, in
/// place, on three vector registers per state: every state is permuted on
/// its own.
#[inline(never)]
pub fn xoodoo_aarch64_sha3_x2(x: &mut [u8; 96])
    ensures
        final(x)@ == permutation_batch(old(x)@, 2),
{
    let mut r: [uint32x4_t; 6] = [[0u32; 4]; 6];
    load_registers_u32(x.as_slice(), &mut r);
    let mut a0: uint32x4_t = r[0];
    let mut b0: uint32x4_t = r[1];
    let mut c0: uint32x4_t = r[2];
    let mut a1: uint32x4_t = r[3];
    let mut b1: uint32x4_t = r[4];
    let mut c1: uint32x4_t = r[5];
    proof {
        lemma_planes_of_registers(r@, 0);
        lemma_planes_of_registers(r@, 1);
    }

    let mut i: usize = 0;
    while i < 12
        invariant
            i <= 12,
            a0@ + b0@ + c0@ == rounds(word_block(words_of_bytes(old(x)@), 0), i as nat),
            a1@ + b1@ + c1@ == rounds(word_block(words_of_bytes(old(x)@), 1), i as nat),
        decreases 12 - i,
    {
        theta_planes_x2(&mut a0, &mut b0, &mut c0, &mut a1, &mut b1, &mut c1);
        rho_west_planes_x2(&mut a0, &mut b0, &mut c0, &mut a1, &mut b1, &mut c1);
        iota_planes_x2(&mut a0, &mut b0, &mut c0, &mut a1, &mut b1, &mut c1, ROUND_KEYS[i]);
        chi_planes_x2(&mut a0, &mut b0, &mut c0, &mut a1, &mut b1, &mut c1);
        rho_east_planes_x2(&mut a0, &mut b0, &mut c0, &mut a1, &mut b1, &mut c1);
        i += 1;
    }

    let r: [uint32x4_t; 6] = [a0, b0, c0, a1, b1, c1];
    store_registers_u32(&r, x);
    proof {
        lemma_planes_of_registers(r@, 0);
        lemma_planes_of_registers(r@, 1);
        lemma_batch_of_word_blocks(old(x)@, lanes_of(r@), 2);
    }
}

/// The permutation on four 48-byte states laid out one after the other, in
/// place: the states are transposed so that register `w` holds word `w` of
/// all four, every operation then advances the four states at once, and the
/// result is transposed back.
#[inline(never)]
pub fn xoodoo_aarch64_sha3_x4(state: &mut [u8; 192])
    ensures
        final(state)@ == permutation_batch(old(state)@, 4),
{
    let mut r: [uint64x2_t; 12] = [[0u64; 2]; 12];
    load_registers(state.as_slice(), &mut r);
    let mut x: [uint32x4_t; 12] = to_lane_major_x4(&r);
    proof {
        lemma_halves_of_loaded(state@, r@);
        lemma_state_of_lane_loaded(x@, words_of_bytes(state@), 0);
        lemma_state_of_lane_loaded(x@, words_of_bytes(state@), 1);
        lemma_state_of_lane_loaded(x@, words_of_bytes(state@), 2);
        lemma_state_of_lane_loaded(x@, words_of_bytes(state@), 3);
    }

    let mut i: usize = 0;
    while i < 12
        invariant
            i <= 12,
            state_of_lane(x@, 0) == rounds(word_block(words_of_bytes(old(state)@), 0), i as nat),
            state_of_lane(x@, 1) == rounds(word_block(words_of_bytes(old(state)@), 1), i as nat),
            state_of_lane(x@, 2) == rounds(word_block(words_of_bytes(old(state)@), 2), i as nat),
            state_of_lane(x@, 3) == rounds(word_block(words_of_bytes(old(state)@), 3), i as nat),
        decreases 12 - i,
    {
        theta_lanes(&mut x);
        rho_west_lanes(&mut x);
        iota_lanes(&mut x, ROUND_KEYS[i]);
        chi_lanes(&mut x);
        rho_east_lanes(&mut x);
        i += 1;
    }

    let r: [uint64x2_t; 12] = to_block_major_x4(&x);
    store_registers(&r, state);
    proof {
        lemma_bytes_of_stored(r@);
        lemma_state_of_lane_stored(x@, halves_of(r@), 0);
        lemma_state_of_lane_stored(x@, halves_of(r@), 1);
        lemma_state_of_lane_stored(x@, halves_of(r@), 2);
        lemma_state_of_lane_stored(x@, halves_of(r@), 3);
        lemma_batch_of_word_blocks(old(state)@, halves_of(r@), 4);
    }
}

} // verus!
