//! The scalar engines on 64-bit words: the reference for every other engine
//! of the 64-bit family.
//!
//! The engines for two and four states keep all states in one array of words
//! and interleave the statements of the independent computations, stage by
//! stage; no word of one state ever reaches another.
use crate::batch::word_block64;
use crate::bits::rotate_left64;
use crate::codec::{bytes_to_words64, words64_of_bytes, words64_to_bytes};
use crate::permutation::ROUND_KEYS;
use crate::permutation64::{
    chi64, iota64, lemma_batch_of_word_blocks64, lemma_words6_equal, permutation64, permutation64_batch,
    rho_east64, rho_west64, round64, rounds64, theta64,
};
use vstd::prelude::*;

verus! {

/// Theta on the word view of a state.
pub fn theta_words64(x: &mut [u64; 6])
    ensures
        final(x)@ == theta64(old(x)@),
{
    let parity0: u64 = x[0] ^ x[2] ^ x[4];
    let parity1: u64 = x[1] ^ x[3] ^ x[5];
    let effect0: u64 = rotate_left64(parity1, 10) ^ rotate_left64(parity1, 29);
    let effect1: u64 = rotate_left64(parity0, 10) ^ rotate_left64(parity0, 29);
    x[0] ^= effect0;
    x[2] ^= effect0;
    x[4] ^= effect0;
    x[1] ^= effect1;
    x[3] ^= effect1;
    x[5] ^= effect1;
    proof {
        lemma_words6_equal(x@, theta64(old(x)@));
    }
}

/// Rho-west on the word view of a state.
pub fn rho_west_words64(x: &mut [u64; 6])
    ensures
        final(x)@ == rho_west64(old(x)@),
{
    let t: u64 = x[3];
    x[3] = x[2];
    x[2] = t;
    x[4] = rotate_left64(x[4], 23);
    x[5] = rotate_left64(x[5], 23);
    proof {
        lemma_words6_equal(x@, rho_west64(old(x)@));
    }
}

/// Iota on the word view of a state.
pub fn iota_words64(x: &mut [u64; 6], round_key: u32)
    ensures
        final(x)@ == iota64(old(x)@, round_key),
{
    x[0] ^= round_key as u64;
    proof {
        lemma_words6_equal(x@, iota64(old(x)@, round_key));
    }
}

/// Chi on the word view of a state.
pub fn chi_words64(x: &mut [u64; 6])
    ensures
        final(x)@ == chi64(old(x)@),
{
    let t0: u64 = x[0] ^ (!x[2] & x[4]);
    let t1: u64 = x[2] ^ (!x[4] & x[0]);
    let t2: u64 = x[4] ^ (!x[0] & x[2]);
    x[0] = t0;
    x[2] = t1;
    x[4] = t2;
    let t0: u64 = x[1] ^ (!x[3] & x[5]);
    let t1: u64 = x[3] ^ (!x[5] & x[1]);
    let t2: u64 = x[5] ^ (!x[1] & x[3]);
    x[1] = t0;
    x[3] = t1;
    x[5] = t2;
    proof {
        lemma_words6_equal(x@, chi64(old(x)@));
    }
}

/// Rho-east on the word view of a state.
pub fn rho_east_words64(x: &mut [u64; 6])
    ensures
        final(x)@ == rho_east64(old(x)@),
{
    x[2] = rotate_left64(x[2], 1);
    x[3] = rotate_left64(x[3], 1);
    let t: u64 = x[4];
    x[4] = x[5];
    x[5] = t;
    x[4] = rotate_left64(x[4], 16);
    x[5] = rotate_left64(x[5], 16);
    proof {
        lemma_words6_equal(x@, rho_east64(old(x)@));
    }
}

/// One round on the word view of a state: theta, rho-west, iota, chi and
/// rho-east, in that order.
pub fn xoodoo64_round(x: &mut [u64; 6], round_key: u32)
    ensures
        final(x)@ == round64(old(x)@, round_key),
{
    theta_words64(x);
    rho_west_words64(x);
    iota_words64(x, round_key);
    chi_words64(x);
    rho_east_words64(x);
}

/// Theta on the word views of two states laid out one after the other, the
/// statements of the independent computations interleaved.
pub fn theta_words64_x2(x: &mut [u64; 12])
    ensures
        word_block64(final(x)@, 0) == theta64(word_block64(old(x)@, 0)),
        word_block64(final(x)@, 1) == theta64(word_block64(old(x)@, 1)),
{
    let parity0a: u64 = x[0] ^ x[2] ^ x[4];
    let parity1a: u64 = x[1] ^ x[3] ^ x[5];
    let parity0b: u64 = x[6] ^ x[8] ^ x[10];
    let parity1b: u64 = x[7] ^ x[9] ^ x[11];
    let effect0a: u64 = rotate_left64(parity1a, 10) ^ rotate_left64(parity1a, 29);
    let effect1a: u64 = rotate_left64(parity0a, 10) ^ rotate_left64(parity0a, 29);
    let effect0b: u64 = rotate_left64(parity1b, 10) ^ rotate_left64(parity1b, 29);
    let effect1b: u64 = rotate_left64(parity0b, 10) ^ rotate_left64(parity0b, 29);
    x[0] ^= effect0a;
    x[2] ^= effect0a;
    x[4] ^= effect0a;
    x[1] ^= effect1a;
    x[3] ^= effect1a;
    x[5] ^= effect1a;
    x[6] ^= effect0b;
    x[8] ^= effect0b;
    x[10] ^= effect0b;
    x[7] ^= effect1b;
    x[9] ^= effect1b;
    x[11] ^= effect1b;
    proof {
        lemma_words6_equal(word_block64(x@, 0), theta64(word_block64(old(x)@, 0)));
        lemma_words6_equal(word_block64(x@, 1), theta64(word_block64(old(x)@, 1)));
    }
}

/// Rho-west on the word views of two states laid out one after the other, the
/// statements of the independent computations interleaved.
pub fn rho_west_words64_x2(x: &mut [u64; 12])
    ensures
        word_block64(final(x)@, 0) == rho_west64(word_block64(old(x)@, 0)),
        word_block64(final(x)@, 1) == rho_west64(word_block64(old(x)@, 1)),
{
    let ta: u64 = x[3];
    x[3] = x[2];
    x[2] = ta;
    let tb: u64 = x[9];
    x[9] = x[8];
    x[8] = tb;
    x[4] = rotate_left64(x[4], 23);
    x[5] = rotate_left64(x[5], 23);
    x[10] = rotate_left64(x[10], 23);
    x[11] = rotate_left64(x[11], 23);
    proof {
        lemma_words6_equal(word_block64(x@, 0), rho_west64(word_block64(old(x)@, 0)));
        lemma_words6_equal(word_block64(x@, 1), rho_west64(word_block64(old(x)@, 1)));
    }
}

/// Iota on the word views of two states laid out one after the other, the
/// statements of the independent computations interleaved.
pub fn iota_words64_x2(x: &mut [u64; 12], round_key: u32)
    ensures
        word_block64(final(x)@, 0) == iota64(word_block64(old(x)@, 0), round_key),
        word_block64(final(x)@, 1) == iota64(word_block64(old(x)@, 1), round_key),
{
    x[0] ^= round_key as u64;
    x[6] ^= round_key as u64;
    proof {
        lemma_words6_equal(word_block64(x@, 0), iota64(word_block64(old(x)@, 0), round_key));
        lemma_words6_equal(word_block64(x@, 1), iota64(word_block64(old(x)@, 1), round_key));
    }
}

/// Chi on the word views of two states laid out one after the other, the
/// statements of the independent computations interleaved.
pub fn chi_words64_x2(x: &mut [u64; 12])
    ensures
        word_block64(final(x)@, 0) == chi64(word_block64(old(x)@, 0)),
        word_block64(final(x)@, 1) == chi64(word_block64(old(x)@, 1)),
{
    let t0: u64 = x[0] ^ (!x[2] & x[4]);
    let t1: u64 = x[2] ^ (!x[4] & x[0]);
    let t2: u64 = x[4] ^ (!x[0] & x[2]);
    x[0] = t0;
    x[2] = t1;
    x[4] = t2;
    let t0: u64 = x[1] ^ (!x[3] & x[5]);
    let t1: u64 = x[3] ^ (!x[5] & x[1]);
    let t2: u64 = x[5] ^ (!x[1] & x[3]);
    x[1] = t0;
    x[3] = t1;
    x[5] = t2;
    let t0: u64 = x[6] ^ (!x[8] & x[10]);
    let t1: u64 = x[8] ^ (!x[10] & x[6]);
    let t2: u64 = x[10] ^ (!x[6] & x[8]);
    x[6] = t0;
    x[8] = t1;
    x[10] = t2;
    let t0: u64 = x[7] ^ (!x[9] & x[11]);
    let t1: u64 = x[9] ^ (!x[11] & x[7]);
    let t2: u64 = x[11] ^ (!x[7] & x[9]);
    x[7] = t0;
    x[9] = t1;
    x[11] = t2;
    proof {
        lemma_words6_equal(word_block64(x@, 0), chi64(word_block64(old(x)@, 0)));
        lemma_words6_equal(word_block64(x@, 1), chi64(word_block64(old(x)@, 1)));
    }
}

/// Rho-east on the word views of two states laid out one after the other, the
/// statements of the independent computations interleaved.
pub fn rho_east_words64_x2(x: &mut [u64; 12])
    ensures
        word_block64(final(x)@, 0) == rho_east64(word_block64(old(x)@, 0)),
        word_block64(final(x)@, 1) == rho_east64(word_block64(old(x)@, 1)),
{
    x[2] = rotate_left64(x[2], 1);
    x[3] = rotate_left64(x[3], 1);
    x[8] = rotate_left64(x[8], 1);
    x[9] = rotate_left64(x[9], 1);
    let ta: u64 = x[4];
    x[4] = x[5];
    x[5] = ta;
    let tb: u64 = x[10];
    x[10] = x[11];
    x[11] = tb;
    x[4] = rotate_left64(x[4], 16);
    x[5] = rotate_left64(x[5], 16);
    x[10] = rotate_left64(x[10], 16);
    x[11] = rotate_left64(x[11], 16);
    proof {
        lemma_words6_equal(word_block64(x@, 0), rho_east64(word_block64(old(x)@, 0)));
        lemma_words6_equal(word_block64(x@, 1), rho_east64(word_block64(old(x)@, 1)));
    }
}

/// One round on the word views of two states laid out one after the other, each
/// state on its own.
pub fn xoodoo64_round_x2(x: &mut [u64; 12], round_key: u32)
    ensures
        word_block64(final(x)@, 0) == round64(word_block64(old(x)@, 0), round_key),
        word_block64(final(x)@, 1) == round64(word_block64(old(x)@, 1), round_key),
{
    theta_words64_x2(x);
    rho_west_words64_x2(x);
    iota_words64_x2(x, round_key);
    chi_words64_x2(x);
    rho_east_words64_x2(x);
}

/// Theta on the word views of four states laid out one after the other, the
/// statements of the independent computations interleaved.
pub fn theta_words64_x4(x: &mut [u64; 24])
    ensures
        word_block64(final(x)@, 0) == theta64(word_block64(old(x)@, 0)),
        word_block64(final(x)@, 1) == theta64(word_block64(old(x)@, 1)),
        word_block64(final(x)@, 2) == theta64(word_block64(old(x)@, 2)),
        word_block64(final(x)@, 3) == theta64(word_block64(old(x)@, 3)),
{
    let parity0a: u64 = x[0] ^ x[2] ^ x[4];
    let parity1a: u64 = x[1] ^ x[3] ^ x[5];
    let parity0b: u64 = x[6] ^ x[8] ^ x[10];
    let parity1b: u64 = x[7] ^ x[9] ^ x[11];
    let parity0c: u64 = x[12] ^ x[14] ^ x[16];
    let parity1c: u64 = x[13] ^ x[15] ^ x[17];
    let parity0d: u64 = x[18] ^ x[20] ^ x[22];
    let parity1d: u64 = x[19] ^ x[21] ^ x[23];
    let effect0a: u64 = rotate_left64(parity1a, 10) ^ rotate_left64(parity1a, 29);
    let effect1a: u64 = rotate_left64(parity0a, 10) ^ rotate_left64(parity0a, 29);
    let effect0b: u64 = rotate_left64(parity1b, 10) ^ rotate_left64(parity1b, 29);
    let effect1b: u64 = rotate_left64(parity0b, 10) ^ rotate_left64(parity0b, 29);
    let effect0c: u64 = rotate_left64(parity1c, 10) ^ rotate_left64(parity1c, 29);
    let effect1c: u64 = rotate_left64(parity0c, 10) ^ rotate_left64(parity0c, 29);
    let effect0d: u64 = rotate_left64(parity1d, 10) ^ rotate_left64(parity1d, 29);
    let effect1d: u64 = rotate_left64(parity0d, 10) ^ rotate_left64(parity0d, 29);
    x[0] ^= effect0a;
    x[2] ^= effect0a;
    x[4] ^= effect0a;
    x[1] ^= effect1a;
    x[3] ^= effect1a;
    x[5] ^= effect1a;
    x[6] ^= effect0b;
    x[8] ^= effect0b;
    x[10] ^= effect0b;
    x[7] ^= effect1b;
    x[9] ^= effect1b;
    x[11] ^= effect1b;
    x[12] ^= effect0c;
    x[14] ^= effect0c;
    x[16] ^= effect0c;
    x[13] ^= effect1c;
    x[15] ^= effect1c;
    x[17] ^= effect1c;
    x[18] ^= effect0d;
    x[20] ^= effect0d;
    x[22] ^= effect0d;
    x[19] ^= effect1d;
    x[21] ^= effect1d;
    x[23] ^= effect1d;
    proof {
        lemma_words6_equal(word_block64(x@, 0), theta64(word_block64(old(x)@, 0)));
        lemma_words6_equal(word_block64(x@, 1), theta64(word_block64(old(x)@, 1)));
        lemma_words6_equal(word_block64(x@, 2), theta64(word_block64(old(x)@, 2)));
        lemma_words6_equal(word_block64(x@, 3), theta64(word_block64(old(x)@, 3)));
    }
}

/// Rho-west on the word views of four states laid out one after the other, the
/// statements of the independent computations interleaved.
pub fn rho_west_words64_x4(x: &mut [u64; 24])
    ensures
        word_block64(final(x)@, 0) == rho_west64(word_block64(old(x)@, 0)),
        word_block64(final(x)@, 1) == rho_west64(word_block64(old(x)@, 1)),
        word_block64(final(x)@, 2) == rho_west64(word_block64(old(x)@, 2)),
        word_block64(final(x)@, 3) == rho_west64(word_block64(old(x)@, 3)),
{
    let ta: u64 = x[3];
    x[3] = x[2];
    x[2] = ta;
    let tb: u64 = x[9];
    x[9] = x[8];
    x[8] = tb;
    let tc: u64 = x[15];
    x[15] = x[14];
    x[14] = tc;
    let td: u64 = x[21];
    x[21] = x[20];
    x[20] = td;
    x[4] = rotate_left64(x[4], 23);
    x[5] = rotate_left64(x[5], 23);
    x[10] = rotate_left64(x[10], 23);
    x[11] = rotate_left64(x[11], 23);
    x[16] = rotate_left64(x[16], 23);
    x[17] = rotate_left64(x[17], 23);
    x[22] = rotate_left64(x[22], 23);
    x[23] = rotate_left64(x[23], 23);
    proof {
        lemma_words6_equal(word_block64(x@, 0), rho_west64(word_block64(old(x)@, 0)));
        lemma_words6_equal(word_block64(x@, 1), rho_west64(word_block64(old(x)@, 1)));
        lemma_words6_equal(word_block64(x@, 2), rho_west64(word_block64(old(x)@, 2)));
        lemma_words6_equal(word_block64(x@, 3), rho_west64(word_block64(old(x)@, 3)));
    }
}

/// Iota on the word views of four states laid out one after the other, the
/// statements of the independent computations interleaved.
pub fn iota_words64_x4(x: &mut [u64; 24], round_key: u32)
    ensures
        word_block64(final(x)@, 0) == iota64(word_block64(old(x)@, 0), round_key),
        word_block64(final(x)@, 1) == iota64(word_block64(old(x)@, 1), round_key),
        word_block64(final(x)@, 2) == iota64(word_block64(old(x)@, 2), round_key),
        word_block64(final(x)@, 3) == iota64(word_block64(old(x)@, 3), round_key),
{
    x[0] ^= round_key as u64;
    x[6] ^= round_key as u64;
    x[12] ^= round_key as u64;
    x[18] ^= round_key as u64;
    proof {
        lemma_words6_equal(word_block64(x@, 0), iota64(word_block64(old(x)@, 0), round_key));
        lemma_words6_equal(word_block64(x@, 1), iota64(word_block64(old(x)@, 1), round_key));
        lemma_words6_equal(word_block64(x@, 2), iota64(word_block64(old(x)@, 2), round_key));
        lemma_words6_equal(word_block64(x@, 3), iota64(word_block64(old(x)@, 3), round_key));
    }
}

/// Chi on the word views of four states laid out one after the other, the
/// statements of the independent computations interleaved.
pub fn chi_words64_x4(x: &mut [u64; 24])
    ensures
        word_block64(final(x)@, 0) == chi64(word_block64(old(x)@, 0)),
        word_block64(final(x)@, 1) == chi64(word_block64(old(x)@, 1)),
        word_block64(final(x)@, 2) == chi64(word_block64(old(x)@, 2)),
        word_block64(final(x)@, 3) == chi64(word_block64(old(x)@, 3)),
{
    let t0: u64 = x[0] ^ (!x[2] & x[4]);
    let t1: u64 = x[2] ^ (!x[4] & x[0]);
    let t2: u64 = x[4] ^ (!x[0] & x[2]);
    x[0] = t0;
    x[2] = t1;
    x[4] = t2;
    let t0: u64 = x[1] ^ (!x[3] & x[5]);
    let t1: u64 = x[3] ^ (!x[5] & x[1]);
    let t2: u64 = x[5] ^ (!x[1] & x[3]);
    x[1] = t0;
    x[3] = t1;
    x[5] = t2;
    let t0: u64 = x[6] ^ (!x[8] & x[10]);
    let t1: u64 = x[8] ^ (!x[10] & x[6]);
    let t2: u64 = x[10] ^ (!x[6] & x[8]);
    x[6] = t0;
    x[8] = t1;
    x[10] = t2;
    let t0: u64 = x[7] ^ (!x[9] & x[11]);
    let t1: u64 = x[9] ^ (!x[11] & x[7]);
    let t2: u64 = x[11] ^ (!x[7] & x[9]);
    x[7] = t0;
    x[9] = t1;
    x[11] = t2;
    let t0: u64 = x[12] ^ (!x[14] & x[16]);
    let t1: u64 = x[14] ^ (!x[16] & x[12]);
    let t2: u64 = x[16] ^ (!x[12] & x[14]);
    x[12] = t0;
    x[14] = t1;
    x[16] = t2;
    let t0: u64 = x[13] ^ (!x[15] & x[17]);
    let t1: u64 = x[15] ^ (!x[17] & x[13]);
    let t2: u64 = x[17] ^ (!x[13] & x[15]);
    x[13] = t0;
    x[15] = t1;
    x[17] = t2;
    let t0: u64 = x[18] ^ (!x[20] & x[22]);
    let t1: u64 = x[20] ^ (!x[22] & x[18]);
    let t2: u64 = x[22] ^ (!x[18] & x[20]);
    x[18] = t0;
    x[20] = t1;
    x[22] = t2;
    let t0: u64 = x[19] ^ (!x[21] & x[23]);
    let t1: u64 = x[21] ^ (!x[23] & x[19]);
    let t2: u64 = x[23] ^ (!x[19] & x[21]);
    x[19] = t0;
    x[21] = t1;
    x[23] = t2;
    proof {
        lemma_words6_equal(word_block64(x@, 0), chi64(word_block64(old(x)@, 0)));
        lemma_words6_equal(word_block64(x@, 1), chi64(word_block64(old(x)@, 1)));
        lemma_words6_equal(word_block64(x@, 2), chi64(word_block64(old(x)@, 2)));
        lemma_words6_equal(word_block64(x@, 3), chi64(word_block64(old(x)@, 3)));
    }
}

/// Rho-east on the word views of four states laid out one after the other, the
/// statements of the independent computations interleaved.
pub fn rho_east_words64_x4(x: &mut [u64; 24])
    ensures
        word_block64(final(x)@, 0) == rho_east64(word_block64(old(x)@, 0)),
        word_block64(final(x)@, 1) == rho_east64(word_block64(old(x)@, 1)),
        word_block64(final(x)@, 2) == rho_east64(word_block64(old(x)@, 2)),
        word_block64(final(x)@, 3) == rho_east64(word_block64(old(x)@, 3)),
{
    x[2] = rotate_left64(x[2], 1);
    x[3] = rotate_left64(x[3], 1);
    x[8] = rotate_left64(x[8], 1);
    x[9] = rotate_left64(x[9], 1);
    x[14] = rotate_left64(x[14], 1);
    x[15] = rotate_left64(x[15], 1);
    x[20] = rotate_left64(x[20], 1);
    x[21] = rotate_left64(x[21], 1);
    let ta: u64 = x[4];
    x[4] = x[5];
    x[5] = ta;
    let tb: u64 = x[10];
    x[10] = x[11];
    x[11] = tb;
    let tc: u64 = x[16];
    x[16] = x[17];
    x[17] = tc;
    let td: u64 = x[22];
    x[22] = x[23];
    x[23] = td;
    x[4] = rotate_left64(x[4], 16);
    x[5] = rotate_left64(x[5], 16);
    x[10] = rotate_left64(x[10], 16);
    x[11] = rotate_left64(x[11], 16);
    x[16] = rotate_left64(x[16], 16);
    x[17] = rotate_left64(x[17], 16);
    x[22] = rotate_left64(x[22], 16);
    x[23] = rotate_left64(x[23], 16);
    proof {
        lemma_words6_equal(word_block64(x@, 0), rho_east64(word_block64(old(x)@, 0)));
        lemma_words6_equal(word_block64(x@, 1), rho_east64(word_block64(old(x)@, 1)));
        lemma_words6_equal(word_block64(x@, 2), rho_east64(word_block64(old(x)@, 2)));
        lemma_words6_equal(word_block64(x@, 3), rho_east64(word_block64(old(x)@, 3)));
    }
}

/// One round on the word views of four states laid out one after the other, each
/// state on its own.
pub fn xoodoo64_round_x4(x: &mut [u64; 24], round_key: u32)
    ensures
        word_block64(final(x)@, 0) == round64(word_block64(old(x)@, 0), round_key),
        word_block64(final(x)@, 1) == round64(word_block64(old(x)@, 1), round_key),
        word_block64(final(x)@, 2) == round64(word_block64(old(x)@, 2), round_key),
        word_block64(final(x)@, 3) == round64(word_block64(old(x)@, 3), round_key),
{
    theta_words64_x4(x);
    rho_west_words64_x4(x);
    iota_words64_x4(x, round_key);
    chi_words64_x4(x);
    rho_east_words64_x4(x);
}

/// The permutation on 64-bit words on one 48-byte state, in place.
#[inline(never)]
pub fn xoodoo64_scalar(state: &mut [u8; 48])
    ensures
        final(state)@ == permutation64(old(state)@),
{
    let mut x = [0u64; 6];
    bytes_to_words64(state.as_slice(), &mut x);
    let mut i: usize = 0;
    while i < 12
        invariant
            i <= 12,
            x@ == rounds64(words64_of_bytes(old(state)@), i as nat),
        decreases 12 - i,
    {
        xoodoo64_round(&mut x, ROUND_KEYS[i]);
        i += 1;
    }
    words64_to_bytes(&x, state);
}

/// The permutation on 64-bit words on two states of 48 bytes laid out one after the
/// other, in place: every state is permuted on its own.
#[inline(never)]
pub fn xoodoo64_scalar_x2(state: &mut [u8; 96])
    ensures
        final(state)@ == permutation64_batch(old(state)@, 2),
{
    let mut x = [0u64; 12];
    bytes_to_words64(state.as_slice(), &mut x);
    let mut i: usize = 0;
    while i < 12
        invariant
            i <= 12,
            word_block64(x@, 0) == rounds64(word_block64(words64_of_bytes(old(state)@), 0), i as nat),
            word_block64(x@, 1) == rounds64(word_block64(words64_of_bytes(old(state)@), 1), i as nat),
        decreases 12 - i,
    {
        xoodoo64_round_x2(&mut x, ROUND_KEYS[i]);
        i += 1;
    }
    words64_to_bytes(&x, state);
    proof {
        lemma_batch_of_word_blocks64(old(state)@, x@, 2);
    }
}

/// The permutation on 64-bit words on four states of 48 bytes laid out one after the
/// other, in place: every state is permuted on its own.
#[inline(never)]
pub fn xoodoo64_scalar_x4(state: &mut [u8; 192])
    ensures
        final(state)@ == permutation64_batch(old(state)@, 4),
{
    let mut x = [0u64; 24];
    bytes_to_words64(state.as_slice(), &mut x);
    let mut i: usize = 0;
    while i < 12
        invariant
            i <= 12,
            word_block64(x@, 0) == rounds64(word_block64(words64_of_bytes(old(state)@), 0), i as nat),
            word_block64(x@, 1) == rounds64(word_block64(words64_of_bytes(old(state)@), 1), i as nat),
            word_block64(x@, 2) == rounds64(word_block64(words64_of_bytes(old(state)@), 2), i as nat),
            word_block64(x@, 3) == rounds64(word_block64(words64_of_bytes(old(state)@), 3), i as nat),
        decreases 12 - i,
    {
        xoodoo64_round_x4(&mut x, ROUND_KEYS[i]);
        i += 1;
    }
    words64_to_bytes(&x, state);
    proof {
        lemma_batch_of_word_blocks64(old(state)@, x@, 4);
    }
}

} // verus!
