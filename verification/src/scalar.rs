//! The scalar engines on 32-bit words: the reference for every other engine
//! of the 32-bit family.
//!
//! The engines for two and four states keep all states in one array of words
//! and interleave the statements of the independent computations, stage by
//! stage; no word of one state ever reaches another.
use crate::batch::word_block;
use crate::bits::rotate_left32;
use crate::codec::{bytes_to_words, words_of_bytes, words_to_bytes};
use crate::permutation::{
    chi, iota, lemma_batch_of_word_blocks, lemma_words12_equal, permutation, permutation_batch, rho_east,
    rho_west, round, rounds, theta, ROUND_KEYS,
};
use vstd::prelude::*;

verus! {

/// Theta on the word view of a state.
pub fn theta_words(x: &mut [u32; 12])
    ensures
        final(x)@ == theta(old(x)@),
{
    let parity0: u32 = x[0] ^ x[4] ^ x[8];
    let parity1: u32 = x[1] ^ x[5] ^ x[9];
    let parity2: u32 = x[2] ^ x[6] ^ x[10];
    let parity3: u32 = x[3] ^ x[7] ^ x[11];
    let effect0: u32 = rotate_left32(parity1, 5) ^ rotate_left32(parity1, 14);
    let effect1: u32 = rotate_left32(parity2, 5) ^ rotate_left32(parity2, 14);
    let effect2: u32 = rotate_left32(parity3, 5) ^ rotate_left32(parity3, 14);
    let effect3: u32 = rotate_left32(parity0, 5) ^ rotate_left32(parity0, 14);
    x[0] ^= effect0;
    x[4] ^= effect0;
    x[8] ^= effect0;
    x[1] ^= effect1;
    x[5] ^= effect1;
    x[9] ^= effect1;
    x[2] ^= effect2;
    x[6] ^= effect2;
    x[10] ^= effect2;
    x[3] ^= effect3;
    x[7] ^= effect3;
    x[11] ^= effect3;
    proof {
        lemma_words12_equal(x@, theta(old(x)@));
    }
}

/// Rho-west on the word view of a state.
pub fn rho_west_words(x: &mut [u32; 12])
    ensures
        final(x)@ == rho_west(old(x)@),
{
    let t: u32 = x[7];
    x[7] = x[6];
    x[6] = x[5];
    x[5] = x[4];
    x[4] = t;
    x[8] = rotate_left32(x[8], 11);
    x[9] = rotate_left32(x[9], 11);
    x[10] = rotate_left32(x[10], 11);
    x[11] = rotate_left32(x[11], 11);
    proof {
        lemma_words12_equal(x@, rho_west(old(x)@));
    }
}

/// Iota on the word view of a state.
pub fn iota_words(x: &mut [u32; 12], round_key: u32)
    ensures
        final(x)@ == iota(old(x)@, round_key),
{
    x[0] ^= round_key;
    proof {
        lemma_words12_equal(x@, iota(old(x)@, round_key));
    }
}

/// Chi on the word view of a state.
pub fn chi_words(x: &mut [u32; 12])
    ensures
        final(x)@ == chi(old(x)@),
{
    let t0: u32 = x[0] ^ (!x[4] & x[8]);
    let t1: u32 = x[4] ^ (!x[8] & x[0]);
    let t2: u32 = x[8] ^ (!x[0] & x[4]);
    x[0] = t0;
    x[4] = t1;
    x[8] = t2;
    let t0: u32 = x[1] ^ (!x[5] & x[9]);
    let t1: u32 = x[5] ^ (!x[9] & x[1]);
    let t2: u32 = x[9] ^ (!x[1] & x[5]);
    x[1] = t0;
    x[5] = t1;
    x[9] = t2;
    let t0: u32 = x[2] ^ (!x[6] & x[10]);
    let t1: u32 = x[6] ^ (!x[10] & x[2]);
    let t2: u32 = x[10] ^ (!x[2] & x[6]);
    x[2] = t0;
    x[6] = t1;
    x[10] = t2;
    let t0: u32 = x[3] ^ (!x[7] & x[11]);
    let t1: u32 = x[7] ^ (!x[11] & x[3]);
    let t2: u32 = x[11] ^ (!x[3] & x[7]);
    x[3] = t0;
    x[7] = t1;
    x[11] = t2;
    proof {
        lemma_words12_equal(x@, chi(old(x)@));
    }
}

/// Rho-east on the word view of a state.
pub fn rho_east_words(x: &mut [u32; 12])
    ensures
        final(x)@ == rho_east(old(x)@),
{
    x[4] = rotate_left32(x[4], 1);
    x[5] = rotate_left32(x[5], 1);
    x[6] = rotate_left32(x[6], 1);
    x[7] = rotate_left32(x[7], 1);
    let t: u32 = x[8];
    x[8] = x[10];
    x[10] = t;
    let t: u32 = x[9];
    x[9] = x[11];
    x[11] = t;
    x[8] = rotate_left32(x[8], 8);
    x[9] = rotate_left32(x[9], 8);
    x[10] = rotate_left32(x[10], 8);
    x[11] = rotate_left32(x[11], 8);
    proof {
        lemma_words12_equal(x@, rho_east(old(x)@));
    }
}

/// One round on the word view of a state: theta, rho-west, iota, chi and
/// rho-east, in that order.
pub fn xoodoo_round(x: &mut [u32; 12], round_key: u32)
    ensures
        final(x)@ == round(old(x)@, round_key),
{
    theta_words(x);
    rho_west_words(x);
    iota_words(x, round_key);
    chi_words(x);
    rho_east_words(x);
}

/// Theta on the word views of two states laid out one after the other, the
/// statements of the independent computations interleaved.
pub fn theta_words_x2(x: &mut [u32; 24])
    ensures
        word_block(final(x)@, 0) == theta(word_block(old(x)@, 0)),
        word_block(final(x)@, 1) == theta(word_block(old(x)@, 1)),
{
    let parity0a: u32 = x[0] ^ x[4] ^ x[8];
    let parity1a: u32 = x[1] ^ x[5] ^ x[9];
    let parity2a: u32 = x[2] ^ x[6] ^ x[10];
    let parity3a: u32 = x[3] ^ x[7] ^ x[11];
    let parity0b: u32 = x[12] ^ x[16] ^ x[20];
    let parity1b: u32 = x[13] ^ x[17] ^ x[21];
    let parity2b: u32 = x[14] ^ x[18] ^ x[22];
    let parity3b: u32 = x[15] ^ x[19] ^ x[23];
    let effect0a: u32 = rotate_left32(parity1a, 5) ^ rotate_left32(parity1a, 14);
    let effect1a: u32 = rotate_left32(parity2a, 5) ^ rotate_left32(parity2a, 14);
    let effect2a: u32 = rotate_left32(parity3a, 5) ^ rotate_left32(parity3a, 14);
    let effect3a: u32 = rotate_left32(parity0a, 5) ^ rotate_left32(parity0a, 14);
    let effect0b: u32 = rotate_left32(parity1b, 5) ^ rotate_left32(parity1b, 14);
    let effect1b: u32 = rotate_left32(parity2b, 5) ^ rotate_left32(parity2b, 14);
    let effect2b: u32 = rotate_left32(parity3b, 5) ^ rotate_left32(parity3b, 14);
    let effect3b: u32 = rotate_left32(parity0b, 5) ^ rotate_left32(parity0b, 14);
    x[0] ^= effect0a;
    x[4] ^= effect0a;
    x[8] ^= effect0a;
    x[1] ^= effect1a;
    x[5] ^= effect1a;
    x[9] ^= effect1a;
    x[2] ^= effect2a;
    x[6] ^= effect2a;
    x[10] ^= effect2a;
    x[3] ^= effect3a;
    x[7] ^= effect3a;
    x[11] ^= effect3a;
    x[12] ^= effect0b;
    x[16] ^= effect0b;
    x[20] ^= effect0b;
    x[13] ^= effect1b;
    x[17] ^= effect1b;
    x[21] ^= effect1b;
    x[14] ^= effect2b;
    x[18] ^= effect2b;
    x[22] ^= effect2b;
    x[15] ^= effect3b;
    x[19] ^= effect3b;
    x[23] ^= effect3b;
    proof {
        lemma_words12_equal(word_block(x@, 0), theta(word_block(old(x)@, 0)));
        lemma_words12_equal(word_block(x@, 1), theta(word_block(old(x)@, 1)));
    }
}

/// Rho-west on the word views of two states laid out one after the other, the
/// statements of the independent computations interleaved.
pub fn rho_west_words_x2(x: &mut [u32; 24])
    ensures
        word_block(final(x)@, 0) == rho_west(word_block(old(x)@, 0)),
        word_block(final(x)@, 1) == rho_west(word_block(old(x)@, 1)),
{
    let ta: u32 = x[7];
    x[7] = x[6];
    x[6] = x[5];
    x[5] = x[4];
    x[4] = ta;
    let tb: u32 = x[19];
    x[19] = x[18];
    x[18] = x[17];
    x[17] = x[16];
    x[16] = tb;
    x[8] = rotate_left32(x[8], 11);
    x[9] = rotate_left32(x[9], 11);
    x[10] = rotate_left32(x[10], 11);
    x[11] = rotate_left32(x[11], 11);
    x[20] = rotate_left32(x[20], 11);
    x[21] = rotate_left32(x[21], 11);
    x[22] = rotate_left32(x[22], 11);
    x[23] = rotate_left32(x[23], 11);
    proof {
        lemma_words12_equal(word_block(x@, 0), rho_west(word_block(old(x)@, 0)));
        lemma_words12_equal(word_block(x@, 1), rho_west(word_block(old(x)@, 1)));
    }
}

/// Iota on the word views of two states laid out one after the other, the
/// statements of the independent computations interleaved.
pub fn iota_words_x2(x: &mut [u32; 24], round_key: u32)
    ensures
        word_block(final(x)@, 0) == iota(word_block(old(x)@, 0), round_key),
        word_block(final(x)@, 1) == iota(word_block(old(x)@, 1), round_key),
{
    x[0] ^= round_key;
    x[12] ^= round_key;
    proof {
        lemma_words12_equal(word_block(x@, 0), iota(word_block(old(x)@, 0), round_key));
        lemma_words12_equal(word_block(x@, 1), iota(word_block(old(x)@, 1), round_key));
    }
}

/// Chi on the word views of two states laid out one after the other, the
/// statements of the independent computations interleaved.
pub fn chi_words_x2(x: &mut [u32; 24])
    ensures
        word_block(final(x)@, 0) == chi(word_block(old(x)@, 0)),
        word_block(final(x)@, 1) == chi(word_block(old(x)@, 1)),
{
    let t0: u32 = x[0] ^ (!x[4] & x[8]);
    let t1: u32 = x[4] ^ (!x[8] & x[0]);
    let t2: u32 = x[8] ^ (!x[0] & x[4]);
    x[0] = t0;
    x[4] = t1;
    x[8] = t2;
    let t0: u32 = x[1] ^ (!x[5] & x[9]);
    let t1: u32 = x[5] ^ (!x[9] & x[1]);
    let t2: u32 = x[9] ^ (!x[1] & x[5]);
    x[1] = t0;
    x[5] = t1;
    x[9] = t2;
    let t0: u32 = x[2] ^ (!x[6] & x[10]);
    let t1: u32 = x[6] ^ (!x[10] & x[2]);
    let t2: u32 = x[10] ^ (!x[2] & x[6]);
    x[2] = t0;
    x[6] = t1;
    x[10] = t2;
    let t0: u32 = x[3] ^ (!x[7] & x[11]);
    let t1: u32 = x[7] ^ (!x[11] & x[3]);
    let t2: u32 = x[11] ^ (!x[3] & x[7]);
    x[3] = t0;
    x[7] = t1;
    x[11] = t2;
    let t0: u32 = x[12] ^ (!x[16] & x[20]);
    let t1: u32 = x[16] ^ (!x[20] & x[12]);
    let t2: u32 = x[20] ^ (!x[12] & x[16]);
    x[12] = t0;
    x[16] = t1;
    x[20] = t2;
    let t0: u32 = x[13] ^ (!x[17] & x[21]);
    let t1: u32 = x[17] ^ (!x[21] & x[13]);
    let t2: u32 = x[21] ^ (!x[13] & x[17]);
    x[13] = t0;
    x[17] = t1;
    x[21] = t2;
    let t0: u32 = x[14] ^ (!x[18] & x[22]);
    let t1: u32 = x[18] ^ (!x[22] & x[14]);
    let t2: u32 = x[22] ^ (!x[14] & x[18]);
    x[14] = t0;
    x[18] = t1;
    x[22] = t2;
    let t0: u32 = x[15] ^ (!x[19] & x[23]);
    let t1: u32 = x[19] ^ (!x[23] & x[15]);
    let t2: u32 = x[23] ^ (!x[15] & x[19]);
    x[15] = t0;
    x[19] = t1;
    x[23] = t2;
    proof {
        lemma_words12_equal(word_block(x@, 0), chi(word_block(old(x)@, 0)));
        lemma_words12_equal(word_block(x@, 1), chi(word_block(old(x)@, 1)));
    }
}

/// Rho-east on the word views of two states laid out one after the other, the
/// statements of the independent computations interleaved.
pub fn rho_east_words_x2(x: &mut [u32; 24])
    ensures
        word_block(final(x)@, 0) == rho_east(word_block(old(x)@, 0)),
        word_block(final(x)@, 1) == rho_east(word_block(old(x)@, 1)),
{
    x[4] = rotate_left32(x[4], 1);
    x[5] = rotate_left32(x[5], 1);
    x[6] = rotate_left32(x[6], 1);
    x[7] = rotate_left32(x[7], 1);
    x[16] = rotate_left32(x[16], 1);
    x[17] = rotate_left32(x[17], 1);
    x[18] = rotate_left32(x[18], 1);
    x[19] = rotate_left32(x[19], 1);
    let ta: u32 = x[8];
    x[8] = x[10];
    x[10] = ta;
    let ta: u32 = x[9];
    x[9] = x[11];
    x[11] = ta;
    let tb: u32 = x[20];
    x[20] = x[22];
    x[22] = tb;
    let tb: u32 = x[21];
    x[21] = x[23];
    x[23] = tb;
    x[8] = rotate_left32(x[8], 8);
    x[9] = rotate_left32(x[9], 8);
    x[10] = rotate_left32(x[10], 8);
    x[11] = rotate_left32(x[11], 8);
    x[20] = rotate_left32(x[20], 8);
    x[21] = rotate_left32(x[21], 8);
    x[22] = rotate_left32(x[22], 8);
    x[23] = rotate_left32(x[23], 8);
    proof {
        lemma_words12_equal(word_block(x@, 0), rho_east(word_block(old(x)@, 0)));
        lemma_words12_equal(word_block(x@, 1), rho_east(word_block(old(x)@, 1)));
    }
}

/// One round on the word views of two states laid out one after the other, each
/// state on its own.
pub fn xoodoo_round_x2(x: &mut [u32; 24], round_key: u32)
    ensures
        word_block(final(x)@, 0) == round(word_block(old(x)@, 0), round_key),
        word_block(final(x)@, 1) == round(word_block(old(x)@, 1), round_key),
{
    theta_words_x2(x);
    rho_west_words_x2(x);
    iota_words_x2(x, round_key);
    chi_words_x2(x);
    rho_east_words_x2(x);
}

/// Theta on the word views of four states laid out one after the other, the
/// statements of the independent computations interleaved.
pub fn theta_words_x4(x: &mut [u32; 48])
    ensures
        word_block(final(x)@, 0) == theta(word_block(old(x)@, 0)),
        word_block(final(x)@, 1) == theta(word_block(old(x)@, 1)),
        word_block(final(x)@, 2) == theta(word_block(old(x)@, 2)),
        word_block(final(x)@, 3) == theta(word_block(old(x)@, 3)),
{
    let parity0a: u32 = x[0] ^ x[4] ^ x[8];
    let parity1a: u32 = x[1] ^ x[5] ^ x[9];
    let parity2a: u32 = x[2] ^ x[6] ^ x[10];
    let parity3a: u32 = x[3] ^ x[7] ^ x[11];
    let parity0b: u32 = x[12] ^ x[16] ^ x[20];
    let parity1b: u32 = x[13] ^ x[17] ^ x[21];
    let parity2b: u32 = x[14] ^ x[18] ^ x[22];
    let parity3b: u32 = x[15] ^ x[19] ^ x[23];
    let parity0c: u32 = x[24] ^ x[28] ^ x[32];
    let parity1c: u32 = x[25] ^ x[29] ^ x[33];
    let parity2c: u32 = x[26] ^ x[30] ^ x[34];
    let parity3c: u32 = x[27] ^ x[31] ^ x[35];
    let parity0d: u32 = x[36] ^ x[40] ^ x[44];
    let parity1d: u32 = x[37] ^ x[41] ^ x[45];
    let parity2d: u32 = x[38] ^ x[42] ^ x[46];
    let parity3d: u32 = x[39] ^ x[43] ^ x[47];
    let effect0a: u32 = rotate_left32(parity1a, 5) ^ rotate_left32(parity1a, 14);
    let effect1a: u32 = rotate_left32(parity2a, 5) ^ rotate_left32(parity2a, 14);
    let effect2a: u32 = rotate_left32(parity3a, 5) ^ rotate_left32(parity3a, 14);
    let effect3a: u32 = rotate_left32(parity0a, 5) ^ rotate_left32(parity0a, 14);
    let effect0b: u32 = rotate_left32(parity1b, 5) ^ rotate_left32(parity1b, 14);
    let effect1b: u32 = rotate_left32(parity2b, 5) ^ rotate_left32(parity2b, 14);
    let effect2b: u32 = rotate_left32(parity3b, 5) ^ rotate_left32(parity3b, 14);
    let effect3b: u32 = rotate_left32(parity0b, 5) ^ rotate_left32(parity0b, 14);
    let effect0c: u32 = rotate_left32(parity1c, 5) ^ rotate_left32(parity1c, 14);
    let effect1c: u32 = rotate_left32(parity2c, 5) ^ rotate_left32(parity2c, 14);
    let effect2c: u32 = rotate_left32(parity3c, 5) ^ rotate_left32(parity3c, 14);
    let effect3c: u32 = rotate_left32(parity0c, 5) ^ rotate_left32(parity0c, 14);
    let effect0d: u32 = rotate_left32(parity1d, 5) ^ rotate_left32(parity1d, 14);
    let effect1d: u32 = rotate_left32(parity2d, 5) ^ rotate_left32(parity2d, 14);
    let effect2d: u32 = rotate_left32(parity3d, 5) ^ rotate_left32(parity3d, 14);
    let effect3d: u32 = rotate_left32(parity0d, 5) ^ rotate_left32(parity0d, 14);
    x[0] ^= effect0a;
    x[4] ^= effect0a;
    x[8] ^= effect0a;
    x[1] ^= effect1a;
    x[5] ^= effect1a;
    x[9] ^= effect1a;
    x[2] ^= effect2a;
    x[6] ^= effect2a;
    x[10] ^= effect2a;
    x[3] ^= effect3a;
    x[7] ^= effect3a;
    x[11] ^= effect3a;
    x[12] ^= effect0b;
    x[16] ^= effect0b;
    x[20] ^= effect0b;
    x[13] ^= effect1b;
    x[17] ^= effect1b;
    x[21] ^= effect1b;
    x[14] ^= effect2b;
    x[18] ^= effect2b;
    x[22] ^= effect2b;
    x[15] ^= effect3b;
    x[19] ^= effect3b;
    x[23] ^= effect3b;
    x[24] ^= effect0c;
    x[28] ^= effect0c;
    x[32] ^= effect0c;
    x[25] ^= effect1c;
    x[29] ^= effect1c;
    x[33] ^= effect1c;
    x[26] ^= effect2c;
    x[30] ^= effect2c;
    x[34] ^= effect2c;
    x[27] ^= effect3c;
    x[31] ^= effect3c;
    x[35] ^= effect3c;
    x[36] ^= effect0d;
    x[40] ^= effect0d;
    x[44] ^= effect0d;
    x[37] ^= effect1d;
    x[41] ^= effect1d;
    x[45] ^= effect1d;
    x[38] ^= effect2d;
    x[42] ^= effect2d;
    x[46] ^= effect2d;
    x[39] ^= effect3d;
    x[43] ^= effect3d;
    x[47] ^= effect3d;
    proof {
        lemma_words12_equal(word_block(x@, 0), theta(word_block(old(x)@, 0)));
        lemma_words12_equal(word_block(x@, 1), theta(word_block(old(x)@, 1)));
        lemma_words12_equal(word_block(x@, 2), theta(word_block(old(x)@, 2)));
        lemma_words12_equal(word_block(x@, 3), theta(word_block(old(x)@, 3)));
    }
}

/// Rho-west on the word views of four states laid out one after the other, the
/// statements of the independent computations interleaved.
pub fn rho_west_words_x4(x: &mut [u32; 48])
    ensures
        word_block(final(x)@, 0) == rho_west(word_block(old(x)@, 0)),
        word_block(final(x)@, 1) == rho_west(word_block(old(x)@, 1)),
        word_block(final(x)@, 2) == rho_west(word_block(old(x)@, 2)),
        word_block(final(x)@, 3) == rho_west(word_block(old(x)@, 3)),
{
    let ta: u32 = x[7];
    x[7] = x[6];
    x[6] = x[5];
    x[5] = x[4];
    x[4] = ta;
    let tb: u32 = x[19];
    x[19] = x[18];
    x[18] = x[17];
    x[17] = x[16];
    x[16] = tb;
    let tc: u32 = x[31];
    x[31] = x[30];
    x[30] = x[29];
    x[29] = x[28];
    x[28] = tc;
    let td: u32 = x[43];
    x[43] = x[42];
    x[42] = x[41];
    x[41] = x[40];
    x[40] = td;
    x[8] = rotate_left32(x[8], 11);
    x[9] = rotate_left32(x[9], 11);
    x[10] = rotate_left32(x[10], 11);
    x[11] = rotate_left32(x[11], 11);
    x[20] = rotate_left32(x[20], 11);
    x[21] = rotate_left32(x[21], 11);
    x[22] = rotate_left32(x[22], 11);
    x[23] = rotate_left32(x[23], 11);
    x[32] = rotate_left32(x[32], 11);
    x[33] = rotate_left32(x[33], 11);
    x[34] = rotate_left32(x[34], 11);
    x[35] = rotate_left32(x[35], 11);
    x[44] = rotate_left32(x[44], 11);
    x[45] = rotate_left32(x[45], 11);
    x[46] = rotate_left32(x[46], 11);
    x[47] = rotate_left32(x[47], 11);
    proof {
        lemma_words12_equal(word_block(x@, 0), rho_west(word_block(old(x)@, 0)));
        lemma_words12_equal(word_block(x@, 1), rho_west(word_block(old(x)@, 1)));
        lemma_words12_equal(word_block(x@, 2), rho_west(word_block(old(x)@, 2)));
        lemma_words12_equal(word_block(x@, 3), rho_west(word_block(old(x)@, 3)));
    }
}

/// Iota on the word views of four states laid out one after the other, the
/// statements of the independent computations interleaved.
pub fn iota_words_x4(x: &mut [u32; 48], round_key: u32)
    ensures
        word_block(final(x)@, 0) == iota(word_block(old(x)@, 0), round_key),
        word_block(final(x)@, 1) == iota(word_block(old(x)@, 1), round_key),
        word_block(final(x)@, 2) == iota(word_block(old(x)@, 2), round_key),
        word_block(final(x)@, 3) == iota(word_block(old(x)@, 3), round_key),
{
    x[0] ^= round_key;
    x[12] ^= round_key;
    x[24] ^= round_key;
    x[36] ^= round_key;
    proof {
        lemma_words12_equal(word_block(x@, 0), iota(word_block(old(x)@, 0), round_key));
        lemma_words12_equal(word_block(x@, 1), iota(word_block(old(x)@, 1), round_key));
        lemma_words12_equal(word_block(x@, 2), iota(word_block(old(x)@, 2), round_key));
        lemma_words12_equal(word_block(x@, 3), iota(word_block(old(x)@, 3), round_key));
    }
}

/// Chi on the word views of four states laid out one after the other, the
/// statements of the independent computations interleaved.
pub fn chi_words_x4(x: &mut [u32; 48])
    ensures
        word_block(final(x)@, 0) == chi(word_block(old(x)@, 0)),
        word_block(final(x)@, 1) == chi(word_block(old(x)@, 1)),
        word_block(final(x)@, 2) == chi(word_block(old(x)@, 2)),
        word_block(final(x)@, 3) == chi(word_block(old(x)@, 3)),
{
    let t0: u32 = x[0] ^ (!x[4] & x[8]);
    let t1: u32 = x[4] ^ (!x[8] & x[0]);
    let t2: u32 = x[8] ^ (!x[0] & x[4]);
    x[0] = t0;
    x[4] = t1;
    x[8] = t2;
    let t0: u32 = x[1] ^ (!x[5] & x[9]);
    let t1: u32 = x[5] ^ (!x[9] & x[1]);
    let t2: u32 = x[9] ^ (!x[1] & x[5]);
    x[1] = t0;
    x[5] = t1;
    x[9] = t2;
    let t0: u32 = x[2] ^ (!x[6] & x[10]);
    let t1: u32 = x[6] ^ (!x[10] & x[2]);
    let t2: u32 = x[10] ^ (!x[2] & x[6]);
    x[2] = t0;
    x[6] = t1;
    x[10] = t2;
    let t0: u32 = x[3] ^ (!x[7] & x[11]);
    let t1: u32 = x[7] ^ (!x[11] & x[3]);
    let t2: u32 = x[11] ^ (!x[3] & x[7]);
    x[3] = t0;
    x[7] = t1;
    x[11] = t2;
    let t0: u32 = x[12] ^ (!x[16] & x[20]);
    let t1: u32 = x[16] ^ (!x[20] & x[12]);
    let t2: u32 = x[20] ^ (!x[12] & x[16]);
    x[12] = t0;
    x[16] = t1;
    x[20] = t2;
    let t0: u32 = x[13] ^ (!x[17] & x[21]);
    let t1: u32 = x[17] ^ (!x[21] & x[13]);
    let t2: u32 = x[21] ^ (!x[13] & x[17]);
    x[13] = t0;
    x[17] = t1;
    x[21] = t2;
    let t0: u32 = x[14] ^ (!x[18] & x[22]);
    let t1: u32 = x[18] ^ (!x[22] & x[14]);
    let t2: u32 = x[22] ^ (!x[14] & x[18]);
    x[14] = t0;
    x[18] = t1;
    x[22] = t2;
    let t0: u32 = x[15] ^ (!x[19] & x[23]);
    let t1: u32 = x[19] ^ (!x[23] & x[15]);
    let t2: u32 = x[23] ^ (!x[15] & x[19]);
    x[15] = t0;
    x[19] = t1;
    x[23] = t2;
    let t0: u32 = x[24] ^ (!x[28] & x[32]);
    let t1: u32 = x[28] ^ (!x[32] & x[24]);
    let t2: u32 = x[32] ^ (!x[24] & x[28]);
    x[24] = t0;
    x[28] = t1;
    x[32] = t2;
    let t0: u32 = x[25] ^ (!x[29] & x[33]);
    let t1: u32 = x[29] ^ (!x[33] & x[25]);
    let t2: u32 = x[33] ^ (!x[25] & x[29]);
    x[25] = t0;
    x[29] = t1;
    x[33] = t2;
    let t0: u32 = x[26] ^ (!x[30] & x[34]);
    let t1: u32 = x[30] ^ (!x[34] & x[26]);
    let t2: u32 = x[34] ^ (!x[26] & x[30]);
    x[26] = t0;
    x[30] = t1;
    x[34] = t2;
    let t0: u32 = x[27] ^ (!x[31] & x[35]);
    let t1: u32 = x[31] ^ (!x[35] & x[27]);
    let t2: u32 = x[35] ^ (!x[27] & x[31]);
    x[27] = t0;
    x[31] = t1;
    x[35] = t2;
    let t0: u32 = x[36] ^ (!x[40] & x[44]);
    let t1: u32 = x[40] ^ (!x[44] & x[36]);
    let t2: u32 = x[44] ^ (!x[36] & x[40]);
    x[36] = t0;
    x[40] = t1;
    x[44] = t2;
    let t0: u32 = x[37] ^ (!x[41] & x[45]);
    let t1: u32 = x[41] ^ (!x[45] & x[37]);
    let t2: u32 = x[45] ^ (!x[37] & x[41]);
    x[37] = t0;
    x[41] = t1;
    x[45] = t2;
    let t0: u32 = x[38] ^ (!x[42] & x[46]);
    let t1: u32 = x[42] ^ (!x[46] & x[38]);
    let t2: u32 = x[46] ^ (!x[38] & x[42]);
    x[38] = t0;
    x[42] = t1;
    x[46] = t2;
    let t0: u32 = x[39] ^ (!x[43] & x[47]);
    let t1: u32 = x[43] ^ (!x[47] & x[39]);
    let t2: u32 = x[47] ^ (!x[39] & x[43]);
    x[39] = t0;
    x[43] = t1;
    x[47] = t2;
    proof {
        lemma_words12_equal(word_block(x@, 0), chi(word_block(old(x)@, 0)));
        lemma_words12_equal(word_block(x@, 1), chi(word_block(old(x)@, 1)));
        lemma_words12_equal(word_block(x@, 2), chi(word_block(old(x)@, 2)));
        lemma_words12_equal(word_block(x@, 3), chi(word_block(old(x)@, 3)));
    }
}

/// Rho-east on the word views of four states laid out one after the other, the
/// statements of the independent computations interleaved.
pub fn rho_east_words_x4(x: &mut [u32; 48])
    ensures
        word_block(final(x)@, 0) == rho_east(word_block(old(x)@, 0)),
        word_block(final(x)@, 1) == rho_east(word_block(old(x)@, 1)),
        word_block(final(x)@, 2) == rho_east(word_block(old(x)@, 2)),
        word_block(final(x)@, 3) == rho_east(word_block(old(x)@, 3)),
{
    x[4] = rotate_left32(x[4], 1);
    x[5] = rotate_left32(x[5], 1);
    x[6] = rotate_left32(x[6], 1);
    x[7] = rotate_left32(x[7], 1);
    x[16] = rotate_left32(x[16], 1);
    x[17] = rotate_left32(x[17], 1);
    x[18] = rotate_left32(x[18], 1);
    x[19] = rotate_left32(x[19], 1);
    x[28] = rotate_left32(x[28], 1);
    x[29] = rotate_left32(x[29], 1);
    x[30] = rotate_left32(x[30], 1);
    x[31] = rotate_left32(x[31], 1);
    x[40] = rotate_left32(x[40], 1);
    x[41] = rotate_left32(x[41], 1);
    x[42] = rotate_left32(x[42], 1);
    x[43] = rotate_left32(x[43], 1);
    let ta: u32 = x[8];
    x[8] = x[10];
    x[10] = ta;
    let ta: u32 = x[9];
    x[9] = x[11];
    x[11] = ta;
    let tb: u32 = x[20];
    x[20] = x[22];
    x[22] = tb;
    let tb: u32 = x[21];
    x[21] = x[23];
    x[23] = tb;
    let tc: u32 = x[32];
    x[32] = x[34];
    x[34] = tc;
    let tc: u32 = x[33];
    x[33] = x[35];
    x[35] = tc;
    let td: u32 = x[44];
    x[44] = x[46];
    x[46] = td;
    let td: u32 = x[45];
    x[45] = x[47];
    x[47] = td;
    x[8] = rotate_left32(x[8], 8);
    x[9] = rotate_left32(x[9], 8);
    x[10] = rotate_left32(x[10], 8);
    x[11] = rotate_left32(x[11], 8);
    x[20] = rotate_left32(x[20], 8);
    x[21] = rotate_left32(x[21], 8);
    x[22] = rotate_left32(x[22], 8);
    x[23] = rotate_left32(x[23], 8);
    x[32] = rotate_left32(x[32], 8);
    x[33] = rotate_left32(x[33], 8);
    x[34] = rotate_left32(x[34], 8);
    x[35] = rotate_left32(x[35], 8);
    x[44] = rotate_left32(x[44], 8);
    x[45] = rotate_left32(x[45], 8);
    x[46] = rotate_left32(x[46], 8);
    x[47] = rotate_left32(x[47], 8);
    proof {
        lemma_words12_equal(word_block(x@, 0), rho_east(word_block(old(x)@, 0)));
        lemma_words12_equal(word_block(x@, 1), rho_east(word_block(old(x)@, 1)));
        lemma_words12_equal(word_block(x@, 2), rho_east(word_block(old(x)@, 2)));
        lemma_words12_equal(word_block(x@, 3), rho_east(word_block(old(x)@, 3)));
    }
}

/// One round on the word views of four states laid out one after the other, each
/// state on its own.
pub fn xoodoo_round_x4(x: &mut [u32; 48], round_key: u32)
    ensures
        word_block(final(x)@, 0) == round(word_block(old(x)@, 0), round_key),
        word_block(final(x)@, 1) == round(word_block(old(x)@, 1), round_key),
        word_block(final(x)@, 2) == round(word_block(old(x)@, 2), round_key),
        word_block(final(x)@, 3) == round(word_block(old(x)@, 3), round_key),
{
    theta_words_x4(x);
    rho_west_words_x4(x);
    iota_words_x4(x, round_key);
    chi_words_x4(x);
    rho_east_words_x4(x);
}

/// The permutation on one 48-byte state, in place.
#[inline(never)]
pub fn xoodoo_scalar(state: &mut [u8; 48])
    ensures
        final(state)@ == permutation(old(state)@),
{
    let mut x = [0u32; 12];
    bytes_to_words(state.as_slice(), &mut x);
    let mut i: usize = 0;
    while i < 12
        invariant
            i <= 12,
            x@ == rounds(words_of_bytes(old(state)@), i as nat),
        decreases 12 - i,
    {
        xoodoo_round(&mut x, ROUND_KEYS[i]);
        i += 1;
    }
    words_to_bytes(&x, state);
}

/// The permutation on two states of 48 bytes laid out one after the
/// other, in place: every state is permuted on its own.
#[inline(never)]
pub fn xoodoo_scalar_x2(state: &mut [u8; 96])
    ensures
        final(state)@ == permutation_batch(old(state)@, 2),
{
    let mut x = [0u32; 24];
    bytes_to_words(state.as_slice(), &mut x);
    let mut i: usize = 0;
    while i < 12
        invariant
            i <= 12,
            word_block(x@, 0) == rounds(word_block(words_of_bytes(old(state)@), 0), i as nat),
            word_block(x@, 1) == rounds(word_block(words_of_bytes(old(state)@), 1), i as nat),
        decreases 12 - i,
    {
        xoodoo_round_x2(&mut x, ROUND_KEYS[i]);
        i += 1;
    }
    words_to_bytes(&x, state);
    proof {
        lemma_batch_of_word_blocks(old(state)@, x@, 2);
    }
}

/// The permutation on four states of 48 bytes laid out one after the
/// other, in place: every state is permuted on its own.
#[inline(never)]
pub fn xoodoo_scalar_x4(state: &mut [u8; 192])
    ensures
        final(state)@ == permutation_batch(old(state)@, 4),
{
    let mut x = [0u32; 48];
    bytes_to_words(state.as_slice(), &mut x);
    let mut i: usize = 0;
    while i < 12
        invariant
            i <= 12,
            word_block(x@, 0) == rounds(word_block(words_of_bytes(old(state)@), 0), i as nat),
            word_block(x@, 1) == rounds(word_block(words_of_bytes(old(state)@), 1), i as nat),
            word_block(x@, 2) == rounds(word_block(words_of_bytes(old(state)@), 2), i as nat),
            word_block(x@, 3) == rounds(word_block(words_of_bytes(old(state)@), 3), i as nat),
        decreases 12 - i,
    {
        xoodoo_round_x4(&mut x, ROUND_KEYS[i]);
        i += 1;
    }
    words_to_bytes(&x, state);
    proof {
        lemma_batch_of_word_blocks(old(state)@, x@, 4);
    }
}

} // verus!
