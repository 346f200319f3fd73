//! What holds of the engines taken together, stated over the functions that
//! their contracts are written in.
use crate::batch::{block, lemma_map_blocks_block};
use crate::bits::{rotl32, rotl64};
use crate::engine::{permuted, permuted_batch, Engine};
use crate::permutation::{chi, iota, lemma_permutation_len, permutation, rho_east, rho_west, round, theta};
use crate::permutation64::{
    chi64, iota64, lemma_permutation64_len, permutation64, rho_east64, rho_west64, round64, theta64,
};
use vstd::prelude::*;

verus! {

/// Engines of one word width can stand for each other: on every state they
/// leave the same bytes. With one engine taken twice, this says that an
/// engine called again on the same state leaves the same bytes again.
pub proof fn lemma_engines_agree(first: Engine, second: Engine, b: Seq<u8>)
    requires
        first.wide() == second.wide(),
    ensures
        permuted(first, b) == permuted(second, b),
{
}

/// Batch engines of one word width can stand for each other in the same
/// way.
pub proof fn lemma_batch_engines_agree(first: Engine, second: Engine, b: Seq<u8>, n: nat)
    requires
        first.wide() == second.wide(),
    ensures
        permuted_batch(first, b, n) == permuted_batch(second, b, n),
{
}

/// A batch of `n` states is permuted state by state: the result has
/// `48 * n` bytes, and its block `k` is what the same engine makes of block
/// `k` of the input alone.
pub proof fn lemma_batch_is_blockwise(engine: Engine, b: Seq<u8>, n: nat, k: int)
    requires
        0 <= k < n,
    ensures
        permuted_batch(engine, b, n).len() == 48 * n,
        block(permuted_batch(engine, b, n), k) == permuted(engine, block(b, k)),
{
    let f = |s: Seq<u8>| permutation(s);
    let g = |s: Seq<u8>| permutation64(s);
    assert forall|j: int| 0 <= j < n implies (#[trigger] f(block(b, j))).len() == 48 by {
        lemma_permutation_len(block(b, j));
    }
    assert forall|j: int| 0 <= j < n implies (#[trigger] g(block(b, j))).len() == 48 by {
        lemma_permutation64_len(block(b, j));
    }
    lemma_map_blocks_block(f, b, n, k);
    lemma_map_blocks_block(g, b, n, k);
}

/// A batch of one state is that state permuted.
pub proof fn lemma_batch_of_one(engine: Engine, b: Seq<u8>)
    requires
        b.len() == 48,
    ensures
        permuted_batch(engine, b, 1) == permuted(engine, b),
{
    lemma_batch_is_blockwise(engine, b, 1, 0);
    assert(block(b, 0) =~= b);
    assert(block(permuted_batch(engine, b, 1), 0) =~= permuted_batch(engine, b, 1));
}

/// The all-zero word view of a state.
pub open spec fn zero_words() -> Seq<u32> {
    Seq::new(12, |i: int| 0u32)
}

/// The all-zero 64-bit word view of a state.
pub open spec fn zero_words64() -> Seq<u64> {
    Seq::new(6, |i: int| 0u64)
}

/// What the bit operations of a round give on zero words.
proof fn lemma_zero_facts(k: u32)
    by (bit_vector)
    ensures
        0u32 ^ 0u32 == 0u32,
        rotl32(0u32, 5) == 0u32,
        rotl32(0u32, 14) == 0u32,
        rotl32(0u32, 11) == 0u32,
        !0u32 & 0u32 == 0u32,
        0u32 ^ k == k,
        k ^ 0u32 == k,
{
}

/// What the bit operations of a round on 64-bit words give on zero words.
proof fn lemma_zero_facts64(k: u32)
    by (bit_vector)
    ensures
        0u64 ^ 0u64 == 0u64,
        rotl64(0u64, 10) == 0u64,
        rotl64(0u64, 29) == 0u64,
        rotl64(0u64, 23) == 0u64,
        !0u64 & 0u64 == 0u64,
        0u64 ^ (k as u64) == k as u64,
        (k as u64) ^ 0u64 == k as u64,
        (k as u64 == 0u64) == (k == 0u32),
{
}

/// One round of the all-zero state leaves the round key in word 0: with any
/// round key but zero, the all-zero state does not map to itself.
pub proof fn lemma_round_moves_zero_state(round_key: u32)
    ensures
        round(zero_words(), round_key)[0] == round_key,
        round_key != 0 ==> round(zero_words(), round_key) != zero_words(),
{
    lemma_zero_facts(round_key);
    let z = zero_words();
    let s1 = theta(z);
    assert(s1[0] == 0u32 && s1[7] == 0u32 && s1[8] == 0u32);
    let s2 = rho_west(s1);
    assert(s2[0] == 0u32 && s2[4] == 0u32 && s2[8] == 0u32);
    let s3 = iota(s2, round_key);
    assert(s3[0] == round_key && s3[4] == 0u32 && s3[8] == 0u32);
    let s4 = chi(s3);
    assert(s4[0] == round_key);
    assert(rho_east(s4)[0] == round_key);
    assert(z[0] == 0u32);
}

/// One round on 64-bit words of the all-zero state leaves the round key in
/// word 0: with any round key but zero, the all-zero state does not map to
/// itself.
pub proof fn lemma_round64_moves_zero_state(round_key: u32)
    ensures
        round64(zero_words64(), round_key)[0] == round_key as u64,
        round_key != 0 ==> round64(zero_words64(), round_key) != zero_words64(),
{
    lemma_zero_facts64(round_key);
    let z = zero_words64();
    let s1 = theta64(z);
    assert(s1[0] == 0u64 && s1[3] == 0u64 && s1[4] == 0u64);
    let s2 = rho_west64(s1);
    assert(s2[0] == 0u64 && s2[2] == 0u64 && s2[4] == 0u64);
    let s3 = iota64(s2, round_key);
    assert(s3[0] == round_key as u64 && s3[2] == 0u64 && s3[4] == 0u64);
    let s4 = chi64(s3);
    assert(s4[0] == round_key as u64);
    assert(rho_east64(s4)[0] == round_key as u64);
    assert(z[0] == 0u64);
}

} // verus!
