//! The permutation on six 64-bit words, as a mathematical function.
//!
//! It has the shape of the permutation on 32-bit words, with every plane
//! holding two lanes of 64 bits in place of four lanes of 32 bits: the word at
//! plane `p`, lane `l` has index `2 * p + l`. The rotation amounts are 10 and
//! 29 in theta, 23 in rho-west, 1 and 16 in rho-east, and the round key enters
//! the low bits of word 0. It reads the same 48 bytes as the permutation on
//! 32-bit words and is a different function of them.
use crate::batch::{
    block, lemma_block_of_words64, lemma_map_blocks_from_blocks, lemma_words64_of_block, map_blocks,
    word_block64,
};
use crate::bits::rotl64;
use crate::codec::{bytes_of_words64, words64_of_bytes};
use crate::permutation::ROUND_KEYS;
use vstd::prelude::*;

verus! {

/// The parity of the column at `lane`: the XOR of the three planes there.
pub open spec fn column_parity64(s: Seq<u64>, lane: int) -> u64 {
    s[lane] ^ s[lane + 2] ^ s[lane + 4]
}

/// What theta folds into the lanes that take their effect from `lane`.
pub open spec fn theta_effect64(s: Seq<u64>, lane: int) -> u64 {
    rotl64(column_parity64(s, lane), 10) ^ rotl64(column_parity64(s, lane), 29)
}

/// Theta: every word takes the effect computed from the other lane.
pub open spec fn theta64(s: Seq<u64>) -> Seq<u64> {
    Seq::new(6, |i: int| s[i] ^ theta_effect64(s, (i + 1) % 2))
}

/// Rho-west: the two lanes of plane 1 change places, and every lane of
/// plane 2 is rotated left by 23 bits.
pub open spec fn rho_west64(s: Seq<u64>) -> Seq<u64> {
    Seq::new(
        6,
        |i: int|
            if i < 2 {
                s[i]
            } else if i < 4 {
                s[2 + (i + 1) % 2]
            } else {
                rotl64(s[i], 23)
            },
    )
}

/// Iota: the round key is folded into the low 32 bits of lane 0 of plane 0.
pub open spec fn iota64(s: Seq<u64>, round_key: u32) -> Seq<u64> {
    s.update(0, s[0] ^ (round_key as u64))
}

/// Chi: in every column, with `a`, `b`, `c` the words of planes 0, 1, 2, the
/// words become `a ^ (!b & c)`, `b ^ (!c & a)` and `c ^ (!a & b)`.
pub open spec fn chi64(s: Seq<u64>) -> Seq<u64> {
    Seq::new(
        6,
        |i: int|
            if i < 2 {
                s[i] ^ (!s[i + 2] & s[i + 4])
            } else if i < 4 {
                s[i] ^ (!s[i + 2] & s[i - 2])
            } else {
                s[i] ^ (!s[i - 4] & s[i - 2])
            },
    )
}

/// Rho-east: every lane of plane 1 is rotated left by 1 bit; the two lanes
/// of plane 2 change places and are rotated left by 16 bits.
pub open spec fn rho_east64(s: Seq<u64>) -> Seq<u64> {
    Seq::new(
        6,
        |i: int|
            if i < 2 {
                s[i]
            } else if i < 4 {
                rotl64(s[i], 1)
            } else {
                rotl64(s[4 + (i + 1) % 2], 16)
            },
    )
}

/// One round with the given round key.
pub open spec fn round64(s: Seq<u64>, round_key: u32) -> Seq<u64> {
    rho_east64(chi64(iota64(rho_west64(theta64(s)), round_key)))
}

/// The first `n` rounds, round `i` with `ROUND_KEYS[i]`.
pub open spec fn rounds64(s: Seq<u64>, n: nat) -> Seq<u64>
    decreases n,
{
    if n == 0 {
        s
    } else {
        round64(rounds64(s, (n - 1) as nat), ROUND_KEYS@[n - 1])
    }
}

/// The permutation on the word view: all twelve rounds.
pub open spec fn permute_words64(s: Seq<u64>) -> Seq<u64> {
    rounds64(s, 12)
}

/// The permutation on a 48-byte state.
pub open spec fn permutation64(b: Seq<u8>) -> Seq<u8> {
    bytes_of_words64(permute_words64(words64_of_bytes(b)))
}

/// The permutation applied to each of the first `n` 48-byte blocks of `b`.
pub open spec fn permutation64_batch(b: Seq<u8>, n: nat) -> Seq<u8> {
    map_blocks(|s: Seq<u8>| permutation64(s), b, n)
}

/// Two sequences of six words that agree at every index are equal.
pub proof fn lemma_words6_equal(a: Seq<u64>, b: Seq<u64>)
    requires
        a.len() == 6,
        b.len() == 6,
        a[0] == b[0],
        a[1] == b[1],
        a[2] == b[2],
        a[3] == b[3],
        a[4] == b[4],
        a[5] == b[5],
    ensures
        a == b,
{
    assert(a =~= b);
}

/// The permutation gives 48 bytes.
pub proof fn lemma_permutation64_len(b: Seq<u8>)
    ensures
        permutation64(b).len() == 48,
{
    reveal_with_fuel(rounds64, 1);
}

/// A buffer of `n` states whose word blocks are the permuted word blocks of
/// `b` is the batch permutation of `b`.
pub proof fn lemma_batch_of_word_blocks64(b: Seq<u8>, x: Seq<u64>, n: nat)
    requires
        b.len() == 48 * n,
        x.len() == 6 * n,
        forall|k: int|
            0 <= k < n ==> #[trigger] word_block64(x, k) == permute_words64(
                word_block64(words64_of_bytes(b), k),
            ),
    ensures
        bytes_of_words64(x) == permutation64_batch(b, n),
{
    let f = |s: Seq<u8>| permutation64(s);
    let out = bytes_of_words64(x);
    assert forall|k: int| 0 <= k < n implies block(out, k) == #[trigger] f(block(b, k)) by {
        lemma_block_of_words64(x, k);
        lemma_words64_of_block(b, k);
        assert(word_block64(x, k) == permute_words64(word_block64(words64_of_bytes(b), k)));
    }
    lemma_map_blocks_from_blocks(f, b, out, n);
    assert(out.subrange(0, 48 * n as int) =~= out);
}

} // verus!
