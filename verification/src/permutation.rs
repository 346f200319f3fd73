//! The permutation on twelve 32-bit words, as a mathematical function.
//!
//! A state is three planes of four lanes; the word at plane `p`, lane `l` has
//! index `4 * p + l`. One round applies theta, rho-west, iota, chi and
//! rho-east, in that order, and the permutation is twelve rounds, round `i`
//! with round key `i`. Every engine of the 32-bit family is proved against
//! the functions of this module.
use crate::batch::{
    block, lemma_block_of_words, lemma_map_blocks_from_blocks, lemma_words_of_block, map_blocks, word_block,
};
use crate::bits::rotl32;
use crate::codec::{bytes_of_words, words_of_bytes};
use vstd::prelude::*;

verus! {

/// The round keys, in the order in which the rounds consume them.
pub const ROUND_KEYS: [u32; 12] = [
    0x00000058,
    0x00000038,
    0x000003C0,
    0x000000D0,
    0x00000120,
    0x00000014,
    0x00000060,
    0x0000002C,
    0x00000380,
    0x000000F0,
    0x000001A0,
    0x00000012,
];

/// The parity of the column at `lane`: the XOR of the three planes there.
pub open spec fn column_parity(s: Seq<u32>, lane: int) -> u32 {
    s[lane] ^ s[lane + 4] ^ s[lane + 8]
}

/// What theta folds into the lanes that take their effect from `lane`.
pub open spec fn theta_effect(s: Seq<u32>, lane: int) -> u32 {
    rotl32(column_parity(s, lane), 5) ^ rotl32(column_parity(s, lane), 14)
}

/// Theta: every word takes the effect computed from the next lane.
pub open spec fn theta(s: Seq<u32>) -> Seq<u32> {
    Seq::new(12, |i: int| s[i] ^ theta_effect(s, (i + 1) % 4))
}

/// Rho-west: plane 1 moves each lane one position up, and every lane of
/// plane 2 is rotated left by 11 bits.
pub open spec fn rho_west(s: Seq<u32>) -> Seq<u32> {
    Seq::new(
        12,
        |i: int|
            if i < 4 {
                s[i]
            } else if i < 8 {
                s[4 + (i + 3) % 4]
            } else {
                rotl32(s[i], 11)
            },
    )
}

/// Iota: the round key is folded into lane 0 of plane 0.
pub open spec fn iota(s: Seq<u32>, round_key: u32) -> Seq<u32> {
    s.update(0, s[0] ^ round_key)
}

/// Chi: in every column, with `a`, `b`, `c` the words of planes 0, 1, 2, the
/// words become `a ^ (!b & c)`, `b ^ (!c & a)` and `c ^ (!a & b)`.
pub open spec fn chi(s: Seq<u32>) -> Seq<u32> {
    Seq::new(
        12,
        |i: int|
            if i < 4 {
                s[i] ^ (!s[i + 4] & s[i + 8])
            } else if i < 8 {
                s[i] ^ (!s[i + 4] & s[i - 4])
            } else {
                s[i] ^ (!s[i - 8] & s[i - 4])
            },
    )
}

/// Rho-east: every lane of plane 1 is rotated left by 1 bit; plane 2 moves
/// each lane two positions and rotates it left by 8 bits.
pub open spec fn rho_east(s: Seq<u32>) -> Seq<u32> {
    Seq::new(
        12,
        |i: int|
            if i < 4 {
                s[i]
            } else if i < 8 {
                rotl32(s[i], 1)
            } else {
                rotl32(s[8 + (i + 2) % 4], 8)
            },
    )
}

/// One round with the given round key.
pub open spec fn round(s: Seq<u32>, round_key: u32) -> Seq<u32> {
    rho_east(chi(iota(rho_west(theta(s)), round_key)))
}

/// The first `n` rounds, round `i` with `ROUND_KEYS[i]`.
pub open spec fn rounds(s: Seq<u32>, n: nat) -> Seq<u32>
    decreases n,
{
    if n == 0 {
        s
    } else {
        round(rounds(s, (n - 1) as nat), ROUND_KEYS@[n - 1])
    }
}

/// The permutation on the word view: all twelve rounds.
pub open spec fn permute_words(s: Seq<u32>) -> Seq<u32> {
    rounds(s, 12)
}

/// The permutation on a 48-byte state.
pub open spec fn permutation(b: Seq<u8>) -> Seq<u8> {
    bytes_of_words(permute_words(words_of_bytes(b)))
}

/// The permutation applied to each of the first `n` 48-byte blocks of `b`.
pub open spec fn permutation_batch(b: Seq<u8>, n: nat) -> Seq<u8> {
    map_blocks(|s: Seq<u8>| permutation(s), b, n)
}

/// Two sequences of twelve words that agree at every index are equal.
pub proof fn lemma_words12_equal(a: Seq<u32>, b: Seq<u32>)
    requires
        a.len() == 12,
        b.len() == 12,
        a[0] == b[0],
        a[1] == b[1],
        a[2] == b[2],
        a[3] == b[3],
        a[4] == b[4],
        a[5] == b[5],
        a[6] == b[6],
        a[7] == b[7],
        a[8] == b[8],
        a[9] == b[9],
        a[10] == b[10],
        a[11] == b[11],
    ensures
        a == b,
{
    assert(a =~= b);
}

/// The permutation gives 48 bytes.
pub proof fn lemma_permutation_len(b: Seq<u8>)
    ensures
        permutation(b).len() == 48,
{
    reveal_with_fuel(rounds, 1);
}

/// A buffer of `n` states whose word blocks are the permuted word blocks of
/// `b` is the batch permutation of `b`.
pub proof fn lemma_batch_of_word_blocks(b: Seq<u8>, x: Seq<u32>, n: nat)
    requires
        b.len() == 48 * n,
        x.len() == 12 * n,
        forall|k: int|
            0 <= k < n ==> #[trigger] word_block(x, k) == permute_words(word_block(words_of_bytes(b), k)),
    ensures
        bytes_of_words(x) == permutation_batch(b, n),
{
    let f = |s: Seq<u8>| permutation(s);
    let out = bytes_of_words(x);
    assert forall|k: int| 0 <= k < n implies block(out, k) == #[trigger] f(block(b, k)) by {
        lemma_block_of_words(x, k);
        lemma_words_of_block(b, k);
        assert(word_block(x, k) == permute_words(word_block(words_of_bytes(b), k)));
    }
    lemma_map_blocks_from_blocks(f, b, out, n);
    assert(out.subrange(0, 48 * n as int) =~= out);
}

} // verus!
