//! The two orders in which the words of a batch of states can stand.
//!
//! In block-major order the words of state 0 come first, then those of
//! state 1, and so on: word `w` of state `k` has index `words * k + w`. In
//! lane-major order word 0 of every state comes first, then word 1 of every
//! state: word `w` of state `k` has index `n * w + k`. The two conversions
//! move data and change none of it, and each undoes the other.
use crate::codec::{bytes_of_words, bytes_of_words64, words64_of_bytes, words_of_bytes};
use crate::codec::{lemma_bytes_of_words64_of_bytes, lemma_bytes_of_words_of_bytes};
use vstd::arithmetic::div_mod::{lemma_fundamental_div_mod, lemma_fundamental_div_mod_converse};
use vstd::prelude::*;

verus! {

/// The lane-major order of a block-major sequence of `n` states of `words`
/// words each.
pub open spec fn lane_major<T>(s: Seq<T>, words: int, n: int) -> Seq<T> {
    Seq::new(s.len(), |i: int| s[words * (i % n) + i / n])
}

/// The block-major order of a lane-major sequence of `n` states of `words`
/// words each.
pub open spec fn block_major<T>(t: Seq<T>, words: int, n: int) -> Seq<T> {
    Seq::new(t.len(), |i: int| t[n * (i % words) + i / words])
}

/// For `0 <= i < a * b`, the index `b * (i % a) + i / a` lies in the same
/// range, and dividing it by `b` gives back `i % a` and `i / a`.
proof fn lemma_transposed_index(i: int, a: int, b: int)
    requires
        0 < a,
        0 < b,
        0 <= i < a * b,
    ensures
        0 <= i / a < b,
        0 <= i % a < a,
        0 <= b * (i % a) + i / a < a * b,
        (b * (i % a) + i / a) % b == i / a,
        (b * (i % a) + i / a) / b == i % a,
        a * (i / a) + i % a == i,
{
    lemma_fundamental_div_mod(i, a);
    let q = i / a;
    let r = i % a;
    assert(0 <= r < a);
    assert(0 <= q < b) by (nonlinear_arith)
        requires
            i == a * q + r,
            0 <= r < a,
            0 <= i < a * b,
            0 < a,
            0 < b,
    ;
    assert(0 <= b * r + q < a * b) by (nonlinear_arith)
        requires
            0 <= r < a,
            0 <= q < b,
    ;
    assert(b * r + q == r * b + q) by (nonlinear_arith);
    lemma_fundamental_div_mod_converse(b * r + q, b, r, q);
}

/// Going to lane-major order and back is the identity.
pub proof fn lemma_block_major_of_lane_major<T>(s: Seq<T>, words: int, n: int)
    requires
        0 < words,
        0 < n,
        s.len() == words * n,
    ensures
        block_major(lane_major(s, words, n), words, n) == s,
{
    let t = lane_major(s, words, n);
    assert forall|i: int| 0 <= i < s.len() implies block_major(t, words, n)[i] == s[i] by {
        lemma_transposed_index(i, words, n);
    }
    assert(block_major(t, words, n) =~= s);
}

/// Going to block-major order and back is the identity.
pub proof fn lemma_lane_major_of_block_major<T>(t: Seq<T>, words: int, n: int)
    requires
        0 < words,
        0 < n,
        t.len() == words * n,
    ensures
        lane_major(block_major(t, words, n), words, n) == t,
{
    let s = block_major(t, words, n);
    assert(t.len() == n * words) by (nonlinear_arith)
        requires
            t.len() == words * n,
    ;
    assert forall|i: int| 0 <= i < t.len() implies lane_major(s, words, n)[i] == t[i] by {
        lemma_transposed_index(i, n, words);
    }
    assert(lane_major(s, words, n) =~= t);
}

/// A buffer of `n` states, read as 32-bit words, taken to lane-major order
/// and back, and written out again, is the buffer that was read.
pub proof fn lemma_transpose_round_trip(b: Seq<u8>, n: int)
    requires
        0 < n,
        b.len() == 48 * n,
    ensures
        bytes_of_words(block_major(lane_major(words_of_bytes(b), 12, n), 12, n)) == b,
{
    lemma_block_major_of_lane_major(words_of_bytes(b), 12, n);
    lemma_bytes_of_words_of_bytes(b);
}

/// A buffer of `n` states, read as 64-bit words, taken to lane-major order
/// and back, and written out again, is the buffer that was read.
pub proof fn lemma_transpose_round_trip64(b: Seq<u8>, n: int)
    requires
        0 < n,
        b.len() == 48 * n,
    ensures
        bytes_of_words64(block_major(lane_major(words64_of_bytes(b), 6, n), 6, n)) == b,
{
    lemma_block_major_of_lane_major(words64_of_bytes(b), 6, n);
    lemma_bytes_of_words64_of_bytes(b);
}

} // verus!
