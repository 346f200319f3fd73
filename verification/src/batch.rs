//! Buffers that hold several states, one after the other ("block-major"):
//! what it means to apply a permutation to every block, and how the blocks of
//! a buffer relate to the blocks of its word views.
use crate::codec::{bytes_of_words, bytes_of_words64, words64_of_bytes, words_of_bytes};
use vstd::prelude::*;

verus! {

/// Block `k` of a buffer of 48-byte states.
pub open spec fn block(b: Seq<u8>, k: int) -> Seq<u8> {
    b.subrange(48 * k, 48 * k + 48)
}

/// The twelve 32-bit words of block `k`.
pub open spec fn word_block(w: Seq<u32>, k: int) -> Seq<u32> {
    w.subrange(12 * k, 12 * k + 12)
}

/// The six 64-bit words of block `k`.
pub open spec fn word_block64(w: Seq<u64>, k: int) -> Seq<u64> {
    w.subrange(6 * k, 6 * k + 6)
}

/// `f` applied to each of the first `n` blocks of `b`, the results laid out
/// one after the other.
pub open spec fn map_blocks(f: spec_fn(Seq<u8>) -> Seq<u8>, b: Seq<u8>, n: nat) -> Seq<u8>
    decreases n,
{
    if n == 0 {
        Seq::empty()
    } else {
        map_blocks(f, b, (n - 1) as nat) + f(block(b, n - 1))
    }
}

/// Where `f` maps every block to 48 bytes, `map_blocks` gives `48 * n` bytes,
/// and block `k` of the result is `f` of block `k` of the input: splitting the
/// result of a batch gives what `f` gives on each block alone.
pub proof fn lemma_map_blocks_block(f: spec_fn(Seq<u8>) -> Seq<u8>, b: Seq<u8>, n: nat, k: int)
    requires
        forall|j: int| 0 <= j < n ==> (#[trigger] f(block(b, j))).len() == 48,
        0 <= k < n,
    ensures
        map_blocks(f, b, n).len() == 48 * n,
        block(map_blocks(f, b, n), k) == f(block(b, k)),
    decreases n,
{
    lemma_map_blocks_len(f, b, (n - 1) as nat);
    let head = map_blocks(f, b, (n - 1) as nat);
    let last = f(block(b, n - 1));
    if k == n - 1 {
        assert(block(head + last, k) =~= last);
    } else {
        lemma_map_blocks_block(f, b, (n - 1) as nat, k);
        assert(block(head + last, k) =~= block(head, k));
    }
}

/// Where `f` maps every block to 48 bytes, `map_blocks` gives `48 * n` bytes.
pub proof fn lemma_map_blocks_len(f: spec_fn(Seq<u8>) -> Seq<u8>, b: Seq<u8>, n: nat)
    requires
        forall|j: int| 0 <= j < n ==> (#[trigger] f(block(b, j))).len() == 48,
    ensures
        map_blocks(f, b, n).len() == 48 * n,
    decreases n,
{
    if n > 0 {
        lemma_map_blocks_len(f, b, (n - 1) as nat);
    }
}

/// A buffer of `48 * n` bytes whose every block is `f` of the matching block
/// of `b` is `map_blocks(f, b, n)`.
pub proof fn lemma_map_blocks_from_blocks(
    f: spec_fn(Seq<u8>) -> Seq<u8>,
    b: Seq<u8>,
    out: Seq<u8>,
    n: nat,
)
    requires
        out.len() >= 48 * n,
        forall|j: int| 0 <= j < n ==> block(out, j) == #[trigger] f(block(b, j)),
    ensures
        map_blocks(f, b, n) == out.subrange(0, 48 * n as int),
    decreases n,
{
    if n == 0 {
        assert(map_blocks(f, b, n) =~= out.subrange(0, 48 * n as int));
    } else {
        lemma_map_blocks_from_blocks(f, b, out, (n - 1) as nat);
        assert(block(out, n - 1) == f(block(b, n - 1)));
        assert(out.subrange(0, 48 * (n - 1)) + block(out, n - 1) =~= out.subrange(0, 48 * n as int));
    }
}

/// The 32-bit word view of block `k` is block `k` of the word view.
pub proof fn lemma_words_of_block(b: Seq<u8>, k: int)
    requires
        0 <= k,
        48 * (k + 1) <= b.len(),
    ensures
        words_of_bytes(block(b, k)) == word_block(words_of_bytes(b), k),
{
    assert(words_of_bytes(block(b, k)) =~= word_block(words_of_bytes(b), k));
}

/// Block `k` of the bytes of a word sequence holds the bytes of word block
/// `k`.
pub proof fn lemma_block_of_words(w: Seq<u32>, k: int)
    requires
        0 <= k,
        12 * (k + 1) <= w.len(),
    ensures
        block(bytes_of_words(w), k) == bytes_of_words(word_block(w, k)),
{
    assert forall|j: int| 0 <= j < 48 implies block(bytes_of_words(w), k)[j] == bytes_of_words(
        word_block(w, k),
    )[j] by {
        assert((48 * k + j) / 4 == 12 * k + j / 4);
        assert((48 * k + j) % 4 == j % 4);
    }
    assert(block(bytes_of_words(w), k) =~= bytes_of_words(word_block(w, k)));
}

/// The 64-bit word view of block `k` is block `k` of the word view.
pub proof fn lemma_words64_of_block(b: Seq<u8>, k: int)
    requires
        0 <= k,
        48 * (k + 1) <= b.len(),
    ensures
        words64_of_bytes(block(b, k)) == word_block64(words64_of_bytes(b), k),
{
    assert(words64_of_bytes(block(b, k)) =~= word_block64(words64_of_bytes(b), k));
}

/// Block `k` of the bytes of a sequence of 64-bit words holds the bytes of
/// word block `k`.
pub proof fn lemma_block_of_words64(w: Seq<u64>, k: int)
    requires
        0 <= k,
        6 * (k + 1) <= w.len(),
    ensures
        block(bytes_of_words64(w), k) == bytes_of_words64(word_block64(w, k)),
{
    assert forall|j: int| 0 <= j < 48 implies block(bytes_of_words64(w), k)[j] == bytes_of_words64(
        word_block64(w, k),
    )[j] by {
        assert((48 * k + j) / 8 == 6 * k + j / 8);
        assert((48 * k + j) % 8 == j % 8);
    }
    assert(block(bytes_of_words64(w), k) =~= bytes_of_words64(word_block64(w, k)));
}

} // verus!
