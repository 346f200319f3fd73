//! The state codec: little-endian conversion between byte buffers and the
//! 32-bit and 64-bit word views of a state.
//!
//! A buffer of `4 * n` bytes is read as `n` words of 32 bits, and one of
//! `8 * n` bytes as `n` words of 64 bits. Both readings are bijections, which
//! the lemmas at the end of this module state.
use vstd::prelude::*;

verus! {

/// Byte `k` of a 32-bit word, byte 0 being the least significant.
pub open spec fn byte32(x: u32, k: int) -> u8 {
    (x >> ((8 * k) as u32)) as u8
}

/// Byte `k` of a 64-bit word, byte 0 being the least significant.
pub open spec fn byte64(x: u64, k: int) -> u8 {
    (x >> ((8 * k) as u64)) as u8
}

/// The 32-bit word whose little-endian bytes are `b0, b1, b2, b3`.
pub open spec fn le32(b0: u8, b1: u8, b2: u8, b3: u8) -> u32 {
    (b0 as u32) | ((b1 as u32) << 8) | ((b2 as u32) << 16) | ((b3 as u32) << 24)
}

/// The 64-bit word whose little-endian bytes are `b0, ..., b7`.
pub open spec fn le64(b0: u8, b1: u8, b2: u8, b3: u8, b4: u8, b5: u8, b6: u8, b7: u8) -> u64 {
    (b0 as u64) | ((b1 as u64) << 8) | ((b2 as u64) << 16) | ((b3 as u64) << 24) | ((b4 as u64)
        << 32) | ((b5 as u64) << 40) | ((b6 as u64) << 48) | ((b7 as u64) << 56)
}

/// The 32-bit word stored little-endian at offset `at` of `b`.
pub open spec fn word32_at(b: Seq<u8>, at: int) -> u32 {
    le32(b[at], b[at + 1], b[at + 2], b[at + 3])
}

/// The 64-bit word stored little-endian at offset `at` of `b`.
pub open spec fn word64_at(b: Seq<u8>, at: int) -> u64 {
    le64(b[at], b[at + 1], b[at + 2], b[at + 3], b[at + 4], b[at + 5], b[at + 6], b[at + 7])
}

/// The four little-endian bytes of a 32-bit word.
pub open spec fn le_bytes32(x: u32) -> Seq<u8> {
    Seq::new(4, |k: int| byte32(x, k))
}

/// The eight little-endian bytes of a 64-bit word.
pub open spec fn le_bytes64(x: u64) -> Seq<u8> {
    Seq::new(8, |k: int| byte64(x, k))
}

/// The 32-bit word view of a byte buffer: word `i` is stored at offset `4 * i`.
pub open spec fn words_of_bytes(b: Seq<u8>) -> Seq<u32> {
    Seq::new(b.len() / 4, |i: int| word32_at(b, 4 * i))
}

/// The byte buffer that holds the given 32-bit words, little-endian, in order.
pub open spec fn bytes_of_words(w: Seq<u32>) -> Seq<u8> {
    Seq::new(4 * w.len(), |i: int| byte32(w[i / 4], i % 4))
}

/// The 64-bit word view of a byte buffer: word `i` is stored at offset `8 * i`.
pub open spec fn words64_of_bytes(b: Seq<u8>) -> Seq<u64> {
    Seq::new(b.len() / 8, |i: int| word64_at(b, 8 * i))
}

/// The byte buffer that holds the given 64-bit words, little-endian, in order.
pub open spec fn bytes_of_words64(w: Seq<u64>) -> Seq<u8> {
    Seq::new(8 * w.len(), |i: int| byte64(w[i / 8], i % 8))
}

/// Decoding the bytes of a 32-bit word gives the word back.
pub proof fn lemma_le32_of_bytes(x: u32)
    by (bit_vector)
    ensures
        (((x >> 0u32) as u8) as u32) | ((((x >> 8u32) as u8) as u32) << 8) | ((((x >> 16u32) as u8) as u32)
            << 16) | ((((x >> 24u32) as u8) as u32) << 24) == x,
{
}

/// Each byte of a decoded 32-bit word is the byte it was decoded from.
pub proof fn lemma_bytes_of_le32(b0: u8, b1: u8, b2: u8, b3: u8)
    by (bit_vector)
    ensures
        ({
            let x = (b0 as u32) | ((b1 as u32) << 8) | ((b2 as u32) << 16) | ((b3 as u32) << 24);
            &&& (x >> 0u32) as u8 == b0
            &&& (x >> 8u32) as u8 == b1
            &&& (x >> 16u32) as u8 == b2
            &&& (x >> 24u32) as u8 == b3
        }),
{
}

/// Decoding the bytes of a 64-bit word gives the word back.
pub proof fn lemma_le64_of_bytes(x: u64)
    by (bit_vector)
    ensures
        (((x >> 0u64) as u8) as u64) | ((((x >> 8u64) as u8) as u64) << 8) | ((((x >> 16u64) as u8) as u64)
            << 16) | ((((x >> 24u64) as u8) as u64) << 24) | ((((x >> 32u64) as u8) as u64) << 32) | ((((x
            >> 40u64) as u8) as u64) << 40) | ((((x >> 48u64) as u8) as u64) << 48) | ((((x >> 56u64) as u8) as u64)
            << 56) == x,
{
}

/// Each byte of a decoded 64-bit word is the byte it was decoded from.
pub proof fn lemma_bytes_of_le64(b0: u8, b1: u8, b2: u8, b3: u8, b4: u8, b5: u8, b6: u8, b7: u8)
    by (bit_vector)
    ensures
        ({
            let x = (b0 as u64) | ((b1 as u64) << 8) | ((b2 as u64) << 16) | ((b3 as u64) << 24) | ((b4 as u64)
                << 32) | ((b5 as u64) << 40) | ((b6 as u64) << 48) | ((b7 as u64) << 56);
            &&& (x >> 0u64) as u8 == b0
            &&& (x >> 8u64) as u8 == b1
            &&& (x >> 16u64) as u8 == b2
            &&& (x >> 24u64) as u8 == b3
            &&& (x >> 32u64) as u8 == b4
            &&& (x >> 40u64) as u8 == b5
            &&& (x >> 48u64) as u8 == b6
            &&& (x >> 56u64) as u8 == b7
        }),
{
}

/// Encoding then decoding a sequence of 32-bit words is the identity.
pub proof fn lemma_words_of_bytes_of_words(w: Seq<u32>)
    ensures
        words_of_bytes(bytes_of_words(w)) == w,
{
    let b = bytes_of_words(w);
    assert(b.len() / 4 == w.len());
    assert forall|i: int| 0 <= i < w.len() implies words_of_bytes(b)[i] == w[i] by {
        lemma_le32_of_bytes(w[i]);
        assert((4 * i) / 4 == i && (4 * i) % 4 == 0);
        assert((4 * i + 1) / 4 == i && (4 * i + 1) % 4 == 1);
        assert((4 * i + 2) / 4 == i && (4 * i + 2) % 4 == 2);
        assert((4 * i + 3) / 4 == i && (4 * i + 3) % 4 == 3);
    }
    assert(words_of_bytes(b) =~= w);
}

/// Decoding then encoding a buffer whose length is a multiple of 4 is the
/// identity.
pub proof fn lemma_bytes_of_words_of_bytes(b: Seq<u8>)
    requires
        b.len() % 4 == 0,
    ensures
        bytes_of_words(words_of_bytes(b)) == b,
{
    let w = words_of_bytes(b);
    assert(4 * w.len() == b.len());
    assert forall|i: int| 0 <= i < b.len() implies bytes_of_words(w)[i] == b[i] by {
        let j = i / 4;
        lemma_bytes_of_le32(b[4 * j], b[4 * j + 1], b[4 * j + 2], b[4 * j + 3]);
        assert(i == 4 * j + i % 4);
    }
    assert(bytes_of_words(w) =~= b);
}

/// Encoding then decoding a sequence of 64-bit words is the identity.
pub proof fn lemma_words64_of_bytes_of_words64(w: Seq<u64>)
    ensures
        words64_of_bytes(bytes_of_words64(w)) == w,
{
    let b = bytes_of_words64(w);
    assert(b.len() / 8 == w.len());
    assert forall|i: int| 0 <= i < w.len() implies words64_of_bytes(b)[i] == w[i] by {
        lemma_le64_of_bytes(w[i]);
        assert((8 * i) / 8 == i && (8 * i) % 8 == 0);
        assert((8 * i + 1) / 8 == i && (8 * i + 1) % 8 == 1);
        assert((8 * i + 2) / 8 == i && (8 * i + 2) % 8 == 2);
        assert((8 * i + 3) / 8 == i && (8 * i + 3) % 8 == 3);
        assert((8 * i + 4) / 8 == i && (8 * i + 4) % 8 == 4);
        assert((8 * i + 5) / 8 == i && (8 * i + 5) % 8 == 5);
        assert((8 * i + 6) / 8 == i && (8 * i + 6) % 8 == 6);
        assert((8 * i + 7) / 8 == i && (8 * i + 7) % 8 == 7);
    }
    assert(words64_of_bytes(b) =~= w);
}

/// Decoding then encoding a buffer whose length is a multiple of 8 is the
/// identity.
pub proof fn lemma_bytes_of_words64_of_bytes(b: Seq<u8>)
    requires
        b.len() % 8 == 0,
    ensures
        bytes_of_words64(words64_of_bytes(b)) == b,
{
    let w = words64_of_bytes(b);
    assert(8 * w.len() == b.len());
    assert forall|i: int| 0 <= i < b.len() implies bytes_of_words64(w)[i] == b[i] by {
        let j = i / 8;
        lemma_bytes_of_le64(
            b[8 * j],
            b[8 * j + 1],
            b[8 * j + 2],
            b[8 * j + 3],
            b[8 * j + 4],
            b[8 * j + 5],
            b[8 * j + 6],
            b[8 * j + 7],
        );
        assert(i == 8 * j + i % 8);
    }
    assert(bytes_of_words64(w) =~= b);
}

/// Copies a 16-byte slice into an array.
pub fn read128(x: &[u8]) -> (r: [u8; 16])
    requires
        x@.len() == 16,
    ensures
        r@ == x@,
{
    let mut result = [0u8; 16];
    let mut i: usize = 0;
    while i < 16
        invariant
            i <= 16,
            x@.len() == 16,
            forall|j: int| 0 <= j < i ==> result@[j] == x@[j],
        decreases 16 - i,
    {
        result[i] = x[i];
        i += 1;
    }
    assert(result@ =~= x@);
    result
}

/// Copies 16 bytes to the front of `y`; the rest of `y` is unchanged.
pub fn write128(x: [u8; 16], y: &mut [u8])
    requires
        old(y)@.len() >= 16,
    ensures
        final(y)@ == x@ + old(y)@.skip(16),
{
    let mut i: usize = 0;
    while i < 16
        invariant
            i <= 16,
            y@.len() == old(y)@.len(),
            y@.len() >= 16,
            forall|j: int| 0 <= j < i ==> y@[j] == x@[j],
            forall|j: int| i <= j < y@.len() ==> y@[j] == old(y)@[j],
        decreases 16 - i,
    {
        y[i] = x[i];
        i += 1;
    }
    assert(y@ =~= x@ + old(y)@.skip(16));
}

/// Reads the 32-bit word stored little-endian in the first four bytes of `x`.
pub fn read32(x: &[u8]) -> (r: u32)
    requires
        x@.len() >= 4,
    ensures
        r == word32_at(x@, 0),
{
    (x[0] as u32) | ((x[1] as u32) << 8) | ((x[2] as u32) << 16) | ((x[3] as u32) << 24)
}

/// Stores `x` little-endian in the first four bytes of `y`; the rest of `y`
/// is unchanged.
pub fn write32(x: u32, y: &mut [u8])
    requires
        old(y)@.len() >= 4,
    ensures
        final(y)@ == le_bytes32(x) + old(y)@.skip(4),
{
    y[0] = x as u8;
    y[1] = (x >> 8) as u8;
    y[2] = (x >> 16) as u8;
    y[3] = (x >> 24) as u8;
    proof {
        assert(x >> 0u32 == x) by (bit_vector);
        assert(y@ =~= le_bytes32(x) + old(y)@.skip(4));
    }
}

/// Reads the 64-bit word stored little-endian in the first eight bytes of `x`.
pub fn read64(x: &[u8]) -> (r: u64)
    requires
        x@.len() >= 8,
    ensures
        r == word64_at(x@, 0),
{
    (x[0] as u64) | ((x[1] as u64) << 8) | ((x[2] as u64) << 16) | ((x[3] as u64) << 24) | ((x[4] as u64)
        << 32) | ((x[5] as u64) << 40) | ((x[6] as u64) << 48) | ((x[7] as u64) << 56)
}

/// Stores `x` little-endian in the first eight bytes of `y`; the rest of `y`
/// is unchanged.
pub fn write64(x: u64, y: &mut [u8])
    requires
        old(y)@.len() >= 8,
    ensures
        final(y)@ == le_bytes64(x) + old(y)@.skip(8),
{
    y[0] = x as u8;
    y[1] = (x >> 8) as u8;
    y[2] = (x >> 16) as u8;
    y[3] = (x >> 24) as u8;
    y[4] = (x >> 32) as u8;
    y[5] = (x >> 40) as u8;
    y[6] = (x >> 48) as u8;
    y[7] = (x >> 56) as u8;
    proof {
        assert(x >> 0u64 == x) by (bit_vector);
        assert(y@ =~= le_bytes64(x) + old(y)@.skip(8));
    }
}

/// Decodes a byte buffer into its 32-bit word view.
pub fn bytes_to_words(buffer: &[u8], words: &mut [u32])
    requires
        buffer@.len() == 4 * old(words)@.len(),
    ensures
        final(words)@ == words_of_bytes(buffer@),
{
    let n: usize = words.len();
    let size: usize = buffer.len();
    let mut i: usize = 0;
    while i < n
        invariant
            i <= n,
            n == words@.len(),
            buffer@.len() == size,
            size == 4 * n,
            forall|j: int| 0 <= j < i ==> words@[j] == word32_at(buffer@, 4 * j),
        decreases n - i,
    {
        let w: u32 = read32(&buffer[4 * i..4 * i + 4]);
        words[i] = w;
        i += 1;
    }
    assert(words@ =~= words_of_bytes(buffer@));
}

/// Encodes 32-bit words into a byte buffer, little-endian, in order.
pub fn words_to_bytes(words: &[u32], buffer: &mut [u8])
    requires
        old(buffer)@.len() == 4 * words@.len(),
    ensures
        final(buffer)@ == bytes_of_words(words@),
{
    let n: usize = words.len();
    let size: usize = buffer.len();
    let mut i: usize = 0;
    while i < n
        invariant
            i <= n,
            n == words@.len(),
            buffer@.len() == size,
            size == 4 * n,
            forall|j: int| 0 <= j < 4 * i ==> buffer@[j] == byte32(words@[j / 4], j % 4),
        decreases n - i,
    {
        let ghost before = buffer@;
        write32(words[i], buffer.split_at_mut(4 * i).1);
        assert forall|j: int| 0 <= j < 4 * (i + 1) implies buffer@[j] == byte32(
            words@[j / 4],
            j % 4,
        ) by {
            if j < 4 * i {
                assert(buffer@[j] == before[j]);
            } else {
                assert(j / 4 == i && j % 4 == j - 4 * i);
                assert(buffer@[j] == le_bytes32(words@[i as int])[j - 4 * i]);
            }
        }
        i += 1;
    }
    assert(buffer@ =~= bytes_of_words(words@));
}

/// Decodes a byte buffer into its 64-bit word view.
pub fn bytes_to_words64(buffer: &[u8], words: &mut [u64])
    requires
        buffer@.len() == 8 * old(words)@.len(),
    ensures
        final(words)@ == words64_of_bytes(buffer@),
{
    let n: usize = words.len();
    let size: usize = buffer.len();
    let mut i: usize = 0;
    while i < n
        invariant
            i <= n,
            n == words@.len(),
            buffer@.len() == size,
            size == 8 * n,
            forall|j: int| 0 <= j < i ==> words@[j] == word64_at(buffer@, 8 * j),
        decreases n - i,
    {
        let w: u64 = read64(&buffer[8 * i..8 * i + 8]);
        words[i] = w;
        i += 1;
    }
    assert(words@ =~= words64_of_bytes(buffer@));
}

/// Encodes 64-bit words into a byte buffer, little-endian, in order.
pub fn words64_to_bytes(words: &[u64], buffer: &mut [u8])
    requires
        old(buffer)@.len() == 8 * words@.len(),
    ensures
        final(buffer)@ == bytes_of_words64(words@),
{
    let n: usize = words.len();
    let size: usize = buffer.len();
    let mut i: usize = 0;
    while i < n
        invariant
            i <= n,
            n == words@.len(),
            buffer@.len() == size,
            size == 8 * n,
            forall|j: int| 0 <= j < 8 * i ==> buffer@[j] == byte64(words@[j / 8], j % 8),
        decreases n - i,
    {
        let ghost before = buffer@;
        write64(words[i], buffer.split_at_mut(8 * i).1);
        assert forall|j: int| 0 <= j < 8 * (i + 1) implies buffer@[j] == byte64(
            words@[j / 8],
            j % 8,
        ) by {
            if j < 8 * i {
                assert(buffer@[j] == before[j]);
            } else {
                assert(j / 8 == i && j % 8 == j - 8 * i);
                assert(buffer@[j] == le_bytes64(words@[i as int])[j - 8 * i]);
            }
        }
        i += 1;
    }
    assert(buffer@ =~= bytes_of_words64(words@));
}

} // verus!
