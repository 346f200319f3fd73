//! Transposition between block-major and lane-major order on vector
//! registers, for the engines that keep one word of every state in the lanes
//! of one register.
use crate::codec::{bytes_of_words, bytes_of_words64, word32_at, word64_at};
use crate::codec::{read128, words64_of_bytes, words_of_bytes, write128};
use crate::layout::{block_major, lane_major, lemma_block_major_of_lane_major};
use crate::neon::{
    uint32x4_t, uint64x2_t, uint8x16_t, vreinterpretq_u32_u64, vreinterpretq_u32_u8, vreinterpretq_u64_u32,
    vreinterpretq_u64_u8, vreinterpretq_u8_u32, vreinterpretq_u8_u64, vtrn1q_u32, vtrn1q_u64, vtrn2q_u32,
    vtrn2q_u64,
};
use vstd::prelude::*;

verus! {

/// The 32-bit lanes of a sequence of registers, register by register.
pub open spec fn lanes_of(x: Seq<[u32; 4]>) -> Seq<u32> {
    Seq::new(4 * x.len(), |i: int| x[i / 4]@[i % 4])
}

/// The 64-bit lanes of a sequence of registers, register by register.
pub open spec fn lanes64_of(x: Seq<[u64; 2]>) -> Seq<u64> {
    Seq::new(2 * x.len(), |i: int| x[i / 2]@[i % 2])
}

/// The low half of a 64-bit word.
pub open spec fn low32(x: u64) -> u32 {
    x as u32
}

/// The high half of a 64-bit word.
pub open spec fn high32(x: u64) -> u32 {
    (x >> 32) as u32
}

/// The 32-bit words that a sequence of registers of 64-bit lanes holds: of
/// every lane, the low half and then the high half.
pub open spec fn halves_of(x: Seq<[u64; 2]>) -> Seq<u32> {
    Seq::new(
        4 * x.len(),
        |i: int|
            if i % 2 == 0 {
                low32(x[i / 4]@[(i % 4) / 2])
            } else {
                high32(x[i / 4]@[(i % 4) / 2])
            },
    )
}

/// The words of the state that lane `k` of twelve registers holds, register
/// `w` holding word `w`.
pub open spec fn state_of_lane(z: Seq<[u32; 4]>, k: int) -> Seq<u32> {
    Seq::new(12, |w: int| z[w]@[k])
}

/// The halves of a 64-bit word read from eight bytes are the 32-bit words
/// read from the first four and the last four of them.
pub proof fn lemma_halves_of_le64(b0: u8, b1: u8, b2: u8, b3: u8, b4: u8, b5: u8, b6: u8, b7: u8)
    by (bit_vector)
    ensures
        ({
            let x = (b0 as u64) | ((b1 as u64) << 8) | ((b2 as u64) << 16) | ((b3 as u64) << 24) | ((b4 as u64)
                << 32) | ((b5 as u64) << 40) | ((b6 as u64) << 48) | ((b7 as u64) << 56);
            &&& x as u32 == (b0 as u32) | ((b1 as u32) << 8) | ((b2 as u32) << 16) | ((b3 as u32) << 24)
            &&& (x >> 32) as u32 == (b4 as u32) | ((b5 as u32) << 8) | ((b6 as u32) << 16) | ((b7 as u32) << 24)
        }),
{
}

/// The bytes of a 64-bit word are the bytes of its low half and then those of
/// its high half.
pub proof fn lemma_bytes_of_halves(x: u64)
    by (bit_vector)
    ensures
        (x >> 0u64) as u8 == ((x as u32) >> 0u32) as u8,
        (x >> 8u64) as u8 == ((x as u32) >> 8u32) as u8,
        (x >> 16u64) as u8 == ((x as u32) >> 16u32) as u8,
        (x >> 24u64) as u8 == ((x as u32) >> 24u32) as u8,
        (x >> 32u64) as u8 == (((x >> 32) as u32) >> 0u32) as u8,
        (x >> 40u64) as u8 == (((x >> 32) as u32) >> 8u32) as u8,
        (x >> 48u64) as u8 == (((x >> 32) as u32) >> 16u32) as u8,
        (x >> 56u64) as u8 == (((x >> 32) as u32) >> 24u32) as u8,
{
}

/// Registers whose 64-bit lanes are the 64-bit word view of a buffer hold,
/// as halves, its 32-bit word view.
pub proof fn lemma_halves_of_loaded(b: Seq<u8>, x: Seq<[u64; 2]>)
    requires
        b.len() == 16 * x.len(),
        lanes64_of(x) == words64_of_bytes(b),
    ensures
        halves_of(x) == words_of_bytes(b),
{
    assert forall|i: int| 0 <= i < 4 * x.len() implies halves_of(x)[i] == words_of_bytes(b)[i] by {
        let j = i / 2;
        assert(i / 4 == j / 2 && (i % 4) / 2 == j % 2);
        assert(lanes64_of(x)[j] == x[j / 2]@[j % 2]);
        assert(words64_of_bytes(b)[j] == word64_at(b, 8 * j));
        lemma_halves_of_le64(
            b[8 * j],
            b[8 * j + 1],
            b[8 * j + 2],
            b[8 * j + 3],
            b[8 * j + 4],
            b[8 * j + 5],
            b[8 * j + 6],
            b[8 * j + 7],
        );
    }
    assert(halves_of(x) =~= words_of_bytes(b));
}

/// The bytes of the 64-bit lanes of registers are the bytes of the 32-bit
/// words that the registers hold as halves.
pub proof fn lemma_bytes_of_stored(x: Seq<[u64; 2]>)
    ensures
        bytes_of_words64(lanes64_of(x)) == bytes_of_words(halves_of(x)),
{
    let a = bytes_of_words64(lanes64_of(x));
    let c = bytes_of_words(halves_of(x));
    assert forall|i: int| 0 <= i < 16 * x.len() implies a[i] == c[i] by {
        let j = i / 8;
        let m = i % 8;
        lemma_bytes_of_halves(lanes64_of(x)[j]);
        assert(i / 4 == 2 * j + m / 4 && i % 4 == m % 4);
        assert((i / 4) / 4 == j / 2 && ((i / 4) % 4) / 2 == j % 2);
    }
    assert(a =~= c);
}

/// With lane-major registers, lane `k` holds the words of block `k`.
pub proof fn lemma_state_of_lane_loaded(z: Seq<[u32; 4]>, s: Seq<u32>, k: int)
    requires
        z.len() == 12,
        s.len() == 48,
        lanes_of(z) == lane_major(s, 12, 4),
        0 <= k < 4,
    ensures
        state_of_lane(z, k) == s.subrange(12 * k, 12 * k + 12),
{
    assert forall|w: int| 0 <= w < 12 implies state_of_lane(z, k)[w] == s[12 * k + w] by {
        assert(lanes_of(z)[4 * w + k] == z[w]@[k]);
    }
    assert(state_of_lane(z, k) =~= s.subrange(12 * k, 12 * k + 12));
}

/// Block `k` of the block-major order of lane-major registers holds the words
/// of lane `k`.
pub proof fn lemma_state_of_lane_stored(z: Seq<[u32; 4]>, s: Seq<u32>, k: int)
    requires
        z.len() == 12,
        s == block_major(lanes_of(z), 12, 4),
        0 <= k < 4,
    ensures
        s.subrange(12 * k, 12 * k + 12) == state_of_lane(z, k),
{
    assert forall|w: int| 0 <= w < 12 implies state_of_lane(z, k)[w] == s[12 * k + w] by {
        assert(lanes_of(z)[4 * w + k] == z[w]@[k]);
    }
    assert(state_of_lane(z, k) =~= s.subrange(12 * k, 12 * k + 12));
}

/// Three registers that hold the planes of state `k` hold, one after the
/// other, the words of block `k`.
pub proof fn lemma_planes_of_registers(r: Seq<[u32; 4]>, k: int)
    requires
        0 <= k,
        3 * (k + 1) <= r.len(),
    ensures
        r[3 * k]@ + r[3 * k + 1]@ + r[3 * k + 2]@ == lanes_of(r).subrange(12 * k, 12 * k + 12),
{
    let planes = r[3 * k]@ + r[3 * k + 1]@ + r[3 * k + 2]@;
    let words = lanes_of(r).subrange(12 * k, 12 * k + 12);
    assert forall|i: int| 0 <= i < 12 implies planes[i] == words[i] by {
        assert((12 * k + i) / 4 == 3 * k + i / 4 && (12 * k + i) % 4 == i % 4);
    }
    assert(planes =~= words);
}

/// Three registers that hold the planes of state `k` hold, one after the
/// other, the 64-bit words of block `k`.
pub proof fn lemma_planes64_of_registers(r: Seq<[u64; 2]>, k: int)
    requires
        0 <= k,
        3 * (k + 1) <= r.len(),
    ensures
        r[3 * k]@ + r[3 * k + 1]@ + r[3 * k + 2]@ == lanes64_of(r).subrange(6 * k, 6 * k + 6),
{
    let planes = r[3 * k]@ + r[3 * k + 1]@ + r[3 * k + 2]@;
    let words = lanes64_of(r).subrange(6 * k, 6 * k + 6);
    assert forall|i: int| 0 <= i < 6 implies planes[i] == words[i] by {
        assert((6 * k + i) / 2 == 3 * k + i / 2 && (6 * k + i) % 2 == i % 2);
    }
    assert(planes =~= words);
}

/// Reads a buffer into registers of 32-bit lanes, sixteen bytes to a
/// register.
pub fn load_registers_u32(state: &[u8], x: &mut [uint32x4_t])
    requires
        state@.len() == 16 * old(x)@.len(),
    ensures
        final(x)@.len() == old(x)@.len(),
        lanes_of(final(x)@) == words_of_bytes(state@),
{
    let n: usize = x.len();
    let size: usize = state.len();
    let mut k: usize = 0;
    while k < n
        invariant
            k <= n,
            n == x@.len(),
            state@.len() == size,
            size == 16 * n,
            forall|j: int| 0 <= j < k ==> (#[trigger] x@[j])@ == words_of_bytes(state@.subrange(16 * j, 16 * j + 16)),
        decreases n - k,
    {
        let r: uint32x4_t = vreinterpretq_u32_u8(read128(&state[16 * k..16 * k + 16]));
        x[k] = r;
        k += 1;
    }
    proof {
        assert forall|i: int| 0 <= i < 4 * n implies lanes_of(x@)[i] == words_of_bytes(state@)[i] by {
            let j = i / 4;
            assert(x@[j]@ == words_of_bytes(state@.subrange(16 * j, 16 * j + 16)));
            assert(x@[j]@[i % 4] == word32_at(state@.subrange(16 * j, 16 * j + 16), 4 * (i % 4)));
        }
        assert(lanes_of(x@) =~= words_of_bytes(state@));
    }
}

/// A buffer that holds, sixteen bytes to a register, the bytes of every
/// register holds the bytes of the lanes of all registers.
pub proof fn lemma_bytes_of_registers_u32(out: Seq<u8>, x: Seq<[u32; 4]>)
    requires
        out.len() == 16 * x.len(),
        forall|i: int| 0 <= i < out.len() ==> out[i] == bytes_of_words(x[i / 16]@)[i % 16],
    ensures
        out == bytes_of_words(lanes_of(x)),
{
    assert forall|i: int| 0 <= i < out.len() implies out[i] == bytes_of_words(lanes_of(x))[i] by {
        let k = i / 16;
        let m = i % 16;
        assert(i == 16 * k + m);
        assert(i / 4 == 4 * k + m / 4 && i % 4 == m % 4);
        assert((i / 4) / 4 == k && (i / 4) % 4 == m / 4);
    }
    assert(out =~= bytes_of_words(lanes_of(x)));
}

/// Writes registers of 32-bit lanes to a buffer, sixteen bytes from a
/// register.
pub fn store_registers_u32(x: &[[u32; 4]], state: &mut [u8])
    requires
        old(state)@.len() == 16 * x@.len(),
    ensures
        final(state)@ == bytes_of_words(lanes_of(x@)),
{
    let n: usize = x.len();
    let size: usize = state.len();
    let mut k: usize = 0;
    while k < n
        invariant
            k <= n,
            n == x@.len(),
            state@.len() == size,
            size == 16 * n,
            forall|i: int| 0 <= i < 16 * k ==> state@[i] == bytes_of_words(x@[i / 16]@)[i % 16],
        decreases n - k,
    {
        let ghost before = state@;
        let bytes: uint8x16_t = vreinterpretq_u8_u32(x[k]);
        write128(bytes, state.split_at_mut(16 * k).1);
        proof {
            assert(state@ =~= before.subrange(0, 16 * k as int) + (bytes@ + before.skip(16 * k as int).skip(16)));
            assert forall|i: int| 0 <= i < 16 * (k + 1) implies state@[i] == bytes_of_words(x@[i / 16]@)[i % 16] by {
                if i < 16 * k {
                    assert(state@[i] == before[i]);
                } else {
                    assert(i / 16 == k && i % 16 == i - 16 * k);
                    assert(state@[i] == bytes@[i - 16 * k]);
                }
            }
        }
        k += 1;
    }
    proof {
        lemma_bytes_of_registers_u32(state@, x@);
    }
}

/// Reads a buffer into registers of 64-bit lanes, sixteen bytes to a
/// register.
pub fn load_registers(state: &[u8], x: &mut [uint64x2_t])
    requires
        state@.len() == 16 * old(x)@.len(),
    ensures
        final(x)@.len() == old(x)@.len(),
        lanes64_of(final(x)@) == words64_of_bytes(state@),
{
    let n: usize = x.len();
    let size: usize = state.len();
    let mut k: usize = 0;
    while k < n
        invariant
            k <= n,
            n == x@.len(),
            state@.len() == size,
            size == 16 * n,
            forall|j: int| 0 <= j < k ==> (#[trigger] x@[j])@ == words64_of_bytes(state@.subrange(16 * j, 16 * j + 16)),
        decreases n - k,
    {
        let r: uint64x2_t = vreinterpretq_u64_u8(read128(&state[16 * k..16 * k + 16]));
        x[k] = r;
        k += 1;
    }
    proof {
        assert forall|i: int| 0 <= i < 2 * n implies lanes64_of(x@)[i] == words64_of_bytes(state@)[i] by {
            let j = i / 2;
            assert(x@[j]@ == words64_of_bytes(state@.subrange(16 * j, 16 * j + 16)));
            assert(x@[j]@[i % 2] == word64_at(state@.subrange(16 * j, 16 * j + 16), 8 * (i % 2)));
        }
        assert(lanes64_of(x@) =~= words64_of_bytes(state@));
    }
}

/// A buffer that holds, sixteen bytes to a register, the bytes of every
/// register holds the bytes of the lanes of all registers.
pub proof fn lemma_bytes_of_registers(out: Seq<u8>, x: Seq<[u64; 2]>)
    requires
        out.len() == 16 * x.len(),
        forall|i: int| 0 <= i < out.len() ==> out[i] == bytes_of_words64(x[i / 16]@)[i % 16],
    ensures
        out == bytes_of_words64(lanes64_of(x)),
{
    assert forall|i: int| 0 <= i < out.len() implies out[i] == bytes_of_words64(lanes64_of(x))[i] by {
        let k = i / 16;
        let m = i % 16;
        assert(i == 16 * k + m);
        assert(i / 8 == 2 * k + m / 8 && i % 8 == m % 8);
        assert((i / 8) / 2 == k && (i / 8) % 2 == m / 8);
    }
    assert(out =~= bytes_of_words64(lanes64_of(x)));
}

/// Writes registers of 64-bit lanes to a buffer, sixteen bytes from a
/// register.
pub fn store_registers(x: &[[u64; 2]], state: &mut [u8])
    requires
        old(state)@.len() == 16 * x@.len(),
    ensures
        final(state)@ == bytes_of_words64(lanes64_of(x@)),
{
    let n: usize = x.len();
    let size: usize = state.len();
    let mut k: usize = 0;
    while k < n
        invariant
            k <= n,
            n == x@.len(),
            state@.len() == size,
            size == 16 * n,
            forall|i: int| 0 <= i < 16 * k ==> state@[i] == bytes_of_words64(x@[i / 16]@)[i % 16],
        decreases n - k,
    {
        let ghost before = state@;
        let bytes: uint8x16_t = vreinterpretq_u8_u64(x[k]);
        write128(bytes, state.split_at_mut(16 * k).1);
        proof {
            assert(state@ =~= before.subrange(0, 16 * k as int) + (bytes@ + before.skip(16 * k as int).skip(16)));
            assert forall|i: int| 0 <= i < 16 * (k + 1) implies state@[i] == bytes_of_words64(x@[i / 16]@)[i % 16] by {
                if i < 16 * k {
                    assert(state@[i] == before[i]);
                } else {
                    assert(i / 16 == k && i % 16 == i - 16 * k);
                    assert(state@[i] == bytes@[i - 16 * k]);
                }
            }
        }
        k += 1;
    }
    proof {
        lemma_bytes_of_registers(state@, x@);
    }
}

/// A 64-bit word is made of its two halves.
pub proof fn lemma_word_of_halves(x: u64)
    by (bit_vector)
    ensures
        ((x as u32) as u64) | ((((x >> 32) as u32) as u64) << 32) == x,
{
}

/// The halves of a 64-bit word made of two 32-bit words are those words.
pub proof fn lemma_halves_of_word(lo: u32, hi: u32)
    by (bit_vector)
    ensures
        (((lo as u64) | ((hi as u64) << 32)) as u32) == lo,
        ((((lo as u64) | ((hi as u64) << 32)) >> 32) as u32) == hi,
{
}

/// Four states from block-major registers, three registers to a state and one
/// plane to a register, to lane-major registers: register `w` of the result
/// holds word `w` of the four states.
pub fn to_lane_major_x4(x: &[uint64x2_t; 12]) -> (z: [uint32x4_t; 12])
    ensures
        lanes_of(z@) == lane_major(halves_of(x@), 12, 4),
{
    let y: [uint32x4_t; 12] = [
        vreinterpretq_u32_u64(vtrn1q_u64(x[0], x[6])),
        vreinterpretq_u32_u64(vtrn1q_u64(x[1], x[7])),
        vreinterpretq_u32_u64(vtrn1q_u64(x[2], x[8])),
        vreinterpretq_u32_u64(vtrn1q_u64(x[3], x[9])),
        vreinterpretq_u32_u64(vtrn1q_u64(x[4], x[10])),
        vreinterpretq_u32_u64(vtrn1q_u64(x[5], x[11])),
        vreinterpretq_u32_u64(vtrn2q_u64(x[0], x[6])),
        vreinterpretq_u32_u64(vtrn2q_u64(x[1], x[7])),
        vreinterpretq_u32_u64(vtrn2q_u64(x[2], x[8])),
        vreinterpretq_u32_u64(vtrn2q_u64(x[3], x[9])),
        vreinterpretq_u32_u64(vtrn2q_u64(x[4], x[10])),
        vreinterpretq_u32_u64(vtrn2q_u64(x[5], x[11])),
    ];
    let z: [uint32x4_t; 12] = [
        vtrn1q_u32(y[0], y[3]),
        vtrn2q_u32(y[0], y[3]),
        vtrn1q_u32(y[6], y[9]),
        vtrn2q_u32(y[6], y[9]),
        vtrn1q_u32(y[1], y[4]),
        vtrn2q_u32(y[1], y[4]),
        vtrn1q_u32(y[7], y[10]),
        vtrn2q_u32(y[7], y[10]),
        vtrn1q_u32(y[2], y[5]),
        vtrn2q_u32(y[2], y[5]),
        vtrn1q_u32(y[8], y[11]),
        vtrn2q_u32(y[8], y[11]),
    ];
    proof {
        let s = halves_of(x@);
        let t = lane_major(s, 12, 4);
        assert forall|i: int| 0 <= i < 48 implies lanes_of(z@)[i] == t[i] by {
            let w = i / 4;
            let k = i % 4;
            assert(i == 4 * w + k);
            assert(t[i] == s[12 * k + w]);
        }
        assert(lanes_of(z@) =~= t);
    }
    z
}

/// Four states from lane-major registers back to block-major registers.
pub fn to_block_major_x4(z: &[uint32x4_t; 12]) -> (x: [uint64x2_t; 12])
    ensures
        halves_of(x@) == block_major(lanes_of(z@), 12, 4),
{
    let u: [uint64x2_t; 12] = [
        vreinterpretq_u64_u32(vtrn1q_u32(z[0], z[1])),
        vreinterpretq_u64_u32(vtrn1q_u32(z[4], z[5])),
        vreinterpretq_u64_u32(vtrn1q_u32(z[8], z[9])),
        vreinterpretq_u64_u32(vtrn2q_u32(z[0], z[1])),
        vreinterpretq_u64_u32(vtrn2q_u32(z[4], z[5])),
        vreinterpretq_u64_u32(vtrn2q_u32(z[8], z[9])),
        vreinterpretq_u64_u32(vtrn1q_u32(z[2], z[3])),
        vreinterpretq_u64_u32(vtrn1q_u32(z[6], z[7])),
        vreinterpretq_u64_u32(vtrn1q_u32(z[10], z[11])),
        vreinterpretq_u64_u32(vtrn2q_u32(z[2], z[3])),
        vreinterpretq_u64_u32(vtrn2q_u32(z[6], z[7])),
        vreinterpretq_u64_u32(vtrn2q_u32(z[10], z[11])),
    ];
    let x: [uint64x2_t; 12] = [
        vtrn1q_u64(u[0], u[6]),
        vtrn1q_u64(u[1], u[7]),
        vtrn1q_u64(u[2], u[8]),
        vtrn1q_u64(u[3], u[9]),
        vtrn1q_u64(u[4], u[10]),
        vtrn1q_u64(u[5], u[11]),
        vtrn2q_u64(u[0], u[6]),
        vtrn2q_u64(u[1], u[7]),
        vtrn2q_u64(u[2], u[8]),
        vtrn2q_u64(u[3], u[9]),
        vtrn2q_u64(u[4], u[10]),
        vtrn2q_u64(u[5], u[11]),
    ];
    proof {
        let t = lanes_of(z@);
        let s = block_major(t, 12, 4);
        assert forall|i: int| 0 <= i < 48 implies halves_of(x@)[i] == s[i] by {
            let k = i / 12;
            let w = i % 12;
            assert(s[i] == t[4 * w + k]);
            lemma_halves_of_word(z@[w - w % 2]@[k], z@[w - w % 2 + 1]@[k]);
        }
        assert(halves_of(x@) =~= s);
    }
    x
}

/// Registers that hold the same 32-bit words as halves are the same
/// registers.
pub proof fn lemma_halves_determine_registers(x: Seq<[u64; 2]>, y: Seq<[u64; 2]>)
    requires
        x.len() == y.len(),
        halves_of(x) == halves_of(y),
    ensures
        x == y,
{
    assert forall|k: int| 0 <= k < x.len() implies x[k] == y[k] by {
        assert forall|l: int| 0 <= l < 2 implies x[k]@[l] == y[k]@[l] by {
            let i = 4 * k + 2 * l;
            assert(i / 4 == k && (i % 4) / 2 == l && i % 2 == 0);
            assert((i + 1) / 4 == k && ((i + 1) % 4) / 2 == l && (i + 1) % 2 == 1);
            assert(halves_of(x)[i] == low32(x[k]@[l]));
            assert(halves_of(y)[i] == low32(y[k]@[l]));
            assert(halves_of(x)[i + 1] == high32(x[k]@[l]));
            assert(halves_of(y)[i + 1] == high32(y[k]@[l]));
            lemma_word_of_halves(x[k]@[l]);
            lemma_word_of_halves(y[k]@[l]);
        }
        assert(x[k] =~= y[k]);
    }
    assert(x =~= y);
}

/// Registers that hold the same 64-bit lanes are the same registers.
pub proof fn lemma_lanes64_determine_registers(x: Seq<[u64; 2]>, y: Seq<[u64; 2]>)
    requires
        x.len() == y.len(),
        lanes64_of(x) == lanes64_of(y),
    ensures
        x == y,
{
    assert forall|k: int| 0 <= k < x.len() implies x[k] == y[k] by {
        assert(lanes64_of(x)[2 * k] == x[k]@[0]);
        assert(lanes64_of(y)[2 * k] == y[k]@[0]);
        assert(lanes64_of(x)[2 * k + 1] == x[k]@[1]);
        assert(lanes64_of(y)[2 * k + 1] == y[k]@[1]);
        assert(x[k] =~= y[k]);
    }
    assert(x =~= y);
}

/// Registers of four states taken to lane-major order and back are the
/// registers that were given.
pub proof fn lemma_registers_round_trip(x: Seq<[u64; 2]>, z: Seq<[u32; 4]>, y: Seq<[u64; 2]>)
    requires
        x.len() == 12,
        y.len() == 12,
        lanes_of(z) == lane_major(halves_of(x), 12, 4),
        halves_of(y) == block_major(lanes_of(z), 12, 4),
    ensures
        y == x,
{
    lemma_block_major_of_lane_major(halves_of(x), 12, 4);
    lemma_halves_determine_registers(x, y);
}

/// Registers of two states taken to lane-major order and back are the
/// registers that were given.
pub proof fn lemma_registers64_round_trip(x: Seq<[u64; 2]>, z: Seq<[u64; 2]>, y: Seq<[u64; 2]>)
    requires
        x.len() == 6,
        y.len() == 6,
        lanes64_of(z) == lane_major(lanes64_of(x), 6, 2),
        lanes64_of(y) == block_major(lanes64_of(z), 6, 2),
    ensures
        y == x,
{
    lemma_block_major_of_lane_major(lanes64_of(x), 6, 2);
    lemma_lanes64_determine_registers(x, y);
}

/// The words of the state that lane `k` of six registers holds, register `w`
/// holding word `w`.
pub open spec fn state_of_lane64(z: Seq<[u64; 2]>, k: int) -> Seq<u64> {
    Seq::new(6, |w: int| z[w]@[k])
}

/// With lane-major registers, lane `k` holds the words of block `k`.
pub proof fn lemma_state_of_lane64_loaded(z: Seq<[u64; 2]>, s: Seq<u64>, k: int)
    requires
        z.len() == 6,
        s.len() == 12,
        lanes64_of(z) == lane_major(s, 6, 2),
        0 <= k < 2,
    ensures
        state_of_lane64(z, k) == s.subrange(6 * k, 6 * k + 6),
{
    assert forall|w: int| 0 <= w < 6 implies state_of_lane64(z, k)[w] == s[6 * k + w] by {
        assert(lanes64_of(z)[2 * w + k] == z[w]@[k]);
    }
    assert(state_of_lane64(z, k) =~= s.subrange(6 * k, 6 * k + 6));
}

/// Block `k` of the block-major order of lane-major registers holds the words
/// of lane `k`.
pub proof fn lemma_state_of_lane64_stored(z: Seq<[u64; 2]>, s: Seq<u64>, k: int)
    requires
        z.len() == 6,
        s == block_major(lanes64_of(z), 6, 2),
        0 <= k < 2,
    ensures
        s.subrange(6 * k, 6 * k + 6) == state_of_lane64(z, k),
{
    assert forall|w: int| 0 <= w < 6 implies state_of_lane64(z, k)[w] == s[6 * k + w] by {
        assert(lanes64_of(z)[2 * w + k] == z[w]@[k]);
    }
    assert(state_of_lane64(z, k) =~= s.subrange(6 * k, 6 * k + 6));
}

/// Two states from block-major registers, three registers to a state and one
/// plane to a register, to lane-major registers: register `w` of the result
/// holds 64-bit word `w` of the two states.
pub fn to_lane_major64_x2(x: &[uint64x2_t; 6]) -> (z: [uint64x2_t; 6])
    ensures
        lanes64_of(z@) == lane_major(lanes64_of(x@), 6, 2),
{
    let z: [uint64x2_t; 6] = [
        vtrn1q_u64(x[0], x[3]),
        vtrn2q_u64(x[0], x[3]),
        vtrn1q_u64(x[1], x[4]),
        vtrn2q_u64(x[1], x[4]),
        vtrn1q_u64(x[2], x[5]),
        vtrn2q_u64(x[2], x[5]),
    ];
    proof {
        let s = lanes64_of(x@);
        let t = lane_major(s, 6, 2);
        assert forall|i: int| 0 <= i < 12 implies lanes64_of(z@)[i] == t[i] by {
            let w = i / 2;
            let k = i % 2;
            assert(t[i] == s[6 * k + w]);
        }
        assert(lanes64_of(z@) =~= t);
    }
    z
}

/// Two states from lane-major registers back to block-major registers.
pub fn to_block_major64_x2(z: &[uint64x2_t; 6]) -> (x: [uint64x2_t; 6])
    ensures
        lanes64_of(x@) == block_major(lanes64_of(z@), 6, 2),
{
    let x: [uint64x2_t; 6] = [
        vtrn1q_u64(z[0], z[1]),
        vtrn1q_u64(z[2], z[3]),
        vtrn1q_u64(z[4], z[5]),
        vtrn2q_u64(z[0], z[1]),
        vtrn2q_u64(z[2], z[3]),
        vtrn2q_u64(z[4], z[5]),
    ];
    proof {
        let t = lanes64_of(z@);
        let s = block_major(t, 6, 2);
        assert forall|i: int| 0 <= i < 12 implies lanes64_of(x@)[i] == s[i] by {
            let k = i / 6;
            let w = i % 6;
            assert(s[i] == t[2 * w + k]);
        }
        assert(lanes64_of(x@) =~= s);
    }
    x
}

/// Four states, as two pairs, from block-major registers to lane-major
/// registers: registers 0 to 5 of the result hold the words of states 0 and
/// 1, registers 6 to 11 those of states 2 and 3.
pub fn to_lane_major64_x4(x: &[uint64x2_t; 12]) -> (z: [uint64x2_t; 12])
    ensures
        lanes64_of(z@.subrange(0, 6)) == lane_major(lanes64_of(x@.subrange(0, 6)), 6, 2),
        lanes64_of(z@.subrange(6, 12)) == lane_major(lanes64_of(x@.subrange(6, 12)), 6, 2),
{
    let z: [uint64x2_t; 12] = [
        vtrn1q_u64(x[0], x[3]),
        vtrn2q_u64(x[0], x[3]),
        vtrn1q_u64(x[1], x[4]),
        vtrn2q_u64(x[1], x[4]),
        vtrn1q_u64(x[2], x[5]),
        vtrn2q_u64(x[2], x[5]),
        vtrn1q_u64(x[6], x[9]),
        vtrn2q_u64(x[6], x[9]),
        vtrn1q_u64(x[7], x[10]),
        vtrn2q_u64(x[7], x[10]),
        vtrn1q_u64(x[8], x[11]),
        vtrn2q_u64(x[8], x[11]),
    ];
    proof {
        let s0 = lanes64_of(x@.subrange(0, 6));
        let t0 = lane_major(s0, 6, 2);
        assert forall|i: int| 0 <= i < 12 implies lanes64_of(z@.subrange(0, 6))[i] == t0[i] by {
            let w = i / 2;
            let k = i % 2;
            assert(t0[i] == s0[6 * k + w]);
        }
        assert(lanes64_of(z@.subrange(0, 6)) =~= t0);
        let s1 = lanes64_of(x@.subrange(6, 12));
        let t1 = lane_major(s1, 6, 2);
        assert forall|i: int| 0 <= i < 12 implies lanes64_of(z@.subrange(6, 12))[i] == t1[i] by {
            let w = i / 2;
            let k = i % 2;
            assert(t1[i] == s1[6 * k + w]);
        }
        assert(lanes64_of(z@.subrange(6, 12)) =~= t1);
    }
    z
}

/// Four states, as two pairs, from lane-major registers back to block-major
/// registers.
pub fn to_block_major64_x4(z: &[uint64x2_t; 12]) -> (x: [uint64x2_t; 12])
    ensures
        lanes64_of(x@.subrange(0, 6)) == block_major(lanes64_of(z@.subrange(0, 6)), 6, 2),
        lanes64_of(x@.subrange(6, 12)) == block_major(lanes64_of(z@.subrange(6, 12)), 6, 2),
{
    let x: [uint64x2_t; 12] = [
        vtrn1q_u64(z[0], z[1]),
        vtrn1q_u64(z[2], z[3]),
        vtrn1q_u64(z[4], z[5]),
        vtrn2q_u64(z[0], z[1]),
        vtrn2q_u64(z[2], z[3]),
        vtrn2q_u64(z[4], z[5]),
        vtrn1q_u64(z[6], z[7]),
        vtrn1q_u64(z[8], z[9]),
        vtrn1q_u64(z[10], z[11]),
        vtrn2q_u64(z[6], z[7]),
        vtrn2q_u64(z[8], z[9]),
        vtrn2q_u64(z[10], z[11]),
    ];
    proof {
        let t0 = lanes64_of(z@.subrange(0, 6));
        let s0 = block_major(t0, 6, 2);
        assert forall|i: int| 0 <= i < 12 implies lanes64_of(x@.subrange(0, 6))[i] == s0[i] by {
            let k = i / 6;
            let w = i % 6;
            assert(s0[i] == t0[2 * w + k]);
        }
        assert(lanes64_of(x@.subrange(0, 6)) =~= s0);
        let t1 = lanes64_of(z@.subrange(6, 12));
        let s1 = block_major(t1, 6, 2);
        assert forall|i: int| 0 <= i < 12 implies lanes64_of(x@.subrange(6, 12))[i] == s1[i] by {
            let k = i / 6;
            let w = i % 6;
            assert(s1[i] == t1[2 * w + k]);
        }
        assert(lanes64_of(x@.subrange(6, 12)) =~= s1);
    }
    x
}

} // verus!
