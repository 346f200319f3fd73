//! A portable model of the 128-bit vector operations that the vector engines
//! are written in.
//!
//! A register is an array of lanes: sixteen bytes, four 32-bit words or two
//! 64-bit words, lane 0 in the lowest bits. Every function is the lane-wise
//! definition of the Advanced SIMD instruction it is named after, so an
//! engine written against this module reads like the instruction sequence it
//! stands for, and what is proved of it is proved of that sequence.
use crate::bits::{rotate_right64, rotr64};
use crate::codec::{bytes_of_words, bytes_of_words64, words64_of_bytes, words_of_bytes};
use crate::codec::{bytes_to_words, bytes_to_words64, words64_to_bytes, words_to_bytes};
use vstd::prelude::*;

verus! {

/// A register of sixteen bytes.
#[allow(non_camel_case_types)]
pub type uint8x16_t = [u8; 16];

/// A register of four 32-bit lanes.
#[allow(non_camel_case_types)]
pub type uint32x4_t = [u32; 4];

/// A register of two 64-bit lanes.
#[allow(non_camel_case_types)]
pub type uint64x2_t = [u64; 2];

/// The bytes of a register of 32-bit lanes, each lane little-endian.
pub fn vreinterpretq_u8_u32(a: uint32x4_t) -> (r: uint8x16_t)
    ensures
        r@ == bytes_of_words(a@),
{
    let mut r = [0u8; 16];
    words_to_bytes(a.as_slice(), &mut r);
    r
}

/// The 32-bit lanes of a register of bytes, each lane little-endian.
pub fn vreinterpretq_u32_u8(a: uint8x16_t) -> (r: uint32x4_t)
    ensures
        r@ == words_of_bytes(a@),
{
    let mut r = [0u32; 4];
    bytes_to_words(a.as_slice(), &mut r);
    r
}

/// The bytes of a register of 64-bit lanes, each lane little-endian.
pub fn vreinterpretq_u8_u64(a: uint64x2_t) -> (r: uint8x16_t)
    ensures
        r@ == bytes_of_words64(a@),
{
    let mut r = [0u8; 16];
    words64_to_bytes(a.as_slice(), &mut r);
    r
}

/// The 64-bit lanes of a register of bytes, each lane little-endian.
pub fn vreinterpretq_u64_u8(a: uint8x16_t) -> (r: uint64x2_t)
    ensures
        r@ == words64_of_bytes(a@),
{
    let mut r = [0u64; 2];
    bytes_to_words64(a.as_slice(), &mut r);
    r
}

/// The 32-bit lanes of a register of 64-bit lanes: lane `2 * j` is the low
/// half of lane `j`, lane `2 * j + 1` its high half.
pub fn vreinterpretq_u32_u64(a: uint64x2_t) -> (r: uint32x4_t)
    ensures
        r@ == seq![a@[0] as u32, (a@[0] >> 32) as u32, a@[1] as u32, (a@[1] >> 32) as u32],
{
    let r: uint32x4_t = [a[0] as u32, (a[0] >> 32) as u32, a[1] as u32, (a[1] >> 32) as u32];
    assert(r@ =~= seq![a@[0] as u32, (a@[0] >> 32) as u32, a@[1] as u32, (a@[1] >> 32) as u32]);
    r
}

/// The 64-bit lanes of a register of 32-bit lanes: lane `j` has lane `2 * j`
/// as its low half and lane `2 * j + 1` as its high half.
pub fn vreinterpretq_u64_u32(a: uint32x4_t) -> (r: uint64x2_t)
    ensures
        r@ == seq![
            (a@[0] as u64) | ((a@[1] as u64) << 32),
            (a@[2] as u64) | ((a@[3] as u64) << 32),
        ],
{
    let r: uint64x2_t = [(a[0] as u64) | ((a[1] as u64) << 32), (a[2] as u64) | ((a[3] as u64) << 32)];
    assert(r@ =~= seq![
        (a@[0] as u64) | ((a@[1] as u64) << 32),
        (a@[2] as u64) | ((a@[3] as u64) << 32),
    ]);
    r
}

/// Table lookup: byte `i` of the result is the byte of `t` that `idx[i]`
/// selects, and 0 where `idx[i]` is 16 or more.
pub fn vqtbl1q_u8(t: uint8x16_t, idx: uint8x16_t) -> (r: uint8x16_t)
    ensures
        forall|i: int|
            0 <= i < 16 ==> #[trigger] r@[i] == (if idx@[i] < 16 {
                t@[idx@[i] as int]
            } else {
                0u8
            }),
{
    let mut r = [0u8; 16];
    let mut i: usize = 0;
    while i < 16
        invariant
            i <= 16,
            forall|j: int|
                0 <= j < i ==> #[trigger] r@[j] == (if idx@[j] < 16 {
                    t@[idx@[j] as int]
                } else {
                    0u8
                }),
        decreases 16 - i,
    {
        let k: u8 = idx[i];
        if k < 16 {
            r[i] = t[k as usize];
        } else {
            r[i] = 0;
        }
        i += 1;
    }
    r
}

/// Lane-wise XOR.
pub fn veorq_u32(a: uint32x4_t, b: uint32x4_t) -> (r: uint32x4_t)
    ensures
        forall|i: int| 0 <= i < 4 ==> #[trigger] r@[i] == a@[i] ^ b@[i],
{
    [a[0] ^ b[0], a[1] ^ b[1], a[2] ^ b[2], a[3] ^ b[3]]
}

/// Lane-wise XOR of three registers.
pub fn veor3q_u32(a: uint32x4_t, b: uint32x4_t, c: uint32x4_t) -> (r: uint32x4_t)
    ensures
        forall|i: int| 0 <= i < 4 ==> #[trigger] r@[i] == a@[i] ^ b@[i] ^ c@[i],
{
    [a[0] ^ b[0] ^ c[0], a[1] ^ b[1] ^ c[1], a[2] ^ b[2] ^ c[2], a[3] ^ b[3] ^ c[3]]
}

/// Lane-wise bit clear: `a` AND NOT `b`.
pub fn vbicq_u32(a: uint32x4_t, b: uint32x4_t) -> (r: uint32x4_t)
    ensures
        forall|i: int| 0 <= i < 4 ==> #[trigger] r@[i] == a@[i] & !b@[i],
{
    [a[0] & !b[0], a[1] & !b[1], a[2] & !b[2], a[3] & !b[3]]
}

/// Lane-wise bit clear and XOR: `a` XOR (`b` AND NOT `c`).
pub fn vbcaxq_u32(a: uint32x4_t, b: uint32x4_t, c: uint32x4_t) -> (r: uint32x4_t)
    ensures
        forall|i: int| 0 <= i < 4 ==> #[trigger] r@[i] == a@[i] ^ (b@[i] & !c@[i]),
{
    [a[0] ^ (b[0] & !c[0]), a[1] ^ (b[1] & !c[1]), a[2] ^ (b[2] & !c[2]), a[3] ^ (b[3] & !c[3])]
}

/// What a 32-bit lane becomes when it is shifted right by `n` bits, `n` from
/// 1 to 32.
pub open spec fn shr32(x: u32, n: u32) -> u32 {
    if n >= 32 {
        0
    } else {
        x >> n
    }
}

/// What shift-left-and-insert gives in one 32-bit lane: `b` shifted left by
/// `n` bits, its low `n` bits taken from `a`.
pub open spec fn sli32(a: u32, b: u32, n: u32) -> u32 {
    (b << n) | (a & !(0xffff_ffffu32 << n))
}

fn shift_right_lane(x: u32, n: u32) -> (r: u32)
    requires
        1 <= n <= 32,
    ensures
        r == shr32(x, n),
{
    if n >= 32 {
        0
    } else {
        x >> n
    }
}

fn shift_left_insert_lane(a: u32, b: u32, n: u32) -> (r: u32)
    requires
        n <= 31,
    ensures
        r == sli32(a, b, n),
{
    (b << n) | (a & !(0xffff_ffffu32 << n))
}

/// Lane-wise shift right by `n` bits.
pub fn vshrq_n_u32(a: uint32x4_t, n: u32) -> (r: uint32x4_t)
    requires
        1 <= n <= 32,
    ensures
        forall|i: int| 0 <= i < 4 ==> #[trigger] r@[i] == shr32(a@[i], n),
{
    [
        shift_right_lane(a[0], n),
        shift_right_lane(a[1], n),
        shift_right_lane(a[2], n),
        shift_right_lane(a[3], n),
    ]
}

/// Lane-wise shift left and insert: every lane of `b` shifted left by `n`
/// bits, its low `n` bits taken from the same lane of `a`.
pub fn vsliq_n_u32(a: uint32x4_t, b: uint32x4_t, n: u32) -> (r: uint32x4_t)
    requires
        n <= 31,
    ensures
        forall|i: int| 0 <= i < 4 ==> #[trigger] r@[i] == sli32(a@[i], b@[i], n),
{
    [
        shift_left_insert_lane(a[0], b[0], n),
        shift_left_insert_lane(a[1], b[1], n),
        shift_left_insert_lane(a[2], b[2], n),
        shift_left_insert_lane(a[3], b[3], n),
    ]
}

/// A register with every 32-bit lane set to `value`.
pub fn vdupq_n_u32(value: u32) -> (r: uint32x4_t)
    ensures
        forall|i: int| 0 <= i < 4 ==> #[trigger] r@[i] == value,
{
    [value, value, value, value]
}

/// `v` with lane `lane` set to `a`.
pub fn vsetq_lane_u32(a: u32, v: uint32x4_t, lane: usize) -> (r: uint32x4_t)
    requires
        lane < 4,
    ensures
        r@ == v@.update(lane as int, a),
{
    let mut r = v;
    r[lane] = a;
    r
}

/// Transpose, first half: lanes 0 and 2 of `a` and `b`, interleaved.
pub fn vtrn1q_u32(a: uint32x4_t, b: uint32x4_t) -> (r: uint32x4_t)
    ensures
        r@ == seq![a@[0], b@[0], a@[2], b@[2]],
{
    let r: uint32x4_t = [a[0], b[0], a[2], b[2]];
    assert(r@ =~= seq![a@[0], b@[0], a@[2], b@[2]]);
    r
}

/// Transpose, second half: lanes 1 and 3 of `a` and `b`, interleaved.
pub fn vtrn2q_u32(a: uint32x4_t, b: uint32x4_t) -> (r: uint32x4_t)
    ensures
        r@ == seq![a@[1], b@[1], a@[3], b@[3]],
{
    let r: uint32x4_t = [a[1], b[1], a[3], b[3]];
    assert(r@ =~= seq![a@[1], b@[1], a@[3], b@[3]]);
    r
}

/// Transpose, first half: lane 0 of `a`, then lane 0 of `b`.
pub fn vtrn1q_u64(a: uint64x2_t, b: uint64x2_t) -> (r: uint64x2_t)
    ensures
        r@ == seq![a@[0], b@[0]],
{
    let r: uint64x2_t = [a[0], b[0]];
    assert(r@ =~= seq![a@[0], b@[0]]);
    r
}

/// Transpose, second half: lane 1 of `a`, then lane 1 of `b`.
pub fn vtrn2q_u64(a: uint64x2_t, b: uint64x2_t) -> (r: uint64x2_t)
    ensures
        r@ == seq![a@[1], b@[1]],
{
    let r: uint64x2_t = [a[1], b[1]];
    assert(r@ =~= seq![a@[1], b@[1]]);
    r
}

/// Lane-wise XOR.
pub fn veorq_u64(a: uint64x2_t, b: uint64x2_t) -> (r: uint64x2_t)
    ensures
        forall|i: int| 0 <= i < 2 ==> #[trigger] r@[i] == a@[i] ^ b@[i],
{
    [a[0] ^ b[0], a[1] ^ b[1]]
}

/// Lane-wise XOR of three registers.
pub fn veor3q_u64(a: uint64x2_t, b: uint64x2_t, c: uint64x2_t) -> (r: uint64x2_t)
    ensures
        forall|i: int| 0 <= i < 2 ==> #[trigger] r@[i] == a@[i] ^ b@[i] ^ c@[i],
{
    [a[0] ^ b[0] ^ c[0], a[1] ^ b[1] ^ c[1]]
}

/// Lane-wise bit clear and XOR: `a` XOR (`b` AND NOT `c`).
pub fn vbcaxq_u64(a: uint64x2_t, b: uint64x2_t, c: uint64x2_t) -> (r: uint64x2_t)
    ensures
        forall|i: int| 0 <= i < 2 ==> #[trigger] r@[i] == a@[i] ^ (b@[i] & !c@[i]),
{
    [a[0] ^ (b[0] & !c[0]), a[1] ^ (b[1] & !c[1])]
}

/// Lane-wise XOR and rotate: `a` XOR `b`, rotated right by `n` bits.
pub fn vxarq_u64(a: uint64x2_t, b: uint64x2_t, n: u32) -> (r: uint64x2_t)
    requires
        n <= 63,
    ensures
        forall|i: int| 0 <= i < 2 ==> #[trigger] r@[i] == rotr64(a@[i] ^ b@[i], n),
{
    [rotate_right64(a[0] ^ b[0], n), rotate_right64(a[1] ^ b[1], n)]
}

/// A register with every 64-bit lane set to `value`.
pub fn vdupq_n_u64(value: u64) -> (r: uint64x2_t)
    ensures
        forall|i: int| 0 <= i < 2 ==> #[trigger] r@[i] == value,
{
    [value, value]
}

/// `v` with lane `lane` set to `a`.
pub fn vsetq_lane_u64(a: u64, v: uint64x2_t, lane: usize) -> (r: uint64x2_t)
    requires
        lane < 2,
    ensures
        r@ == v@.update(lane as int, a),
{
    let mut r = v;
    r[lane] = a;
    r
}

} // verus!
