//! Bit rotations on 32-bit and 64-bit words.
use vstd::prelude::*;

verus! {

/// `x` rotated left by `n` bits; the amount counts modulo 32.
pub open spec fn rotl32(x: u32, n: u32) -> u32 {
    if n % 32 == 0 {
        x
    } else {
        (x << (n % 32)) | (x >> ((32 - n % 32) as u32))
    }
}

/// `x` rotated left by `n` bits; the amount counts modulo 64.
pub open spec fn rotl64(x: u64, n: u32) -> u64 {
    if n % 64 == 0 {
        x
    } else {
        (x << (n % 64)) | (x >> ((64 - n % 64) as u32))
    }
}

/// `x` rotated right by `n` bits; the amount counts modulo 64.
pub open spec fn rotr64(x: u64, n: u32) -> u64 {
    if n % 64 == 0 {
        x
    } else {
        (x >> (n % 64)) | (x << ((64 - n % 64) as u32))
    }
}

/// Rotates a 32-bit word left by `n` bits.
#[inline(always)]
pub fn rotate_left32(x: u32, n: u32) -> (r: u32)
    ensures
        r == rotl32(x, n),
{
    let k: u32 = n % 32;
    if k == 0 {
        x
    } else {
        (x << k) | (x >> (32 - k))
    }
}

/// Rotates a 64-bit word left by `n` bits.
#[inline(always)]
pub fn rotate_left64(x: u64, n: u32) -> (r: u64)
    ensures
        r == rotl64(x, n),
{
    let k: u32 = n % 64;
    if k == 0 {
        x
    } else {
        (x << k) | (x >> (64 - k))
    }
}

/// Rotates a 64-bit word right by `n` bits.
#[inline(always)]
pub fn rotate_right64(x: u64, n: u32) -> (r: u64)
    ensures
        r == rotr64(x, n),
{
    let k: u32 = n % 64;
    if k == 0 {
        x
    } else {
        (x >> k) | (x << (64 - k))
    }
}

} // verus!
