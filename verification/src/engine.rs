//! One interface to every engine: `permute_1`, `permute_2` and `permute_4`
//! take the engine to use and a buffer of one, two or four states.
//!
//! What a call leaves in the buffer depends on the engine through its word
//! width alone: engines of one width can stand for each other.
use crate::aarch64::{xoodoo_aarch64, xoodoo_aarch64_x2, xoodoo_aarch64_x4};
use crate::aarch64_sha3::{xoodoo_aarch64_sha3, xoodoo_aarch64_sha3_x2, xoodoo_aarch64_sha3_x4};
use crate::aarch64_sha3_64::{xoodoo64_aarch64_sha3, xoodoo64_aarch64_sha3_x2, xoodoo64_aarch64_sha3_x4};
use crate::permutation::{permutation, permutation_batch};
use crate::permutation64::{permutation64, permutation64_batch};
use crate::scalar::{xoodoo_scalar, xoodoo_scalar_x2, xoodoo_scalar_x4};
use crate::scalar64::{xoodoo64_scalar, xoodoo64_scalar_x2, xoodoo64_scalar_x4};
use vstd::prelude::*;

verus! {

/// The engines.
#[derive(Clone, Copy, Debug, PartialEq, Eq, Structural)]
pub enum Engine {
    /// Scalar code on 32-bit words.
    Scalar,
    /// Vector registers of 32-bit lanes, two-input operations.
    Vector,
    /// Vector registers of 32-bit lanes, three-input XOR and fused
    /// bit-clear-and-XOR.
    VectorFused,
    /// Scalar code on 64-bit words.
    Scalar64,
    /// Vector registers of 64-bit lanes, three-input XOR, fused
    /// bit-clear-and-XOR and fused XOR-and-rotate.
    VectorFused64,
}

impl Engine {
    /// Whether the engine computes the permutation on 64-bit words.
    pub open spec fn wide(self) -> bool {
        self == Engine::Scalar64 || self == Engine::VectorFused64
    }

    /// Whether the engine computes the permutation on 64-bit words.
    pub fn is_wide(self) -> (r: bool)
        ensures
            r == self.wide(),
    {
        match self {
            Engine::Scalar64 | Engine::VectorFused64 => true,
            Engine::Scalar | Engine::Vector | Engine::VectorFused => false,
        }
    }
}

/// What an engine makes of one state.
pub open spec fn permuted(engine: Engine, b: Seq<u8>) -> Seq<u8> {
    if engine.wide() {
        permutation64(b)
    } else {
        permutation(b)
    }
}

/// What an engine makes of a batch of `n` states.
pub open spec fn permuted_batch(engine: Engine, b: Seq<u8>, n: nat) -> Seq<u8> {
    if engine.wide() {
        permutation64_batch(b, n)
    } else {
        permutation_batch(b, n)
    }
}

/// Permutes one state in place with the given engine.
pub fn permute_1(engine: Engine, buffer: &mut [u8; 48])
    ensures
        final(buffer)@ == permuted(engine, old(buffer)@),
{
    match engine {
        Engine::Scalar => xoodoo_scalar(buffer),
        Engine::Vector => xoodoo_aarch64(buffer),
        Engine::VectorFused => xoodoo_aarch64_sha3(buffer),
        Engine::Scalar64 => xoodoo64_scalar(buffer),
        Engine::VectorFused64 => xoodoo64_aarch64_sha3(buffer),
    }
}

/// Permutes two states, laid out one after the other, in place with the
/// given engine.
pub fn permute_2(engine: Engine, buffer: &mut [u8; 96])
    ensures
        final(buffer)@ == permuted_batch(engine, old(buffer)@, 2),
{
    match engine {
        Engine::Scalar => xoodoo_scalar_x2(buffer),
        Engine::Vector => xoodoo_aarch64_x2(buffer),
        Engine::VectorFused => xoodoo_aarch64_sha3_x2(buffer),
        Engine::Scalar64 => xoodoo64_scalar_x2(buffer),
        Engine::VectorFused64 => xoodoo64_aarch64_sha3_x2(buffer),
    }
}

/// Permutes four states, laid out one after the other, in place with the
/// given engine.
pub fn permute_4(engine: Engine, buffer: &mut [u8; 192])
    ensures
        final(buffer)@ == permuted_batch(engine, old(buffer)@, 4),
{
    match engine {
        Engine::Scalar => xoodoo_scalar_x4(buffer),
        Engine::Vector => xoodoo_aarch64_x4(buffer),
        Engine::VectorFused => xoodoo_aarch64_sha3_x4(buffer),
        Engine::Scalar64 => xoodoo64_scalar_x4(buffer),
        Engine::VectorFused64 => xoodoo64_aarch64_sha3_x4(buffer),
    }
}

} // verus!
