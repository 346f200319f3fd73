//! The Xoodoo permutation on a 384-bit state, in several formulations that
//! are proved to compute the same function: scalar code on 32-bit words, code
//! on 128-bit vector registers, and variants that advance two or four
//! independent states in one call. A second permutation of the same shape on
//! 64-bit words comes with the same kinds of engine.
//!
//! Every engine takes a buffer of 48, 96 or 192 bytes and permutes it in
//! place. The contract of an engine says which bytes it leaves: those of
//! [`permutation::permutation`] or [`permutation64::permutation64`], applied
//! to every 48-byte block of the buffer on its own. [`engine`] offers all of
//! them behind one interface, and [`laws`] states what holds of them taken
//! together.
pub mod aarch64;
pub mod aarch64_sha3;
pub mod aarch64_sha3_64;
pub mod batch;
pub mod bits;
pub mod codec;
pub mod engine;
pub mod laws;
pub mod layout;
pub mod neon;
pub mod permutation;
pub mod permutation64;
pub mod scalar;
pub mod scalar64;
pub mod transpose;

pub use aarch64::{xoodoo_aarch64, xoodoo_aarch64_x2, xoodoo_aarch64_x4};
pub use aarch64_sha3::{xoodoo_aarch64_sha3, xoodoo_aarch64_sha3_x2, xoodoo_aarch64_sha3_x4};
pub use aarch64_sha3_64::{xoodoo64_aarch64_sha3, xoodoo64_aarch64_sha3_x2, xoodoo64_aarch64_sha3_x4};
pub use codec::{read128, read32, read64, write128, write32, write64};
pub use engine::{permute_1, permute_2, permute_4, Engine};
pub use permutation::ROUND_KEYS;
pub use scalar::{xoodoo_scalar, xoodoo_scalar_x2, xoodoo_scalar_x4};
pub use scalar64::{xoodoo64_scalar, xoodoo64_scalar_x2, xoodoo64_scalar_x4};
