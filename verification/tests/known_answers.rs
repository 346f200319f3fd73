use xoodoo::{
    xoodoo64_aarch64_sha3, xoodoo64_aarch64_sha3_x2, xoodoo64_aarch64_sha3_x4, xoodoo64_scalar,
    xoodoo64_scalar_x2, xoodoo64_scalar_x4, xoodoo_aarch64, xoodoo_aarch64_sha3, xoodoo_aarch64_sha3_x2,
    xoodoo_aarch64_sha3_x4, xoodoo_aarch64_x2, xoodoo_aarch64_x4, xoodoo_scalar, xoodoo_scalar_x2,
    xoodoo_scalar_x4,
};

/// What the permutation on 32-bit words makes of the all-zero state.
const ZERO_GOLDEN: [u8; 48] = [
    225, 172, 210, 169, 172, 231, 204, 76, 106, 100, 131, 43, 3, 62, 85, 24,
    121, 242, 224, 76, 111, 130, 135, 29, 60, 14, 155, 126, 33, 192, 142, 137,
    91, 7, 66, 114, 249, 239, 21, 133, 216, 100, 83, 137, 161, 100, 70, 156,
];

/// What the permutation on 32-bit words makes of the bytes 0, 1, ..., 47.
const COUNT_GOLDEN: [u8; 48] = [
    207, 190, 90, 23, 9, 241, 145, 52, 196, 224, 154, 199, 200, 7, 251, 30,
    151, 31, 165, 160, 130, 135, 105, 51, 16, 59, 40, 201, 123, 49, 216, 89,
    37, 198, 130, 0, 136, 98, 147, 182, 81, 112, 194, 100, 46, 1, 131, 105,
];

/// What the permutation on 64-bit words makes of the all-zero state.
const ZERO_GOLDEN_64: [u8; 48] = [
    3, 41, 3, 196, 45, 202, 60, 29, 43, 44, 15, 123, 156, 198, 126, 50,
    162, 240, 58, 217, 185, 58, 114, 165, 241, 201, 29, 205, 115, 215, 83, 37,
    154, 147, 185, 225, 23, 220, 124, 97, 237, 132, 80, 235, 118, 201, 76, 175,
];

/// What the permutation on 64-bit words makes of the bytes 0, 1, ..., 47.
const COUNT_GOLDEN_64: [u8; 48] = [
    245, 159, 234, 159, 74, 200, 145, 206, 253, 2, 182, 253, 211, 189, 234, 230,
    83, 243, 47, 74, 187, 138, 174, 136, 55, 150, 18, 213, 45, 24, 254, 204,
    177, 1, 163, 49, 243, 205, 166, 56, 182, 137, 201, 150, 178, 216, 229, 12,
];

fn counting_state() -> [u8; 48] {
    let mut state = [0u8; 48];
    for i in 0..48 {
        state[i] = i as u8;
    }
    state
}

/// The all-zero state, the counting state, the counting state and the all-zero
/// state, one after the other.
fn four_states() -> [u8; 192] {
    let mut batch = [0u8; 192];
    batch[48..96].copy_from_slice(&counting_state());
    batch[96..144].copy_from_slice(&counting_state());
    batch
}

fn four_goldens(zero: &[u8; 48], count: &[u8; 48]) -> [u8; 192] {
    let mut batch = [0u8; 192];
    batch[0..48].copy_from_slice(zero);
    batch[48..96].copy_from_slice(count);
    batch[96..144].copy_from_slice(count);
    batch[144..192].copy_from_slice(zero);
    batch
}

fn two_states() -> [u8; 96] {
    let mut batch = [0u8; 96];
    batch[48..96].copy_from_slice(&counting_state());
    batch
}

fn two_goldens(zero: &[u8; 48], count: &[u8; 48]) -> [u8; 96] {
    let mut batch = [0u8; 96];
    batch[0..48].copy_from_slice(zero);
    batch[48..96].copy_from_slice(count);
    batch
}

#[test]
fn scalar_zero_state_known_answer() {
    let mut state = [0u8; 48];
    xoodoo_scalar(&mut state);
    assert_eq!(state, ZERO_GOLDEN);
}

#[test]
fn scalar_counting_state_known_answer() {
    let mut state = counting_state();
    xoodoo_scalar(&mut state);
    assert_eq!(state, COUNT_GOLDEN);
}

#[test]
fn vector_engines_reproduce_the_golden_vector() {
    let mut state = [0u8; 48];
    xoodoo_aarch64(&mut state);
    assert_eq!(state, ZERO_GOLDEN);
    let mut state = [0u8; 48];
    xoodoo_aarch64_sha3(&mut state);
    assert_eq!(state, ZERO_GOLDEN);
    let mut state = counting_state();
    xoodoo_aarch64(&mut state);
    assert_eq!(state, COUNT_GOLDEN);
    let mut state = counting_state();
    xoodoo_aarch64_sha3(&mut state);
    assert_eq!(state, COUNT_GOLDEN);
}

#[test]
fn batch_engines_reproduce_the_golden_vector() {
    let want2 = two_goldens(&ZERO_GOLDEN, &COUNT_GOLDEN);
    let want4 = four_goldens(&ZERO_GOLDEN, &COUNT_GOLDEN);
    let mut batch = two_states();
    xoodoo_scalar_x2(&mut batch);
    assert_eq!(batch, want2);
    let mut batch = two_states();
    xoodoo_aarch64_x2(&mut batch);
    assert_eq!(batch, want2);
    let mut batch = two_states();
    xoodoo_aarch64_sha3_x2(&mut batch);
    assert_eq!(batch, want2);
    let mut batch = four_states();
    xoodoo_scalar_x4(&mut batch);
    assert_eq!(batch, want4);
    let mut batch = four_states();
    xoodoo_aarch64_x4(&mut batch);
    assert_eq!(batch, want4);
    let mut batch = four_states();
    xoodoo_aarch64_sha3_x4(&mut batch);
    assert_eq!(batch, want4);
}

#[test]
fn scalar64_zero_state_known_answer() {
    let mut state = [0u8; 48];
    xoodoo64_scalar(&mut state);
    assert_eq!(state, ZERO_GOLDEN_64);
}

#[test]
fn scalar64_counting_state_known_answer() {
    let mut state = counting_state();
    xoodoo64_scalar(&mut state);
    assert_eq!(state, COUNT_GOLDEN_64);
}

#[test]
fn vector64_engine_reproduces_the_golden_vector() {
    let mut state = [0u8; 48];
    xoodoo64_aarch64_sha3(&mut state);
    assert_eq!(state, ZERO_GOLDEN_64);
    let mut state = counting_state();
    xoodoo64_aarch64_sha3(&mut state);
    assert_eq!(state, COUNT_GOLDEN_64);
}

#[test]
fn batch64_engines_reproduce_the_golden_vector() {
    let want2 = two_goldens(&ZERO_GOLDEN_64, &COUNT_GOLDEN_64);
    let want4 = four_goldens(&ZERO_GOLDEN_64, &COUNT_GOLDEN_64);
    let mut batch = two_states();
    xoodoo64_scalar_x2(&mut batch);
    assert_eq!(batch, want2);
    let mut batch = two_states();
    xoodoo64_aarch64_sha3_x2(&mut batch);
    assert_eq!(batch, want2);
    let mut batch = four_states();
    xoodoo64_scalar_x4(&mut batch);
    assert_eq!(batch, want4);
    let mut batch = four_states();
    xoodoo64_aarch64_sha3_x4(&mut batch);
    assert_eq!(batch, want4);
}

#[test]
fn the_two_word_widths_are_different_permutations() {
    let mut narrow = [0u8; 48];
    xoodoo_scalar(&mut narrow);
    let mut wide = [0u8; 48];
    xoodoo64_scalar(&mut wide);
    assert_ne!(narrow, wide);
}

#[test]
fn permuting_twice_differs_from_permuting_once() {
    let mut once = [0u8; 48];
    xoodoo_scalar(&mut once);
    let mut twice = once;
    xoodoo_scalar(&mut twice);
    assert_eq!(twice, TWICE_GOLDEN);
    assert_ne!(once, twice);
}

/// What two calls of the permutation on 32-bit words make of the all-zero
/// state.
const TWICE_GOLDEN: [u8; 48] = [
    6, 241, 54, 113, 121, 107, 47, 136, 105, 157, 8, 94, 73, 65, 48, 122,
    10, 229, 169, 41, 12, 73, 62, 181, 222, 11, 45, 193, 49, 62, 218, 209,
    165, 175, 178, 143, 119, 116, 255, 203, 61, 154, 196, 22, 160, 187, 143, 0,
];
