use xoodoo::{
    permute_1, permute_2, permute_4, xoodoo64_aarch64_sha3, xoodoo64_aarch64_sha3_x2,
    xoodoo64_aarch64_sha3_x4, xoodoo64_scalar, xoodoo64_scalar_x2, xoodoo64_scalar_x4, xoodoo_aarch64,
    xoodoo_aarch64_sha3, xoodoo_aarch64_sha3_x2, xoodoo_aarch64_sha3_x4, xoodoo_aarch64_x2, xoodoo_aarch64_x4,
    xoodoo_scalar, xoodoo_scalar_x2, xoodoo_scalar_x4, Engine,
};

const ENGINES: [Engine; 5] =
    [Engine::Scalar, Engine::Vector, Engine::VectorFused, Engine::Scalar64, Engine::VectorFused64];

fn sample<const N: usize>(seed: u8) -> [u8; N] {
    let mut out = [0u8; N];
    let mut x: u32 = 0x9e37_79b9 ^ seed as u32;
    for byte in out.iter_mut() {
        x = x.wrapping_mul(1664525).wrapping_add(1013904223);
        *byte = (x >> 24) as u8;
    }
    out
}

#[test]
fn engines_are_told_apart_by_width() {
    assert!(!Engine::Scalar.is_wide());
    assert!(!Engine::Vector.is_wide());
    assert!(!Engine::VectorFused.is_wide());
    assert!(Engine::Scalar64.is_wide());
    assert!(Engine::VectorFused64.is_wide());
}

#[test]
fn permute_1_runs_the_engine_it_is_given() {
    let input: [u8; 48] = sample(1);
    let direct: [fn(&mut [u8; 48]); 5] =
        [xoodoo_scalar, xoodoo_aarch64, xoodoo_aarch64_sha3, xoodoo64_scalar, xoodoo64_aarch64_sha3];
    for (engine, run) in ENGINES.iter().zip(direct) {
        let mut want = input;
        run(&mut want);
        let mut got = input;
        permute_1(*engine, &mut got);
        assert_eq!(got, want);
    }
}

#[test]
fn permute_2_runs_the_engine_it_is_given() {
    let input: [u8; 96] = sample(2);
    let direct: [fn(&mut [u8; 96]); 5] = [
        xoodoo_scalar_x2,
        xoodoo_aarch64_x2,
        xoodoo_aarch64_sha3_x2,
        xoodoo64_scalar_x2,
        xoodoo64_aarch64_sha3_x2,
    ];
    for (engine, run) in ENGINES.iter().zip(direct) {
        let mut want = input;
        run(&mut want);
        let mut got = input;
        permute_2(*engine, &mut got);
        assert_eq!(got, want);
    }
}

#[test]
fn permute_4_runs_the_engine_it_is_given() {
    let input: [u8; 192] = sample(4);
    let direct: [fn(&mut [u8; 192]); 5] = [
        xoodoo_scalar_x4,
        xoodoo_aarch64_x4,
        xoodoo_aarch64_sha3_x4,
        xoodoo64_scalar_x4,
        xoodoo64_aarch64_sha3_x4,
    ];
    for (engine, run) in ENGINES.iter().zip(direct) {
        let mut want = input;
        run(&mut want);
        let mut got = input;
        permute_4(*engine, &mut got);
        assert_eq!(got, want);
    }
}

#[test]
fn engines_of_one_width_give_the_same_bytes() {
    for seed in 0..50u8 {
        let input: [u8; 48] = sample(seed);
        for first in ENGINES {
            for second in ENGINES {
                let mut a = input;
                permute_1(first, &mut a);
                let mut b = input;
                permute_1(second, &mut b);
                if first.is_wide() == second.is_wide() {
                    assert_eq!(a, b);
                } else {
                    assert_ne!(a, b);
                }
            }
        }
    }
}

#[test]
fn a_batch_splits_into_single_states_with_every_engine() {
    for seed in 0..20u8 {
        let input: [u8; 192] = sample(seed);
        for engine in ENGINES {
            let mut four = input;
            permute_4(engine, &mut four);
            let mut two = [0u8; 96];
            two.copy_from_slice(&input[0..96]);
            permute_2(engine, &mut two);
            assert_eq!(&four[0..96], &two);
            for k in 0..4 {
                let mut one = [0u8; 48];
                one.copy_from_slice(&input[48 * k..48 * k + 48]);
                permute_1(engine, &mut one);
                assert_eq!(&four[48 * k..48 * k + 48], &one);
            }
        }
    }
}
