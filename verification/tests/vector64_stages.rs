use xoodoo::aarch64_sha3_64::{
    chi_lanes64, chi_lanes64_x2, chi_planes64, iota_lanes64, iota_lanes64_x2, iota_planes64, rho_east_lanes64,
    rho_east_lanes64_x2, rho_east_plane64, rho_east_planes64, rho_west_lanes64, rho_west_lanes64_x2,
    rho_west_planes64, rotate_lanes_left64, swap_lanes64, theta_effect_lanes64, theta_lanes64,
    theta_lanes64_x2, theta_planes64,
};
use xoodoo::scalar64::{chi_words64, iota_words64, rho_east_words64, rho_west_words64, theta_words64};

const WORDS64_A: [u64; 6] = [
    0x9e3779b97f4a7c15,
    0xf39cc0605cedc834,
    0x1082276bf3a27251,
    0xf86c6a11d2c7f1b3,
    0x0123456789abcdef,
    0xfedcba9876543210,
];

const WORDS64_B: [u64; 6] = [
    0x243f6a8885a308d3,
    0x13198a2e03707344,
    0xa4093822299f31d0,
    0x082efa98ec4e6c89,
    0x452821e638d01377,
    0xbe5466cf34e90c6c,
];

#[test]
fn helpers_on_64_bit_lanes() {
    let p: [u64; 2] = [0x0123_4567_89ab_cdef, 0x8000_0000_0000_0001];
    assert_eq!(swap_lanes64(p), [0x8000_0000_0000_0001, 0x0123_4567_89ab_cdef]);
    assert_eq!(rho_east_plane64(p), [0x0000_0000_0001_8000, 0x4567_89ab_cdef_0123]);
    assert_eq!(rotate_lanes_left64(p, 1), [0x0246_8acf_1357_9bde, 3]);
    assert_eq!(rotate_lanes_left64(p, 23), [p[0].rotate_left(23), p[1].rotate_left(23)]);
    for n in 1..64u32 {
        let r = rotate_lanes_left64(p, n);
        assert_eq!(r, [p[0].rotate_left(n), p[1].rotate_left(n)]);
    }
    let e = theta_effect_lanes64(p);
    assert_eq!(e[0], p[0].rotate_left(10) ^ p[0].rotate_left(29));
    assert_eq!(e[1], p[1].rotate_left(10) ^ p[1].rotate_left(29));
    assert_eq!(theta_effect_lanes64([1, 0]), [(1 << 10) | (1 << 29), 0]);
}

#[test]
fn stages_on_64_bit_plane_registers_are_the_scalar_stages() {
    for state in [WORDS64_A, WORDS64_B, [0u64; 6], [u64::MAX; 6]] {
        let mut a: [u64; 2] = [state[0], state[1]];
        let mut b: [u64; 2] = [state[2], state[3]];
        let mut c: [u64; 2] = [state[4], state[5]];
        let mut want = state;
        theta_planes64(&mut a, &mut b, &mut c);
        theta_words64(&mut want);
        assert_eq!([a[0], a[1], b[0], b[1], c[0], c[1]], want);
        rho_west_planes64(&mut a, &mut b, &mut c);
        rho_west_words64(&mut want);
        assert_eq!([a[0], a[1], b[0], b[1], c[0], c[1]], want);
        iota_planes64(&mut a, &mut b, &mut c, 0x380);
        iota_words64(&mut want, 0x380);
        assert_eq!([a[0], a[1], b[0], b[1], c[0], c[1]], want);
        chi_planes64(&mut a, &mut b, &mut c);
        chi_words64(&mut want);
        assert_eq!([a[0], a[1], b[0], b[1], c[0], c[1]], want);
        rho_east_planes64(&mut a, &mut b, &mut c);
        rho_east_words64(&mut want);
        assert_eq!([a[0], a[1], b[0], b[1], c[0], c[1]], want);
    }
}

#[test]
fn stages_on_64_bit_lane_major_registers_work_lane_by_lane() {
    let mut states = [WORDS64_A, WORDS64_B, WORDS64_B, WORDS64_A];
    states[2].reverse();
    states[3].reverse();
    // One pair of states.
    let mut x = [[0u64; 2]; 6];
    for w in 0..6 {
        x[w] = [states[0][w], states[1][w]];
    }
    // Two pairs of states.
    let mut y = [[0u64; 2]; 12];
    for w in 0..6 {
        y[w] = [states[0][w], states[1][w]];
        y[6 + w] = [states[2][w], states[3][w]];
    }
    let check = |x: &[[u64; 2]; 6], y: &[[u64; 2]; 12], states: &[[u64; 6]; 4]| {
        for w in 0..6 {
            assert_eq!(x[w], [states[0][w], states[1][w]]);
            assert_eq!(y[w], [states[0][w], states[1][w]]);
            assert_eq!(y[6 + w], [states[2][w], states[3][w]]);
        }
    };
    theta_lanes64(&mut x);
    theta_lanes64_x2(&mut y);
    for s in states.iter_mut() {
        theta_words64(s);
    }
    check(&x, &y, &states);
    rho_west_lanes64(&mut x);
    rho_west_lanes64_x2(&mut y);
    for s in states.iter_mut() {
        rho_west_words64(s);
    }
    check(&x, &y, &states);
    iota_lanes64(&mut x, 0x60);
    iota_lanes64_x2(&mut y, 0x60);
    for s in states.iter_mut() {
        iota_words64(s, 0x60);
    }
    check(&x, &y, &states);
    chi_lanes64(&mut x);
    chi_lanes64_x2(&mut y);
    for s in states.iter_mut() {
        chi_words64(s);
    }
    check(&x, &y, &states);
    rho_east_lanes64(&mut x);
    rho_east_lanes64_x2(&mut y);
    for s in states.iter_mut() {
        rho_east_words64(s);
    }
    check(&x, &y, &states);
}
