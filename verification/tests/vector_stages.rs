use xoodoo::aarch64::{
    chi_lanes, chi_planes, chi_planes_x2, iota_lanes, iota_planes, iota_planes_x2, lanes_from_next,
    lanes_from_previous, rho_east_lanes, rho_east_plane, rho_east_planes, rho_east_planes_x2, rho_west_lanes,
    rho_west_planes, rho_west_planes_x2, rotate_lane_bytes, rotate_lanes_left, theta_lanes, theta_planes,
    theta_planes_x2,
};
use xoodoo::scalar::{chi_words, iota_words, rho_east_words, rho_west_words, theta_words};

const WORDS_A: [u32; 12] = [
    0x9e3779b9, 0x7f4a7c15, 0xf39cc060, 0x5cedc834, 0x1082276b, 0xf3a27251, 0xf86c6a11, 0xd2c7f1b3, 0x01234567,
    0x89abcdef, 0xfedcba98, 0x76543210,
];

const WORDS_B: [u32; 12] = [
    0x243f6a88, 0x85a308d3, 0x13198a2e, 0x03707344, 0xa4093822, 0x299f31d0, 0x082efa98, 0xec4e6c89, 0x452821e6,
    0x38d01377, 0xbe5466cf, 0x34e90c6c,
];

fn planes(w: &[u32; 12]) -> ([u32; 4], [u32; 4], [u32; 4]) {
    ([w[0], w[1], w[2], w[3]], [w[4], w[5], w[6], w[7]], [w[8], w[9], w[10], w[11]])
}

fn words(a: [u32; 4], b: [u32; 4], c: [u32; 4]) -> [u32; 12] {
    [a[0], a[1], a[2], a[3], b[0], b[1], b[2], b[3], c[0], c[1], c[2], c[3]]
}

/// Four states in lane-major registers: the two test states and their
/// reverses.
fn lane_major_states() -> ([[u32; 4]; 12], [[u32; 12]; 4]) {
    let mut states = [WORDS_A, WORDS_B, WORDS_A, WORDS_B];
    states[2].reverse();
    states[3].reverse();
    let mut x = [[0u32; 4]; 12];
    for w in 0..12 {
        for k in 0..4 {
            x[w][k] = states[k][w];
        }
    }
    (x, states)
}

fn state_of_lane(x: &[[u32; 4]; 12], k: usize) -> [u32; 12] {
    let mut s = [0u32; 12];
    for w in 0..12 {
        s[w] = x[w][k];
    }
    s
}

#[test]
fn lanes_move_by_table_lookup() {
    assert_eq!(lanes_from_next([10, 11, 12, 13]), [11, 12, 13, 10]);
    assert_eq!(lanes_from_previous([10, 11, 12, 13]), [13, 10, 11, 12]);
    assert_eq!(
        lanes_from_next([0x03020100, 0x07060504, 0x0b0a0908, 0x0f0e0d0c]),
        [0x07060504, 0x0b0a0908, 0x0f0e0d0c, 0x03020100]
    );
}

#[test]
fn rho_east_of_a_plane_register() {
    assert_eq!(
        rho_east_plane([0x03020100, 0x07060504, 0x0b0a0908, 0x0f0e0d0c]),
        [0x0a09080b, 0x0e0d0c0f, 0x02010003, 0x06050407]
    );
}

#[test]
fn rotation_of_lanes() {
    let p: [u32; 4] = [0x8000_0001, 0x1234_5678, 0xffff_0000, 0];
    assert_eq!(rotate_lanes_left(p, 1), [3, 0x2468_acf0, 0xfffe_0001, 0]);
    assert_eq!(rotate_lanes_left(p, 31), [0xc000_0000, 0x091a_2b3c, 0x7fff_8000, 0]);
    assert_eq!(rotate_lane_bytes(p), [0x0000_0180, 0x3456_7812, 0xff00_00ff, 0]);
    for n in 1..32u32 {
        let r = rotate_lanes_left(p, n);
        for i in 0..4 {
            assert_eq!(r[i], p[i].rotate_left(n));
        }
    }
}

#[test]
fn stages_on_plane_registers_are_the_scalar_stages() {
    for state in [WORDS_A, WORDS_B, [0u32; 12], [0xffff_ffff; 12]] {
        let (mut a, mut b, mut c) = planes(&state);
        let mut want = state;
        theta_planes(&mut a, &mut b, &mut c);
        theta_words(&mut want);
        assert_eq!(words(a, b, c), want);
        rho_west_planes(&mut a, &mut b, &mut c);
        rho_west_words(&mut want);
        assert_eq!(words(a, b, c), want);
        iota_planes(&mut a, &mut b, &mut c, 0x3c0);
        iota_words(&mut want, 0x3c0);
        assert_eq!(words(a, b, c), want);
        chi_planes(&mut a, &mut b, &mut c);
        chi_words(&mut want);
        assert_eq!(words(a, b, c), want);
        rho_east_planes(&mut a, &mut b, &mut c);
        rho_east_words(&mut want);
        assert_eq!(words(a, b, c), want);
    }
}

#[test]
fn stages_on_two_sets_of_plane_registers_work_state_by_state() {
    let (mut a0, mut b0, mut c0) = planes(&WORDS_A);
    let (mut a1, mut b1, mut c1) = planes(&WORDS_B);
    let mut want0 = WORDS_A;
    let mut want1 = WORDS_B;
    theta_planes_x2(&mut a0, &mut b0, &mut c0, &mut a1, &mut b1, &mut c1);
    theta_words(&mut want0);
    theta_words(&mut want1);
    assert_eq!(words(a0, b0, c0), want0);
    assert_eq!(words(a1, b1, c1), want1);
    rho_west_planes_x2(&mut a0, &mut b0, &mut c0, &mut a1, &mut b1, &mut c1);
    rho_west_words(&mut want0);
    rho_west_words(&mut want1);
    assert_eq!(words(a0, b0, c0), want0);
    assert_eq!(words(a1, b1, c1), want1);
    iota_planes_x2(&mut a0, &mut b0, &mut c0, &mut a1, &mut b1, &mut c1, 0x1a0);
    iota_words(&mut want0, 0x1a0);
    iota_words(&mut want1, 0x1a0);
    assert_eq!(words(a0, b0, c0), want0);
    assert_eq!(words(a1, b1, c1), want1);
    chi_planes_x2(&mut a0, &mut b0, &mut c0, &mut a1, &mut b1, &mut c1);
    chi_words(&mut want0);
    chi_words(&mut want1);
    assert_eq!(words(a0, b0, c0), want0);
    assert_eq!(words(a1, b1, c1), want1);
    rho_east_planes_x2(&mut a0, &mut b0, &mut c0, &mut a1, &mut b1, &mut c1);
    rho_east_words(&mut want0);
    rho_east_words(&mut want1);
    assert_eq!(words(a0, b0, c0), want0);
    assert_eq!(words(a1, b1, c1), want1);
}

#[test]
fn stages_on_lane_major_registers_work_lane_by_lane() {
    let (mut x, mut states) = lane_major_states();
    theta_lanes(&mut x);
    for k in 0..4 {
        theta_words(&mut states[k]);
        assert_eq!(state_of_lane(&x, k), states[k]);
    }
    rho_west_lanes(&mut x);
    for k in 0..4 {
        rho_west_words(&mut states[k]);
        assert_eq!(state_of_lane(&x, k), states[k]);
    }
    iota_lanes(&mut x, 0x12);
    for k in 0..4 {
        iota_words(&mut states[k], 0x12);
        assert_eq!(state_of_lane(&x, k), states[k]);
    }
    chi_lanes(&mut x);
    for k in 0..4 {
        chi_words(&mut states[k]);
        assert_eq!(state_of_lane(&x, k), states[k]);
    }
    rho_east_lanes(&mut x);
    for k in 0..4 {
        rho_east_words(&mut states[k]);
        assert_eq!(state_of_lane(&x, k), states[k]);
    }
}
