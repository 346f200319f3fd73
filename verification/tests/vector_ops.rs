use xoodoo::bits::{rotate_left32, rotate_left64, rotate_right64};
use xoodoo::neon::{
    vbcaxq_u32, vbcaxq_u64, vbicq_u32, vdupq_n_u32, vdupq_n_u64, veor3q_u32, veor3q_u64, veorq_u32, veorq_u64,
    vqtbl1q_u8, vreinterpretq_u32_u64, vreinterpretq_u32_u8, vreinterpretq_u64_u32, vreinterpretq_u64_u8,
    vreinterpretq_u8_u32, vreinterpretq_u8_u64, vsetq_lane_u32, vsetq_lane_u64, vshrq_n_u32, vsliq_n_u32,
    vtrn1q_u32, vtrn1q_u64, vtrn2q_u32, vtrn2q_u64, vxarq_u64,
};

const BYTES: [u8; 16] = [0, 1, 2, 3, 4, 5, 6, 7, 8, 9, 10, 11, 12, 13, 14, 15];

#[test]
fn rotations_of_words() {
    assert_eq!(rotate_left32(0x8000_0001, 1), 3);
    assert_eq!(rotate_left32(0x1234_5678, 8), 0x3456_7812);
    assert_eq!(rotate_left32(0x1234_5678, 0), 0x1234_5678);
    assert_eq!(rotate_left32(0x1234_5678, 32), 0x1234_5678);
    assert_eq!(rotate_left32(0x1234_5678, 40), 0x3456_7812);
    assert_eq!(rotate_left64(0x8000_0000_0000_0001, 1), 3);
    assert_eq!(rotate_left64(0x0123_4567_89ab_cdef, 16), 0x4567_89ab_cdef_0123);
    assert_eq!(rotate_left64(0x0123_4567_89ab_cdef, 64), 0x0123_4567_89ab_cdef);
    assert_eq!(rotate_right64(3, 1), 0x8000_0000_0000_0001);
    assert_eq!(rotate_right64(0x0123_4567_89ab_cdef, 16), 0xcdef_0123_4567_89ab);
    assert_eq!(rotate_right64(0x0123_4567_89ab_cdef, 0), 0x0123_4567_89ab_cdef);
}

#[test]
fn rotations_agree_with_the_standard_ones() {
    let x: u32 = 0xdead_beef;
    let y: u64 = 0xdead_beef_0bad_f00d;
    for n in 0..70u32 {
        assert_eq!(rotate_left32(x, n), x.rotate_left(n));
        assert_eq!(rotate_left64(y, n), y.rotate_left(n));
        assert_eq!(rotate_right64(y, n), y.rotate_right(n));
    }
}

#[test]
fn reinterpreting_bytes_as_lanes() {
    assert_eq!(vreinterpretq_u32_u8(BYTES), [0x03020100, 0x07060504, 0x0b0a0908, 0x0f0e0d0c]);
    assert_eq!(vreinterpretq_u64_u8(BYTES), [0x0706050403020100, 0x0f0e0d0c0b0a0908]);
    assert_eq!(vreinterpretq_u8_u32([0x03020100, 0x07060504, 0x0b0a0908, 0x0f0e0d0c]), BYTES);
    assert_eq!(vreinterpretq_u8_u64([0x0706050403020100, 0x0f0e0d0c0b0a0908]), BYTES);
}

#[test]
fn reinterpreting_lanes_of_one_width_as_the_other() {
    assert_eq!(
        vreinterpretq_u32_u64([0x0706050403020100, 0x0f0e0d0c0b0a0908]),
        [0x03020100, 0x07060504, 0x0b0a0908, 0x0f0e0d0c]
    );
    assert_eq!(
        vreinterpretq_u64_u32([0x03020100, 0x07060504, 0x0b0a0908, 0x0f0e0d0c]),
        [0x0706050403020100, 0x0f0e0d0c0b0a0908]
    );
}

#[test]
fn table_lookup_selects_bytes() {
    let reversed: [u8; 16] = [15, 14, 13, 12, 11, 10, 9, 8, 7, 6, 5, 4, 3, 2, 1, 0];
    let table: [u8; 16] = [10, 20, 30, 40, 50, 60, 70, 80, 90, 100, 110, 120, 130, 140, 150, 160];
    assert_eq!(
        vqtbl1q_u8(table, reversed),
        [160, 150, 140, 130, 120, 110, 100, 90, 80, 70, 60, 50, 40, 30, 20, 10]
    );
    assert_eq!(vqtbl1q_u8(table, [3; 16]), [40; 16]);
}

#[test]
fn table_lookup_gives_zero_out_of_range() {
    let table: [u8; 16] = [10, 20, 30, 40, 50, 60, 70, 80, 90, 100, 110, 120, 130, 140, 150, 160];
    let idx: [u8; 16] = [0, 16, 15, 255, 1, 17, 14, 128, 2, 32, 13, 64, 3, 200, 12, 99];
    assert_eq!(vqtbl1q_u8(table, idx), [10, 0, 160, 0, 20, 0, 150, 0, 30, 0, 140, 0, 40, 0, 130, 0]);
}

#[test]
fn lane_wise_logic_on_32_bit_lanes() {
    let a: [u32; 4] = [0xffff_0000, 0x0f0f_0f0f, 0, 0xffff_ffff];
    let b: [u32; 4] = [0xff00_ff00, 0x00ff_00ff, 0x1234_5678, 0xffff_ffff];
    let c: [u32; 4] = [0xf0f0_f0f0, 0xffff_ffff, 0x8765_4321, 0];
    assert_eq!(veorq_u32(a, b), [0x00ff_ff00, 0x0ff0_0ff0, 0x1234_5678, 0]);
    assert_eq!(veor3q_u32(a, b, c), [0xf00f_0ff0, 0xf00f_f00f, 0x9551_1559, 0]);
    // Bit clear: the first operand with the bits of the second cleared.
    assert_eq!(vbicq_u32(a, b), [0x00ff_0000, 0x0f00_0f00, 0, 0]);
    assert_eq!(vbicq_u32(b, a), [0x0000_ff00, 0x00f0_00f0, 0x1234_5678, 0]);
    // Bit clear and XOR: the first operand XOR (the second with the bits of
    // the third cleared).
    assert_eq!(vbcaxq_u32(a, b, c), [0xf0ff_0f00, 0x0f0f_0f0f, 0x1010_1458, 0]);
}

#[test]
fn lane_wise_logic_on_64_bit_lanes() {
    let a: [u64; 2] = [0xffff_0000_ffff_0000, 0x0f0f_0f0f_0f0f_0f0f];
    let b: [u64; 2] = [0xff00_ff00_ff00_ff00, 0x00ff_00ff_00ff_00ff];
    let c: [u64; 2] = [0xf0f0_f0f0_f0f0_f0f0, 0xffff_ffff_0000_0000];
    assert_eq!(veorq_u64(a, b), [0x00ff_ff00_00ff_ff00, 0x0ff0_0ff0_0ff0_0ff0]);
    assert_eq!(veor3q_u64(a, b, c), [0xf00f_0ff0_f00f_0ff0, 0xf00f_f00f_0ff0_0ff0]);
    assert_eq!(vbcaxq_u64(a, b, c), [0xf0ff_0f00_f0ff_0f00, 0x0f0f_0f0f_0ff0_0ff0]);
}

#[test]
fn shift_right_of_lanes() {
    let a: [u32; 4] = [0x8000_0000, 0xffff_ffff, 1, 0x1234_5678];
    assert_eq!(vshrq_n_u32(a, 1), [0x4000_0000, 0x7fff_ffff, 0, 0x091a_2b3c]);
    assert_eq!(vshrq_n_u32(a, 31), [1, 1, 0, 0]);
    assert_eq!(vshrq_n_u32(a, 32), [0, 0, 0, 0]);
}

#[test]
fn shift_left_and_insert() {
    let a: [u32; 4] = [0xffff_ffff, 0, 0xaaaa_aaaa, 0x0000_0005];
    let b: [u32; 4] = [1, 0xffff_ffff, 0x5555_5555, 0x1234_5678];
    // The low four bits come from `a`, the rest is `b` shifted left by four.
    assert_eq!(vsliq_n_u32(a, b, 4), [0x1f, 0xffff_fff0, 0x5555_555a, 0x2345_6785]);
    // With no shift nothing of `a` is kept.
    assert_eq!(vsliq_n_u32(a, b, 0), b);
    assert_eq!(vsliq_n_u32(a, b, 31), [0xffff_ffff, 0x8000_0000, 0xaaaa_aaaa, 0x0000_0005]);
}

#[test]
fn shift_right_then_insert_rotates() {
    let p: [u32; 4] = [0x8000_0001, 0x1234_5678, 0xffff_0000, 0xdead_beef];
    for n in 1..32u32 {
        let r = vsliq_n_u32(vshrq_n_u32(p, 32 - n), p, n);
        for i in 0..4 {
            assert_eq!(r[i], p[i].rotate_left(n));
        }
    }
}

#[test]
fn xor_and_rotate() {
    let a: [u64; 2] = [0x0123_4567_89ab_cdef, 1];
    let b: [u64; 2] = [0, 3];
    assert_eq!(vxarq_u64(a, b, 16), [0xcdef_0123_4567_89ab, 2u64.rotate_right(16)]);
    assert_eq!(vxarq_u64(a, b, 0), [0x0123_4567_89ab_cdef, 2]);
    assert_eq!(vxarq_u64(a, b, 63), [0x0246_8acf_1357_9bde, 4]);
}

#[test]
fn duplicate_and_set_lane() {
    assert_eq!(vdupq_n_u32(7), [7, 7, 7, 7]);
    assert_eq!(vdupq_n_u64(9), [9, 9]);
    assert_eq!(vsetq_lane_u32(5, [1, 2, 3, 4], 0), [5, 2, 3, 4]);
    assert_eq!(vsetq_lane_u32(5, [1, 2, 3, 4], 3), [1, 2, 3, 5]);
    assert_eq!(vsetq_lane_u64(5, [1, 2], 1), [1, 5]);
}

#[test]
fn transposes_of_lanes() {
    let a: [u32; 4] = [0, 1, 2, 3];
    let b: [u32; 4] = [10, 11, 12, 13];
    assert_eq!(vtrn1q_u32(a, b), [0, 10, 2, 12]);
    assert_eq!(vtrn2q_u32(a, b), [1, 11, 3, 13]);
    let c: [u64; 2] = [0, 1];
    let d: [u64; 2] = [10, 11];
    assert_eq!(vtrn1q_u64(c, d), [0, 10]);
    assert_eq!(vtrn2q_u64(c, d), [1, 11]);
}
