use xoodoo::scalar::{
    chi_words, chi_words_x2, chi_words_x4, iota_words, iota_words_x2, iota_words_x4, rho_east_words,
    rho_east_words_x2, rho_east_words_x4, rho_west_words, rho_west_words_x2, rho_west_words_x4, theta_words,
    theta_words_x2, theta_words_x4, xoodoo_round, xoodoo_round_x2, xoodoo_round_x4,
};
use xoodoo::scalar64::{
    chi_words64, chi_words64_x2, chi_words64_x4, iota_words64, iota_words64_x2, iota_words64_x4,
    rho_east_words64, rho_east_words64_x2, rho_east_words64_x4, rho_west_words64, rho_west_words64_x2,
    rho_west_words64_x4, theta_words64, theta_words64_x2, theta_words64_x4, xoodoo64_round,
    xoodoo64_round_x2, xoodoo64_round_x4,
};
use xoodoo::ROUND_KEYS;

const WORDS: [u32; 12] = [
    0x9f143cde, 0x4d5d3612, 0x24e40e5b, 0x174bfaab,
    0x0c532c98, 0x02221ba7, 0x058e3837, 0x082645cb,
    0x0aa347e6, 0x0b2fadba, 0x0ca476b3, 0x0db4863b,
];

const WORDS_X4: [u32; 48] = [
    0x9f143cde, 0x4d5d3612, 0x24e40e5b, 0x174bfaab,
    0x0c532c98, 0x02221ba7, 0x058e3837, 0x082645cb,
    0x0aa347e6, 0x0b2fadba, 0x0ca476b3, 0x0db4863b,
    0x9c095024, 0x7ab70f13, 0x5964ce02, 0x38128cf1,
    0x16c04be0, 0xf56e0acf, 0xd41bc9be, 0xb2c988ad,
    0x9177479c, 0x7025068b, 0x4ed2c57a, 0x2d808469,
    0x0db4863b, 0x0ca476b3, 0x0b2fadba, 0x0aa347e6,
    0x082645cb, 0x058e3837, 0x02221ba7, 0x0c532c98,
    0x174bfaab, 0x24e40e5b, 0x4d5d3612, 0x9f143cde,
    0x2d808469, 0x4ed2c57a, 0x7025068b, 0x9177479c,
    0xb2c988ad, 0xd41bc9be, 0xf56e0acf, 0x16c04be0,
    0x38128cf1, 0x5964ce02, 0x7ab70f13, 0x9c095024,
];

const WORDS64: [u64; 6] = [
    0x9f143cdef6e1b1fa, 0x4d5d3613acf2a5d4,
    0x24e40e58c2d1f6c8, 0x174bfaa90946783e,
    0x0c532c9e27afa26a, 0x02221ba0f1fc807a,
];

const WORDS64_X4: [u64; 24] = [
    0x9f143cdef6e1b1fa, 0x4d5d3613acf2a5d4,
    0x24e40e58c2d1f6c8, 0x174bfaa90946783e,
    0x0c532c9e27afa26a, 0x02221ba0f1fc807a,
    0xfaa5e609f6f9df13, 0xf993e0d8c1f89e02,
    0xf881dba78cf75cf1, 0xf76fd67657f61be0,
    0xf65dd14522f4dacf, 0xf54bcc13edf399be,
    0x02221ba0f1fc807a, 0x0c532c9e27afa26a,
    0x174bfaa90946783e, 0x24e40e58c2d1f6c8,
    0x4d5d3613acf2a5d4, 0x9f143cdef6e1b1fa,
    0xf54bcc13edf399be, 0xf65dd14522f4dacf,
    0xf76fd67657f61be0, 0xf881dba78cf75cf1,
    0xf993e0d8c1f89e02, 0xfaa5e609f6f9df13,
];

fn first_two(x: &[u32; 48]) -> [u32; 24] {
    let mut r = [0u32; 24];
    r.copy_from_slice(&x[0..24]);
    r
}

fn first_two64(x: &[u64; 24]) -> [u64; 12] {
    let mut r = [0u64; 12];
    r.copy_from_slice(&x[0..12]);
    r
}

#[test]
fn round_keys_are_the_twelve_constants() {
    assert_eq!(
        ROUND_KEYS,
        [0x58, 0x38, 0x3c0, 0xd0, 0x120, 0x14, 0x60, 0x2c, 0x380, 0xf0, 0x1a0, 0x12]
    );
}

#[test]
fn one_round_moves_the_zero_state() {
    let mut x = [0u32; 12];
    xoodoo_round(&mut x, ROUND_KEYS[0]);
    assert_ne!(x, [0u32; 12]);
    assert_eq!(x, [0x58, 0, 0, 0, 0xb0, 0, 0, 0, 0, 0, 0, 0]);
}

#[test]
fn one_round64_moves_the_zero_state() {
    let mut x = [0u64; 6];
    xoodoo64_round(&mut x, ROUND_KEYS[0]);
    assert_ne!(x, [0u64; 6]);
    assert_eq!(x, [0x58, 0, 0xb0, 0, 0, 0]);
}

#[test]
fn one_round_with_a_zero_key_keeps_the_zero_state() {
    let mut x = [0u32; 12];
    xoodoo_round(&mut x, 0);
    assert_eq!(x, [0u32; 12]);
}

#[test]
fn theta_exact() {
    let mut x = WORDS;
    theta_words(&mut x);
    assert_eq!(x, [
        0x3507ec22, 0x64a2e684, 0x3195e18f, 0x3e2928c1,
        0xa640fc64, 0x2bddcb31, 0x10ffd7e3, 0x214497a1,
        0xa0b0971a, 0x22d07d2c, 0x19d59967, 0x24d65451,
    ]);
}

#[test]
fn theta_single_bit_spreads_from_the_next_lane() {
    // A bit in lane 1 of plane 0 reaches lane 0 of every plane, rotated by 5
    // and by 14, and leaves its own column as it was.
    let mut x = [0u32; 12];
    x[1] = 1;
    theta_words(&mut x);
    let effect: u32 = (1 << 5) | (1 << 14);
    assert_eq!(x, [effect, 1, 0, 0, effect, 0, 0, 0, effect, 0, 0, 0]);
}

#[test]
fn rho_west_exact() {
    let mut x = WORDS;
    rho_west_words(&mut x);
    assert_eq!(x, [
        0x9f143cde, 0x4d5d3612, 0x24e40e5b, 0x174bfaab,
        0x082645cb, 0x0c532c98, 0x02221ba7, 0x058e3837,
        0x1a3f3055, 0x7d6dd059, 0x23b59865, 0xa431d86d,
    ]);
}

#[test]
fn iota_exact() {
    let mut x = WORDS;
    iota_words(&mut x, 0x3c0);
    let mut want = WORDS;
    want[0] ^= 0x3c0;
    assert_eq!(x, want);
}

#[test]
fn chi_exact() {
    let mut x = WORDS;
    chi_words(&mut x);
    assert_eq!(x, [
        0x9db47fb8, 0x4450920a, 0x2cc448db, 0x12db789b,
        0x99471480, 0x467209a7, 0x25ce307f, 0x1a6d3d4b,
        0x0ae047e6, 0x090da41f, 0x0dae4697, 0x0590837b,
    ]);
}

#[test]
fn rho_east_exact() {
    let mut x = WORDS;
    rho_east_words(&mut x);
    assert_eq!(x, [
        0x9f143cde, 0x4d5d3612, 0x24e40e5b, 0x174bfaab,
        0x18a65930, 0x0444374e, 0x0b1c706e, 0x104c8b96,
        0xa476b30c, 0xb4863b0d, 0xa347e60a, 0x2fadba0b,
    ]);
}

#[test]
fn round_exact() {
    let mut x = WORDS;
    xoodoo_round(&mut x, 0x120);
    assert_eq!(x, [
        0xb1bfad06, 0x650be796, 0xb597d141, 0x9c2920c5,
        0x20877f46, 0x8484f5c9, 0x75921460, 0x39edee44,
        0x8332fea6, 0x745e04b2, 0xf8c7a484, 0xa9797601,
    ]);
}

#[test]
fn stages_on_four_states_work_state_by_state() {
    let mut x = WORDS_X4;
    theta_words_x4(&mut x);
    assert_eq!(x, [
        0x3507ec22, 0x64a2e684, 0x3195e18f, 0x3e2928c1,
        0xa640fc64, 0x2bddcb31, 0x10ffd7e3, 0x214497a1,
        0xa0b0971a, 0x22d07d2c, 0x19d59967, 0x24d65451,
        0x635cc524, 0x7fbee720, 0x5219a160, 0xd8cf011d,
        0xe995dee0, 0xf067e2fc, 0xdf66a6dc, 0x52140541,
        0x6e22d29c, 0x752ceeb8, 0x45afaa18, 0xcd5d0985,
        0x244b56ad, 0xa6b7a64f, 0x224d7fd0, 0x1fd2a832,
        0x21d9955d, 0xaf9de8cb, 0x2b40c9cd, 0x1922c34c,
        0x3eb42a3d, 0x8ef7dea7, 0x643fe478, 0x8a65d30a,
        0x28896c5a, 0xb187507a, 0x90f88b67, 0x9a0a28fe,
        0xb7c0609e, 0x2b4e5cbe, 0x15b38723, 0x1dbd2482,
        0x3d1b64c2, 0xa6315b02, 0x9a6a82ff, 0x97743f46,
    ]);
    let mut x = WORDS_X4;
    rho_west_words_x4(&mut x);
    assert_eq!(x, [
        0x9f143cde, 0x4d5d3612, 0x24e40e5b, 0x174bfaab,
        0x082645cb, 0x0c532c98, 0x02221ba7, 0x058e3837,
        0x1a3f3055, 0x7d6dd059, 0x23b59865, 0xa431d86d,
        0x9c095024, 0x7ab70f13, 0x5964ce02, 0x38128cf1,
        0xb2c988ad, 0x16c04be0, 0xf56e0acf, 0xd41bc9be,
        0xba3ce48b, 0x28345b81, 0x962bd276, 0x0423496c,
        0x0db4863b, 0x0ca476b3, 0x0b2fadba, 0x0aa347e6,
        0x0c532c98, 0x082645cb, 0x058e3837, 0x02221ba7,
        0x5fd558ba, 0x2072d927, 0xe9b0926a, 0xa1e6f4f8,
        0x2d808469, 0x4ed2c57a, 0x7025068b, 0x9177479c,
        0x16c04be0, 0xb2c988ad, 0xd41bc9be, 0xf56e0acf,
        0x946789c0, 0x267012cb, 0xb8789bd5, 0x4a8124e0,
    ]);
    let mut x = WORDS_X4;
    iota_words_x4(&mut x, 0x2c);
    assert_eq!(x, [
        0x9f143cf2, 0x4d5d3612, 0x24e40e5b, 0x174bfaab,
        0x0c532c98, 0x02221ba7, 0x058e3837, 0x082645cb,
        0x0aa347e6, 0x0b2fadba, 0x0ca476b3, 0x0db4863b,
        0x9c095008, 0x7ab70f13, 0x5964ce02, 0x38128cf1,
        0x16c04be0, 0xf56e0acf, 0xd41bc9be, 0xb2c988ad,
        0x9177479c, 0x7025068b, 0x4ed2c57a, 0x2d808469,
        0x0db48617, 0x0ca476b3, 0x0b2fadba, 0x0aa347e6,
        0x082645cb, 0x058e3837, 0x02221ba7, 0x0c532c98,
        0x174bfaab, 0x24e40e5b, 0x4d5d3612, 0x9f143cde,
        0x2d808445, 0x4ed2c57a, 0x7025068b, 0x9177479c,
        0xb2c988ad, 0xd41bc9be, 0xf56e0acf, 0x16c04be0,
        0x38128cf1, 0x5964ce02, 0x7ab70f13, 0x9c095024,
    ]);
    let mut x = WORDS_X4;
    chi_words_x4(&mut x);
    assert_eq!(x, [
        0x9db47fb8, 0x4450920a, 0x2cc448db, 0x12db789b,
        0x99471480, 0x467209a7, 0x25ce307f, 0x1a6d3d4b,
        0x0ae047e6, 0x090da41f, 0x0dae4697, 0x0590837b,
        0x1d3e5438, 0x7ab60b13, 0x53a4ca42, 0x351288b1,
        0x1ac85bc0, 0xfffc03df, 0xc53fc3be, 0xa2db803d,
        0x93b74c5c, 0xf56d0647, 0xcac9c4c6, 0xaf498465,
        0x1afd3c1b, 0x2cc470fb, 0x467289aa, 0x99a757a0,
        0x009241db, 0x0d8e4897, 0x0000920f, 0x0cf06fb8,
        0x1749bb6b, 0x25ee065f, 0x4d5d2417, 0x9b4414c6,
        0x25928039, 0x47b6c37a, 0x7ab4039b, 0x197e5798,
        0xb74988a5, 0xd289c8c6, 0xf56e0a47, 0x17b64c78,
        0xaa5b8475, 0xc96dc686, 0xfffd0757, 0x9a895844,
    ]);
    let mut x = WORDS_X4;
    rho_east_words_x4(&mut x);
    assert_eq!(x, [
        0x9f143cde, 0x4d5d3612, 0x24e40e5b, 0x174bfaab,
        0x18a65930, 0x0444374e, 0x0b1c706e, 0x104c8b96,
        0xa476b30c, 0xb4863b0d, 0xa347e60a, 0x2fadba0b,
        0x9c095024, 0x7ab70f13, 0x5964ce02, 0x38128cf1,
        0x2d8097c0, 0xeadc159f, 0xa837937d, 0x6593115b,
        0xd2c57a4e, 0x8084692d, 0x77479c91, 0x25068b70,
        0x0db4863b, 0x0ca476b3, 0x0b2fadba, 0x0aa347e6,
        0x104c8b96, 0x0b1c706e, 0x0444374e, 0x18a65930,
        0x5d36124d, 0x143cde9f, 0x4bfaab17, 0xe40e5b24,
        0x2d808469, 0x4ed2c57a, 0x7025068b, 0x9177479c,
        0x6593115b, 0xa837937d, 0xeadc159f, 0x2d8097c0,
        0xb70f137a, 0x0950249c, 0x128cf138, 0x64ce0259,
    ]);
    let mut x = WORDS_X4;
    xoodoo_round_x4(&mut x, 0xf0);
    assert_eq!(x, [
        0xb1bfacd6, 0x650be796, 0xb597d141, 0x9c2920c5,
        0x20877ee6, 0x8484f5c9, 0x75921460, 0x39edee44,
        0x8332fea6, 0x745e04b2, 0xf8c62484, 0xa9797601,
        0x67dc27e4, 0x79dee629, 0x5f09a161, 0xf8c7093f,
        0x66b8038a, 0xe23ff5c1, 0xe4dd8779, 0x9fcb4f93,
        0x3680b1dd, 0x6c88aaef, 0x94e37006, 0x74db69e7,
        0x841a7eec, 0x38938e6d, 0x726f7cf0, 0x1b4abc20,
        0x3a51aa88, 0x43b62eaa, 0x5fa3a837, 0x7404c3da,
        0xb3432a72, 0x98159e0e, 0x7168f5b8, 0xbd2d67bf,
        0xea8b7dc2, 0xb99f455b, 0xc4e92b26, 0x3a421866,
        0x7a689100, 0x0d8e41a9, 0x574cbf35, 0x1f671ece,
        0x11a84b7f, 0x4bb3baa4, 0x1211e8ce, 0x9835b58c,
    ]);
}

#[test]
fn stages_on_two_states_work_state_by_state() {
    let mut x = first_two(&WORDS_X4);
    theta_words_x2(&mut x);
    assert_eq!(x, first_two(&[
        0x3507ec22, 0x64a2e684, 0x3195e18f, 0x3e2928c1,
        0xa640fc64, 0x2bddcb31, 0x10ffd7e3, 0x214497a1,
        0xa0b0971a, 0x22d07d2c, 0x19d59967, 0x24d65451,
        0x635cc524, 0x7fbee720, 0x5219a160, 0xd8cf011d,
        0xe995dee0, 0xf067e2fc, 0xdf66a6dc, 0x52140541,
        0x6e22d29c, 0x752ceeb8, 0x45afaa18, 0xcd5d0985,
        0x244b56ad, 0xa6b7a64f, 0x224d7fd0, 0x1fd2a832,
        0x21d9955d, 0xaf9de8cb, 0x2b40c9cd, 0x1922c34c,
        0x3eb42a3d, 0x8ef7dea7, 0x643fe478, 0x8a65d30a,
        0x28896c5a, 0xb187507a, 0x90f88b67, 0x9a0a28fe,
        0xb7c0609e, 0x2b4e5cbe, 0x15b38723, 0x1dbd2482,
        0x3d1b64c2, 0xa6315b02, 0x9a6a82ff, 0x97743f46,
    ]));
    let mut x = first_two(&WORDS_X4);
    rho_west_words_x2(&mut x);
    assert_eq!(x, first_two(&[
        0x9f143cde, 0x4d5d3612, 0x24e40e5b, 0x174bfaab,
        0x082645cb, 0x0c532c98, 0x02221ba7, 0x058e3837,
        0x1a3f3055, 0x7d6dd059, 0x23b59865, 0xa431d86d,
        0x9c095024, 0x7ab70f13, 0x5964ce02, 0x38128cf1,
        0xb2c988ad, 0x16c04be0, 0xf56e0acf, 0xd41bc9be,
        0xba3ce48b, 0x28345b81, 0x962bd276, 0x0423496c,
        0x0db4863b, 0x0ca476b3, 0x0b2fadba, 0x0aa347e6,
        0x0c532c98, 0x082645cb, 0x058e3837, 0x02221ba7,
        0x5fd558ba, 0x2072d927, 0xe9b0926a, 0xa1e6f4f8,
        0x2d808469, 0x4ed2c57a, 0x7025068b, 0x9177479c,
        0x16c04be0, 0xb2c988ad, 0xd41bc9be, 0xf56e0acf,
        0x946789c0, 0x267012cb, 0xb8789bd5, 0x4a8124e0,
    ]));
    let mut x = first_two(&WORDS_X4);
    iota_words_x2(&mut x, 0x2c);
    assert_eq!(x, first_two(&[
        0x9f143cf2, 0x4d5d3612, 0x24e40e5b, 0x174bfaab,
        0x0c532c98, 0x02221ba7, 0x058e3837, 0x082645cb,
        0x0aa347e6, 0x0b2fadba, 0x0ca476b3, 0x0db4863b,
        0x9c095008, 0x7ab70f13, 0x5964ce02, 0x38128cf1,
        0x16c04be0, 0xf56e0acf, 0xd41bc9be, 0xb2c988ad,
        0x9177479c, 0x7025068b, 0x4ed2c57a, 0x2d808469,
        0x0db48617, 0x0ca476b3, 0x0b2fadba, 0x0aa347e6,
        0x082645cb, 0x058e3837, 0x02221ba7, 0x0c532c98,
        0x174bfaab, 0x24e40e5b, 0x4d5d3612, 0x9f143cde,
        0x2d808445, 0x4ed2c57a, 0x7025068b, 0x9177479c,
        0xb2c988ad, 0xd41bc9be, 0xf56e0acf, 0x16c04be0,
        0x38128cf1, 0x5964ce02, 0x7ab70f13, 0x9c095024,
    ]));
    let mut x = first_two(&WORDS_X4);
    chi_words_x2(&mut x);
    assert_eq!(x, first_two(&[
        0x9db47fb8, 0x4450920a, 0x2cc448db, 0x12db789b,
        0x99471480, 0x467209a7, 0x25ce307f, 0x1a6d3d4b,
        0x0ae047e6, 0x090da41f, 0x0dae4697, 0x0590837b,
        0x1d3e5438, 0x7ab60b13, 0x53a4ca42, 0x351288b1,
        0x1ac85bc0, 0xfffc03df, 0xc53fc3be, 0xa2db803d,
        0x93b74c5c, 0xf56d0647, 0xcac9c4c6, 0xaf498465,
        0x1afd3c1b, 0x2cc470fb, 0x467289aa, 0x99a757a0,
        0x009241db, 0x0d8e4897, 0x0000920f, 0x0cf06fb8,
        0x1749bb6b, 0x25ee065f, 0x4d5d2417, 0x9b4414c6,
        0x25928039, 0x47b6c37a, 0x7ab4039b, 0x197e5798,
        0xb74988a5, 0xd289c8c6, 0xf56e0a47, 0x17b64c78,
        0xaa5b8475, 0xc96dc686, 0xfffd0757, 0x9a895844,
    ]));
    let mut x = first_two(&WORDS_X4);
    rho_east_words_x2(&mut x);
    assert_eq!(x, first_two(&[
        0x9f143cde, 0x4d5d3612, 0x24e40e5b, 0x174bfaab,
        0x18a65930, 0x0444374e, 0x0b1c706e, 0x104c8b96,
        0xa476b30c, 0xb4863b0d, 0xa347e60a, 0x2fadba0b,
        0x9c095024, 0x7ab70f13, 0x5964ce02, 0x38128cf1,
        0x2d8097c0, 0xeadc159f, 0xa837937d, 0x6593115b,
        0xd2c57a4e, 0x8084692d, 0x77479c91, 0x25068b70,
        0x0db4863b, 0x0ca476b3, 0x0b2fadba, 0x0aa347e6,
        0x104c8b96, 0x0b1c706e, 0x0444374e, 0x18a65930,
        0x5d36124d, 0x143cde9f, 0x4bfaab17, 0xe40e5b24,
        0x2d808469, 0x4ed2c57a, 0x7025068b, 0x9177479c,
        0x6593115b, 0xa837937d, 0xeadc159f, 0x2d8097c0,
        0xb70f137a, 0x0950249c, 0x128cf138, 0x64ce0259,
    ]));
    let mut x = first_two(&WORDS_X4);
    xoodoo_round_x2(&mut x, 0xf0);
    assert_eq!(x, first_two(&[
        0xb1bfacd6, 0x650be796, 0xb597d141, 0x9c2920c5,
        0x20877ee6, 0x8484f5c9, 0x75921460, 0x39edee44,
        0x8332fea6, 0x745e04b2, 0xf8c62484, 0xa9797601,
        0x67dc27e4, 0x79dee629, 0x5f09a161, 0xf8c7093f,
        0x66b8038a, 0xe23ff5c1, 0xe4dd8779, 0x9fcb4f93,
        0x3680b1dd, 0x6c88aaef, 0x94e37006, 0x74db69e7,
        0x841a7eec, 0x38938e6d, 0x726f7cf0, 0x1b4abc20,
        0x3a51aa88, 0x43b62eaa, 0x5fa3a837, 0x7404c3da,
        0xb3432a72, 0x98159e0e, 0x7168f5b8, 0xbd2d67bf,
        0xea8b7dc2, 0xb99f455b, 0xc4e92b26, 0x3a421866,
        0x7a689100, 0x0d8e41a9, 0x574cbf35, 0x1f671ece,
        0x11a84b7f, 0x4bb3baa4, 0x1211e8ce, 0x9835b58c,
    ]));
}

#[test]
fn theta64_exact() {
    let mut x = WORDS64;
    theta_words64(&mut x);
    assert_eq!(x, [
        0x06c15e3ddc916a79, 0xc356aaf6c593a4c9,
        0xbd316cbbe8a12d4b, 0x9940664c60277923,
        0x95864e7d0ddf79e9, 0x8c298745989d8167,
    ]);
}

#[test]
fn rho_west64_exact() {
    let mut x = WORDS64;
    rho_west_words64(&mut x);
    assert_eq!(x, [
        0x9f143cdef6e1b1fa, 0x4d5d3613acf2a5d4,
        0x174bfaa90946783e, 0x24e40e58c2d1f6c8,
        0x4f13d7d135062996, 0xd078fe403d01110d,
    ]);
}

#[test]
fn iota64_exact() {
    let mut x = WORDS64;
    iota_words64(&mut x, 0x3c0);
    let mut want = WORDS64;
    want[0] ^= 0x3c0;
    assert_eq!(x, want);
}

#[test]
fn chi64_exact() {
    let mut x = WORDS64;
    chi_words64(&mut x);
    assert_eq!(x, [
        0x97071c58d3cfb1d8, 0x4d7d37135c4a2594,
        0xb7e01e181291e758, 0x5a16deba05445dba,
        0x2cb32e9e27bfe46a, 0x1020d308f0f8d850,
    ]);
}

#[test]
fn rho_east64_exact() {
    let mut x = WORDS64;
    rho_east_words64(&mut x);
    assert_eq!(x, [
        0x9f143cdef6e1b1fa, 0x4d5d3613acf2a5d4,
        0x49c81cb185a3ed90, 0x2e97f552128cf07c,
        0x1ba0f1fc807a0222, 0x2c9e27afa26a0c53,
    ]);
}

#[test]
fn round64_exact() {
    let mut x = WORDS64;
    xoodoo64_round(&mut x, 0x120);
    assert_eq!(x, [
        0x2047d78d4859e95d, 0xc19aa8b6d6d5b449,
        0x3202ec9ad06ca2f7, 0xf847991b59611a87,
        0x0ac99be61dc19eed, 0xcffcd4ecd305a786,
    ]);
}

#[test]
fn stages64_on_four_states_work_state_by_state() {
    let mut x = WORDS64_X4;
    theta_words64_x4(&mut x);
    assert_eq!(x, [
        0x06c15e3ddc916a79, 0xc356aaf6c593a4c9,
        0xbd316cbbe8a12d4b, 0x9940664c60277923,
        0x95864e7d0ddf79e9, 0x8c298745989d8167,
        0x8a30b06d9dfe53aa, 0x753f069e9613144e,
        0x88148dc3e7f0d048, 0x7bc33030001d91ac,
        0x86c8872149f35676, 0x79e72a55ba1813f2,
        0x8c298745989d8167, 0x95864e7d0ddf79e9,
        0x9940664c60277923, 0xbd316cbbe8a12d4b,
        0xc356aaf6c593a4c9, 0x06c15e3ddc916a79,
        0x79e72a55ba1813f2, 0x86c8872149f35676,
        0x7bc33030001d91ac, 0x88148dc3e7f0d048,
        0x753f069e9613144e, 0x8a30b06d9dfe53aa,
    ]);
    let mut x = WORDS64_X4;
    rho_west_words64_x4(&mut x);
    assert_eq!(x, [
        0x9f143cdef6e1b1fa, 0x4d5d3613acf2a5d4,
        0x174bfaa90946783e, 0x24e40e58c2d1f6c8,
        0x4f13d7d135062996, 0xd078fe403d01110d,
        0xfaa5e609f6f9df13, 0xf993e0d8c1f89e02,
        0xf76fd67657f61be0, 0xf881dba78cf75cf1,
        0xa2917a6d67fb2ee8, 0x09f6f9ccdf7aa5e6,
        0x02221ba0f1fc807a, 0x0c532c9e27afa26a,
        0x24e40e58c2d1f6c8, 0x174bfaa90946783e,
        0x09d67952ea26ae9b, 0x6f7b70d8fd4f8a1e,
        0xf54bcc13edf399be, 0xf65dd14522f4dacf,
        0xf881dba78cf75cf1, 0xf76fd67657f61be0,
        0x6c60fc4f017cc9f0, 0x04fb7cef89fd52f3,
    ]);
    let mut x = WORDS64_X4;
    iota_words64_x4(&mut x, 0x2c);
    assert_eq!(x, [
        0x9f143cdef6e1b1d6, 0x4d5d3613acf2a5d4,
        0x24e40e58c2d1f6c8, 0x174bfaa90946783e,
        0x0c532c9e27afa26a, 0x02221ba0f1fc807a,
        0xfaa5e609f6f9df3f, 0xf993e0d8c1f89e02,
        0xf881dba78cf75cf1, 0xf76fd67657f61be0,
        0xf65dd14522f4dacf, 0xf54bcc13edf399be,
        0x02221ba0f1fc8056, 0x0c532c9e27afa26a,
        0x174bfaa90946783e, 0x24e40e58c2d1f6c8,
        0x4d5d3613acf2a5d4, 0x9f143cdef6e1b1fa,
        0xf54bcc13edf39992, 0xf65dd14522f4dacf,
        0xf76fd67657f61be0, 0xf881dba78cf75cf1,
        0xf993e0d8c1f89e02, 0xfaa5e609f6f9df13,
    ]);
    let mut x = WORDS64_X4;
    chi_words64_x4(&mut x);
    assert_eq!(x, [
        0x97071c58d3cfb1d8, 0x4d7d37135c4a2594,
        0xb7e01e181291e758, 0x5a16deba05445dba,
        0x2cb32e9e27bfe46a, 0x1020d308f0f8d850,
        0xfcf9e649d4f95d1d, 0xf993e8d969f91e1c,
        0xf021fdaf58fe59e1, 0xfffff6be57fe1de0,
        0xf65dc8e32af2da2f, 0xf327da35fbf5985e,
        0x4a361fb2554c05ba, 0x97431c18138fa358,
        0x1569f309584a7814, 0x24a70e58c3dff4c8,
        0x5814d61aa4f0ddd0, 0xbfb03e9e36b1e57a,
        0xfddbec9b6dfb1dbc, 0xf479f54d50fc59cd,
        0xf327da757bf51a5c, 0xfcd9cae38cf35c3d,
        0xfbb7f2bcd3fc9c42, 0xf225ecab7afadb23,
    ]);
    let mut x = WORDS64_X4;
    rho_east_words64_x4(&mut x);
    assert_eq!(x, [
        0x9f143cdef6e1b1fa, 0x4d5d3613acf2a5d4,
        0x49c81cb185a3ed90, 0x2e97f552128cf07c,
        0x1ba0f1fc807a0222, 0x2c9e27afa26a0c53,
        0xfaa5e609f6f9df13, 0xf993e0d8c1f89e02,
        0xf103b74f19eeb9e3, 0xeedfacecafec37c1,
        0xcc13edf399bef54b, 0xd14522f4dacff65d,
        0x02221ba0f1fc807a, 0x0c532c9e27afa26a,
        0x2e97f552128cf07c, 0x49c81cb185a3ed90,
        0x3cdef6e1b1fa9f14, 0x3613acf2a5d44d5d,
        0xf54bcc13edf399be, 0xf65dd14522f4dacf,
        0xeedfacecafec37c1, 0xf103b74f19eeb9e3,
        0xe609f6f9df13faa5, 0xe0d8c1f89e02f993,
    ]);
    let mut x = WORDS64_X4;
    xoodoo64_round_x4(&mut x, 0xf0);
    assert_eq!(x, [
        0x2047d78d4859e88d, 0xc19aa8b6d6d5b449,
        0x3202ec9ad06ca357, 0xf847991b59611a87,
        0x0ac99be61dc19eed, 0xcffcd4ecd205a786,
        0x0a1479e6a6bc3719, 0x57f606968e1f37db,
        0xe3a660e909430568, 0xba6d1eabc3e7a805,
        0x854898dc3395a2dd, 0xf9bb3b42e4e7e167,
        0xce6b06059cdd0383, 0x932846cc115f7965,
        0x7270d57ce17a5b92, 0x3080c008c2f6c0c6,
        0x68b55ca360ad16ae, 0xa16804c1871d4a72,
        0x3eac2a5dba121c81, 0x82c448289cb35e26,
        0x71615f2cffe1a091, 0xf7866060115faf15,
        0xcf39d54999d04fcd, 0x8c0862da5fcbcf5b,
    ]);
}

#[test]
fn stages64_on_two_states_work_state_by_state() {
    let mut x = first_two64(&WORDS64_X4);
    theta_words64_x2(&mut x);
    assert_eq!(x, first_two64(&[
        0x06c15e3ddc916a79, 0xc356aaf6c593a4c9,
        0xbd316cbbe8a12d4b, 0x9940664c60277923,
        0x95864e7d0ddf79e9, 0x8c298745989d8167,
        0x8a30b06d9dfe53aa, 0x753f069e9613144e,
        0x88148dc3e7f0d048, 0x7bc33030001d91ac,
        0x86c8872149f35676, 0x79e72a55ba1813f2,
        0x8c298745989d8167, 0x95864e7d0ddf79e9,
        0x9940664c60277923, 0xbd316cbbe8a12d4b,
        0xc356aaf6c593a4c9, 0x06c15e3ddc916a79,
        0x79e72a55ba1813f2, 0x86c8872149f35676,
        0x7bc33030001d91ac, 0x88148dc3e7f0d048,
        0x753f069e9613144e, 0x8a30b06d9dfe53aa,
    ]));
    let mut x = first_two64(&WORDS64_X4);
    rho_west_words64_x2(&mut x);
    assert_eq!(x, first_two64(&[
        0x9f143cdef6e1b1fa, 0x4d5d3613acf2a5d4,
        0x174bfaa90946783e, 0x24e40e58c2d1f6c8,
        0x4f13d7d135062996, 0xd078fe403d01110d,
        0xfaa5e609f6f9df13, 0xf993e0d8c1f89e02,
        0xf76fd67657f61be0, 0xf881dba78cf75cf1,
        0xa2917a6d67fb2ee8, 0x09f6f9ccdf7aa5e6,
        0x02221ba0f1fc807a, 0x0c532c9e27afa26a,
        0x24e40e58c2d1f6c8, 0x174bfaa90946783e,
        0x09d67952ea26ae9b, 0x6f7b70d8fd4f8a1e,
        0xf54bcc13edf399be, 0xf65dd14522f4dacf,
        0xf881dba78cf75cf1, 0xf76fd67657f61be0,
        0x6c60fc4f017cc9f0, 0x04fb7cef89fd52f3,
    ]));
    let mut x = first_two64(&WORDS64_X4);
    iota_words64_x2(&mut x, 0x2c);
    assert_eq!(x, first_two64(&[
        0x9f143cdef6e1b1d6, 0x4d5d3613acf2a5d4,
        0x24e40e58c2d1f6c8, 0x174bfaa90946783e,
        0x0c532c9e27afa26a, 0x02221ba0f1fc807a,
        0xfaa5e609f6f9df3f, 0xf993e0d8c1f89e02,
        0xf881dba78cf75cf1, 0xf76fd67657f61be0,
        0xf65dd14522f4dacf, 0xf54bcc13edf399be,
        0x02221ba0f1fc8056, 0x0c532c9e27afa26a,
        0x174bfaa90946783e, 0x24e40e58c2d1f6c8,
        0x4d5d3613acf2a5d4, 0x9f143cdef6e1b1fa,
        0xf54bcc13edf39992, 0xf65dd14522f4dacf,
        0xf76fd67657f61be0, 0xf881dba78cf75cf1,
        0xf993e0d8c1f89e02, 0xfaa5e609f6f9df13,
    ]));
    let mut x = first_two64(&WORDS64_X4);
    chi_words64_x2(&mut x);
    assert_eq!(x, first_two64(&[
        0x97071c58d3cfb1d8, 0x4d7d37135c4a2594,
        0xb7e01e181291e758, 0x5a16deba05445dba,
        0x2cb32e9e27bfe46a, 0x1020d308f0f8d850,
        0xfcf9e649d4f95d1d, 0xf993e8d969f91e1c,
        0xf021fdaf58fe59e1, 0xfffff6be57fe1de0,
        0xf65dc8e32af2da2f, 0xf327da35fbf5985e,
        0x4a361fb2554c05ba, 0x97431c18138fa358,
        0x1569f309584a7814, 0x24a70e58c3dff4c8,
        0x5814d61aa4f0ddd0, 0xbfb03e9e36b1e57a,
        0xfddbec9b6dfb1dbc, 0xf479f54d50fc59cd,
        0xf327da757bf51a5c, 0xfcd9cae38cf35c3d,
        0xfbb7f2bcd3fc9c42, 0xf225ecab7afadb23,
    ]));
    let mut x = first_two64(&WORDS64_X4);
    rho_east_words64_x2(&mut x);
    assert_eq!(x, first_two64(&[
        0x9f143cdef6e1b1fa, 0x4d5d3613acf2a5d4,
        0x49c81cb185a3ed90, 0x2e97f552128cf07c,
        0x1ba0f1fc807a0222, 0x2c9e27afa26a0c53,
        0xfaa5e609f6f9df13, 0xf993e0d8c1f89e02,
        0xf103b74f19eeb9e3, 0xeedfacecafec37c1,
        0xcc13edf399bef54b, 0xd14522f4dacff65d,
        0x02221ba0f1fc807a, 0x0c532c9e27afa26a,
        0x2e97f552128cf07c, 0x49c81cb185a3ed90,
        0x3cdef6e1b1fa9f14, 0x3613acf2a5d44d5d,
        0xf54bcc13edf399be, 0xf65dd14522f4dacf,
        0xeedfacecafec37c1, 0xf103b74f19eeb9e3,
        0xe609f6f9df13faa5, 0xe0d8c1f89e02f993,
    ]));
    let mut x = first_two64(&WORDS64_X4);
    xoodoo64_round_x2(&mut x, 0xf0);
    assert_eq!(x, first_two64(&[
        0x2047d78d4859e88d, 0xc19aa8b6d6d5b449,
        0x3202ec9ad06ca357, 0xf847991b59611a87,
        0x0ac99be61dc19eed, 0xcffcd4ecd205a786,
        0x0a1479e6a6bc3719, 0x57f606968e1f37db,
        0xe3a660e909430568, 0xba6d1eabc3e7a805,
        0x854898dc3395a2dd, 0xf9bb3b42e4e7e167,
        0xce6b06059cdd0383, 0x932846cc115f7965,
        0x7270d57ce17a5b92, 0x3080c008c2f6c0c6,
        0x68b55ca360ad16ae, 0xa16804c1871d4a72,
        0x3eac2a5dba121c81, 0x82c448289cb35e26,
        0x71615f2cffe1a091, 0xf7866060115faf15,
        0xcf39d54999d04fcd, 0x8c0862da5fcbcf5b,
    ]));
}
