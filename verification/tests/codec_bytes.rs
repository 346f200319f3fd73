use xoodoo::codec::{bytes_to_words, bytes_to_words64, words64_to_bytes, words_to_bytes};
use xoodoo::{read128, read32, read64, write128, write32, write64};

#[test]
fn read32_is_little_endian() {
    assert_eq!(read32(&[0x78, 0x56, 0x34, 0x12]), 0x12345678);
    assert_eq!(read32(&[1, 0, 0, 0]), 1);
    assert_eq!(read32(&[0, 0, 0, 0x80]), 0x8000_0000);
}

#[test]
fn read32_reads_the_first_four_bytes() {
    assert_eq!(read32(&[0xef, 0xbe, 0xad, 0xde, 0xff, 0xff]), 0xdeadbeef);
}

#[test]
fn write32_is_little_endian_and_leaves_the_rest() {
    let mut buffer = [0xaau8; 6];
    write32(0x12345678, &mut buffer);
    assert_eq!(buffer, [0x78, 0x56, 0x34, 0x12, 0xaa, 0xaa]);
}

#[test]
fn read64_is_little_endian() {
    assert_eq!(read64(&[0xef, 0xcd, 0xab, 0x89, 0x67, 0x45, 0x23, 0x01]), 0x0123456789abcdef);
    assert_eq!(read64(&[0, 0, 0, 0, 0, 0, 0, 0x80, 0x55]), 0x8000_0000_0000_0000);
}

#[test]
fn write64_is_little_endian_and_leaves_the_rest() {
    let mut buffer = [0x55u8; 10];
    write64(0x0123456789abcdef, &mut buffer);
    assert_eq!(buffer, [0xef, 0xcd, 0xab, 0x89, 0x67, 0x45, 0x23, 0x01, 0x55, 0x55]);
}

#[test]
fn read128_copies_sixteen_bytes() {
    let bytes: [u8; 16] = [0, 1, 2, 3, 4, 5, 6, 7, 8, 9, 10, 11, 12, 13, 14, 15];
    assert_eq!(read128(&bytes), bytes);
}

#[test]
fn write128_copies_sixteen_bytes_and_leaves_the_rest() {
    let bytes: [u8; 16] = [16, 15, 14, 13, 12, 11, 10, 9, 8, 7, 6, 5, 4, 3, 2, 1];
    let mut buffer = [0xeeu8; 18];
    write128(bytes, &mut buffer);
    assert_eq!(&buffer[0..16], &bytes);
    assert_eq!(&buffer[16..18], &[0xee, 0xee]);
}

#[test]
fn words_of_a_buffer() {
    let buffer: [u8; 12] = [1, 2, 3, 4, 5, 6, 7, 8, 9, 10, 11, 12];
    let mut words = [0u32; 3];
    bytes_to_words(&buffer, &mut words);
    assert_eq!(words, [0x04030201, 0x08070605, 0x0c0b0a09]);
    let mut back = [0u8; 12];
    words_to_bytes(&words, &mut back);
    assert_eq!(back, buffer);
}

#[test]
fn words64_of_a_buffer() {
    let buffer: [u8; 16] = [1, 2, 3, 4, 5, 6, 7, 8, 9, 10, 11, 12, 13, 14, 15, 16];
    let mut words = [0u64; 2];
    bytes_to_words64(&buffer, &mut words);
    assert_eq!(words, [0x0807060504030201, 0x100f0e0d0c0b0a09]);
    let mut back = [0u8; 16];
    words64_to_bytes(&words, &mut back);
    assert_eq!(back, buffer);
}

#[test]
fn empty_buffers_have_no_words() {
    let mut words: [u32; 0] = [];
    bytes_to_words(&[], &mut words);
    let mut bytes: [u8; 0] = [];
    words_to_bytes(&words, &mut bytes);
    assert_eq!(bytes.len(), 0);
}

#[test]
fn a_state_survives_both_word_views() {
    let mut state = [0u8; 48];
    for i in 0..48 {
        state[i] = (i * 5 + 3) as u8;
    }
    let mut words = [0u32; 12];
    bytes_to_words(&state, &mut words);
    let mut back = [0u8; 48];
    words_to_bytes(&words, &mut back);
    assert_eq!(back, state);
    let mut words64 = [0u64; 6];
    bytes_to_words64(&state, &mut words64);
    let mut back64 = [0u8; 48];
    words64_to_bytes(&words64, &mut back64);
    assert_eq!(back64, state);
    // A 64-bit word holds two adjacent 32-bit words, the first in its low half.
    for j in 0..6 {
        assert_eq!(words64[j] as u32, words[2 * j]);
        assert_eq!((words64[j] >> 32) as u32, words[2 * j + 1]);
    }
}

#[test]
fn every_word_is_written_back_exactly() {
    let words: [u32; 4] = [0, 0xffff_ffff, 0x8000_0001, 0x0102_0304];
    let mut bytes = [0u8; 16];
    words_to_bytes(&words, &mut bytes);
    assert_eq!(bytes, [0, 0, 0, 0, 255, 255, 255, 255, 1, 0, 0, 128, 4, 3, 2, 1]);
    let mut back = [0u32; 4];
    bytes_to_words(&bytes, &mut back);
    assert_eq!(back, words);
}
