use xoodoo::{xoodoo_scalar, xoodoo_scalar_x2, xoodoo_scalar_x4};

#[test]
fn only_a_buffer_of_the_right_size_is_a_state() {
    let bytes = [0u8; 200];
    for size in 0..200usize {
        let one = <&[u8; 48]>::try_from(&bytes[..size]);
        assert_eq!(one.is_ok(), size == 48);
        let two = <&[u8; 96]>::try_from(&bytes[..size]);
        assert_eq!(two.is_ok(), size == 96);
        let four = <&[u8; 192]>::try_from(&bytes[..size]);
        assert_eq!(four.is_ok(), size == 192);
    }
}

#[test]
fn buffers_of_the_right_size_are_permuted() {
    let bytes = [0u8; 192];
    let mut one: [u8; 48] = *<&[u8; 48]>::try_from(&bytes[..48]).unwrap();
    xoodoo_scalar(&mut one);
    let mut two: [u8; 96] = *<&[u8; 96]>::try_from(&bytes[..96]).unwrap();
    xoodoo_scalar_x2(&mut two);
    let mut four: [u8; 192] = *<&[u8; 192]>::try_from(&bytes[..]).unwrap();
    xoodoo_scalar_x4(&mut four);
    assert_eq!(&two[..48], &one);
    assert_eq!(&two[48..], &one);
    assert_eq!(&four[..96], &two);
    assert_eq!(&four[96..], &two);
    assert_ne!(one, [0u8; 48]);
}
