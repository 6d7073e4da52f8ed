use resyn::samples::{samples_from_i16, samples_from_i32, samples_from_i8};

#[test]
fn widens_8_bit_samples() {
    assert_eq!(samples_from_i8(&[0, 1, -1, 127, -128]), vec![0, 256, -256, 32512, -32768]);
    assert_eq!(samples_from_i8(&[]), Vec::<i16>::new());
}

#[test]
fn copies_16_bit_samples() {
    assert_eq!(samples_from_i16(&[0, 1, -1, 32767, -32768]), vec![0, 1, -1, 32767, -32768]);
}

#[test]
fn narrows_32_bit_samples() {
    assert_eq!(
        samples_from_i32(&[0, 65535, 65536, -1, -65536, -65537, i32::MAX, i32::MIN]),
        vec![0, 0, 1, -1, -1, -2, 32767, -32768]
    );
    assert_eq!(samples_from_i32(&[]), Vec::<i16>::new());
}
