use pairing_utils::encoding::{
    convert_endianness, gnark_compressed_x_to_ark_compressed_x, gnark_flag_to_ark_flag,
};
use pairing_utils::error::ConversionError;

#[test]
fn flag_positive_maps_to_clear_bits() {
    assert_eq!(gnark_flag_to_ark_flag(0x85), Ok(0x05));
}

#[test]
fn flag_negative_maps_to_top_bit() {
    assert_eq!(gnark_flag_to_ark_flag(0xc5), Ok(0x85));
}

#[test]
fn flag_infinity_is_kept() {
    assert_eq!(gnark_flag_to_ark_flag(0x41), Ok(0x41));
}

#[test]
fn flag_unknown_pattern_is_rejected() {
    assert_eq!(gnark_flag_to_ark_flag(0x05), Err(ConversionError::InvalidInput));
}

#[test]
fn endianness_reversed_within_chunks() {
    let r = convert_endianness(&[1, 2, 3, 4, 5, 6], 3);
    assert_eq!(r, vec![3, 2, 1, 6, 5, 4]);
}

#[test]
fn endianness_single_chunk_is_full_reversal() {
    let b: Vec<u8> = (0..32).collect();
    let r = convert_endianness(&b, 32);
    let expected: Vec<u8> = (0..32).rev().collect();
    assert_eq!(r, expected);
}

#[test]
fn compressed_x_remapped_and_reversed() {
    let mut x = vec![0u8; 32];
    x[0] = 0xc0 | 0x12;
    x[31] = 7;
    let r = gnark_compressed_x_to_ark_compressed_x(&x).unwrap();
    assert_eq!(r.len(), 32);
    assert_eq!(r[0], 7);
    assert_eq!(r[31], 0x80 | 0x12);
}

#[test]
fn compressed_x_wrong_length_is_rejected() {
    assert_eq!(gnark_compressed_x_to_ark_compressed_x(&[0x80; 31]), Err(ConversionError::InvalidLength));
}

#[test]
fn compressed_x_sign_flip_changes_only_the_flag() {
    let mut pos = vec![0u8; 64];
    pos[0] = 0x80 | 0x01;
    pos[63] = 9;
    let mut neg = pos.clone();
    neg[0] = 0xc0 | 0x01;
    let a = gnark_compressed_x_to_ark_compressed_x(&pos).unwrap();
    let b = gnark_compressed_x_to_ark_compressed_x(&neg).unwrap();
    assert_eq!(a[..63], b[..63]);
    assert_eq!(a[63], 0x01);
    assert_eq!(b[63], 0x81);
}

#[test]
fn compressed_x_unknown_flag_differs_from_wrong_length() {
    assert_eq!(gnark_compressed_x_to_ark_compressed_x(&[0x00; 32]), Err(ConversionError::InvalidInput));
}
