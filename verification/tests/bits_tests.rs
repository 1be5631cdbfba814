use stegano_mini::bits::{frame, from_bits, to_bits, unframe};
use stegano_mini::errors::StegoError;

#[test]
fn to_bits_single_byte_msb_first() {
    let bits = to_bits(&vec![0xABu8]);
    assert_eq!(bits, vec![1, 0, 1, 0, 1, 0, 1, 1]);
}

#[test]
fn to_bits_two_bytes_in_order() {
    let bits = to_bits(&vec![0x80u8, 0x01u8]);
    assert_eq!(bits, vec![1, 0, 0, 0, 0, 0, 0, 0, 0, 0, 0, 0, 0, 0, 0, 1]);
}

#[test]
fn from_bits_rebuilds_bytes() {
    let bytes = vec![0x00u8, 0xFF, 0x5A, 0x12];
    let bits = to_bits(&bytes);
    assert_eq!(from_bits(&bits), Ok(bytes));
}

#[test]
fn from_bits_rejects_partial_byte() {
    let bits = vec![1u8, 0, 1, 0, 1, 0, 1];
    assert_eq!(from_bits(&bits), Err(StegoError::MalformedBitstream));
}

#[test]
fn frame_prefixes_big_endian_length() {
    let framed = frame(&vec![0xFFu8]);
    assert_eq!(framed.len(), 40);
    // The 4-byte length field of value 1: 31 zero bits then a one.
    let mut expected_header = vec![0u8; 32];
    expected_header[31] = 1;
    assert_eq!(&framed[..32], &expected_header[..]);
    assert_eq!(&framed[32..], &[1u8; 8][..]);
}

#[test]
fn unframe_of_frame_is_identity_empty() {
    let framed = frame(&Vec::new());
    assert_eq!(framed.len(), 32);
    assert_eq!(unframe(&framed), Ok(Vec::new()));
}

#[test]
fn unframe_of_frame_is_identity() {
    let bytes = vec![0u8, 1, 2, 250, 255, 128, 42];
    let framed = frame(&bytes);
    assert_eq!(unframe(&framed), Ok(bytes));
}

#[test]
fn unframe_ignores_trailing_bits() {
    let bytes = vec![7u8, 77];
    let mut framed = frame(&bytes);
    framed.extend_from_slice(&[1, 0, 1, 1, 0]);
    assert_eq!(unframe(&framed), Ok(bytes));
}

#[test]
fn unframe_rejects_short_header() {
    let bits = vec![0u8; 31];
    assert_eq!(unframe(&bits), Err(StegoError::TruncatedStream));
}

#[test]
fn unframe_rejects_declared_length_past_end() {
    // A header declaring 2 bytes, followed by only 8 payload bits.
    let mut bits = vec![0u8; 32];
    bits[30] = 1; // length = 2
    bits.extend_from_slice(&[0u8; 8]);
    assert_eq!(unframe(&bits), Err(StegoError::TruncatedStream));
}
