use wasm_decoder::errors::DecodeError;
use wasm_decoder::utils::{calc_len_and_offset, signed_leb128_decode, unsigned_leb128_decode};

#[test]
fn count_zero_and_one() {
    let a = [0xfc, 0x06];
    assert_eq!(unsigned_leb128_decode(&a, 0).unwrap(), (892, 2));
    assert_eq!(unsigned_leb128_decode(&[0x80, 0x7f], 0).unwrap(), (16256, 2));
    assert_eq!(unsigned_leb128_decode(&[0xe0, 0x98, 0x17], 0).unwrap(), (380000, 3));
    assert_eq!(unsigned_leb128_decode(&[0x0d], 0).unwrap(), (13, 1));
    assert_eq!(unsigned_leb128_decode(&[128, 128, 192, 0], 0).unwrap(), (1048576, 4));
}

#[test]
fn calc_len_and_offset_should_work() {
    let a = [6, 3, 4, 5, 4, 1, 8, 9];
    let (len, off) = calc_len_and_offset(&a, 0).unwrap();

    assert_eq!(len, a[0] as u64);
    assert_eq!(&a[off..off + len as usize], &a[1..1 + len as usize]);
}

#[test]
fn unsigned_decode_at_offset() {
    let a = [0xff, 0xfc, 0x06, 0x0d];
    assert_eq!(unsigned_leb128_decode(&a, 1).unwrap(), (892, 3));
    assert_eq!(unsigned_leb128_decode(&a, 3).unwrap(), (13, 4));
}

#[test]
fn signed_decode_negative() {
    assert_eq!(signed_leb128_decode(&[0x84, 0x79], 0).unwrap(), (-892, 2));
    assert_eq!(signed_leb128_decode(&[0x7f], 0).unwrap(), (-1, 1));
    assert_eq!(signed_leb128_decode(&[0x3f], 0).unwrap(), (63, 1));
    assert_eq!(signed_leb128_decode(&[0x40], 0).unwrap(), (-64, 1));
}

#[test]
fn unsigned_decode_runs_out_of_input() {
    assert_eq!(unsigned_leb128_decode(&[0x80], 0), Err(DecodeError::UnexpectedEof));
    assert_eq!(unsigned_leb128_decode(&[], 0), Err(DecodeError::UnexpectedEof));
}

#[test]
fn unsigned_decode_rejects_unterminated_chain() {
    let a = [0x80u8; 11];
    assert_eq!(unsigned_leb128_decode(&a, 0), Err(DecodeError::InvalidLeb128Encoding));
}

#[test]
fn unsigned_decode_rejects_overflow() {
    // Ten groups whose value is 128^10 - 1, above the 64-bit target width.
    let mut a = [0xffu8; 10];
    a[9] = 0x7f;
    assert_eq!(unsigned_leb128_decode(&a, 0), Err(DecodeError::InvalidLeb128Encoding));
}

#[test]
fn signed_decode_rejects_overflow() {
    // Ten groups encoding a magnitude above the 64-bit target width.
    let mut a = [0xffu8; 10];
    a[9] = 0x3f;
    assert_eq!(signed_leb128_decode(&a, 0), Err(DecodeError::InvalidLeb128Encoding));
}

#[test]
fn fast_path_agrees_with_codec() {
    for b in 0u8..0x80 {
        let a = [b, 0xaa, 0xbb];
        assert_eq!(
            calc_len_and_offset(&a, 0).unwrap(),
            unsigned_leb128_decode(&a, 0).unwrap()
        );
    }
}

#[test]
fn unsigned_decode_largest_value() {
    // The minimal ten-byte encoding of u64::MAX.
    let mut a = [0xffu8; 10];
    a[9] = 0x01;
    assert_eq!(unsigned_leb128_decode(&a, 0).unwrap(), (u64::MAX, 10));
}
