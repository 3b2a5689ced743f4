use muse_core::decode_unsigned_24_bit_data;
use muse_core::parse_eeg_data;
use muse_core::parse_ppg_data;
use muse_core::DecodeError;

#[test]
fn eeg_full_chunk_is_payload_after_header() {
    let payload: Vec<u8> = vec![
        0xaa, 0xbb, 10, 20, 30, 40, 50, 60, 70, 80, 90, 100, 110, 120,
    ];
    let samples = parse_eeg_data(&payload).unwrap();
    assert_eq!(samples.len(), 12);
    assert_eq!(samples, payload[2..].to_vec());
}

#[test]
fn eeg_keeps_extra_bytes_verbatim() {
    let payload: Vec<u8> = vec![0, 0, 1, 2, 3];
    assert_eq!(parse_eeg_data(&payload).unwrap(), vec![1u8, 2, 3]);
}

#[test]
fn eeg_header_only_yields_no_samples() {
    let payload: Vec<u8> = vec![0x12, 0x34];
    assert_eq!(parse_eeg_data(&payload).unwrap(), Vec::<u8>::new());
}

#[test]
fn eeg_short_payload_fails() {
    assert_eq!(parse_eeg_data(&[]), Err(DecodeError::PayloadTooShort));
    assert_eq!(parse_eeg_data(&[7u8]), Err(DecodeError::PayloadTooShort));
}

#[test]
fn ppg_short_payload_fails() {
    assert_eq!(parse_ppg_data(&[]), Err(DecodeError::PayloadTooShort));
    assert_eq!(parse_ppg_data(&[7u8]), Err(DecodeError::PayloadTooShort));
}

#[test]
fn ppg_decodes_big_endian_groups_and_drops_leftover() {
    // Header, then two full 3-byte groups, then a 1-byte leftover.
    let payload: Vec<u8> = vec![0, 0, 0x01, 0x02, 0x03, 0xff, 0xff, 0xff, 0x55];
    let samples = parse_ppg_data(&payload).unwrap();
    assert_eq!(samples, vec![0x010203u32, 0xffffff]);
}

#[test]
fn ppg_two_byte_leftover_dropped() {
    let payload: Vec<u8> = vec![0, 0, 0x00, 0x00, 0x01, 0xaa, 0xbb];
    assert_eq!(parse_ppg_data(&payload).unwrap(), vec![1u32]);
}

#[test]
fn decode_24_bit_exact_values() {
    assert_eq!(decode_unsigned_24_bit_data(&[1, 2, 3]), vec![66051u32]);
    assert_eq!(decode_unsigned_24_bit_data(&[0, 0, 1]), vec![1u32]);
    assert_eq!(decode_unsigned_24_bit_data(&[0x80, 0, 0]), vec![8388608u32]);
    assert_eq!(
        decode_unsigned_24_bit_data(&[0xff, 0xff, 0xff]),
        vec![16777215u32]
    );
}

#[test]
fn decode_24_bit_empty_and_short() {
    assert_eq!(decode_unsigned_24_bit_data(&[]), Vec::<u32>::new());
    assert_eq!(decode_unsigned_24_bit_data(&[1, 2]), Vec::<u32>::new());
}
