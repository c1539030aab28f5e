use ntag_sdm::encoding::{bytes_to_array, decode_hex, decode_hex_array, encode_hex};
use ntag_sdm::DenyReason;

#[test]
fn decode_accepts_both_cases() {
    assert_eq!(decode_hex("666f6f626172"), Ok(b"foobar".to_vec()));
    assert_eq!(decode_hex("666F6F626172"), Ok(b"foobar".to_vec()));
    assert_eq!(decode_hex("0aB1c2D3"), Ok(vec![0x0a, 0xb1, 0xc2, 0xd3]));
}

#[test]
fn decode_of_nothing_is_nothing() {
    assert_eq!(decode_hex(""), Ok(Vec::new()));
}

#[test]
fn decode_rejects_odd_length() {
    assert_eq!(decode_hex("abc"), Err(DenyReason::MalformedInput));
    assert_eq!(decode_hex("1"), Err(DenyReason::MalformedInput));
}

#[test]
fn decode_rejects_other_symbols() {
    assert_eq!(decode_hex("66ag"), Err(DenyReason::MalformedInput));
    assert_eq!(decode_hex("666f 6f62617"), Err(DenyReason::MalformedInput));
    assert_eq!(decode_hex("0x12"), Err(DenyReason::MalformedInput));
    assert_eq!(decode_hex("\u{e9}1"), Err(DenyReason::MalformedInput));
}

#[test]
fn decode_is_no_identity() {
    let decoded = decode_hex("3031").unwrap();
    assert_eq!(decoded, vec![0x30, 0x31]);
    assert_ne!(decoded, b"3031".to_vec());
}

#[test]
fn decode_array_wants_the_exact_length() {
    assert_eq!(decode_hex_array::<3>("010203"), Ok([1u8, 2, 3]));
    assert_eq!(decode_hex_array::<3>("0102"), Err(DenyReason::MalformedInput));
    assert_eq!(decode_hex_array::<3>("01020304"), Err(DenyReason::MalformedInput));
    assert_eq!(decode_hex_array::<3>("0102zz"), Err(DenyReason::MalformedInput));
    assert_eq!(decode_hex_array::<0>(""), Ok([0u8; 0]));
}

#[test]
fn decode_array_of_a_key() {
    let key = decode_hex_array::<16>("000102030405060708090A0B0C0D0E0F").unwrap();
    let expected: Vec<u8> = (0u8..16).collect();
    assert_eq!(key.to_vec(), expected);
}

#[test]
fn encode_in_both_cases() {
    assert_eq!(encode_hex(&[0x01, 0xab, 0xff, 0x90], false), "01abff90");
    assert_eq!(encode_hex(&[0x01, 0xab, 0xff, 0x90], true), "01ABFF90");
    assert_eq!(encode_hex(&[], true), "");
}

#[test]
fn encode_every_byte_and_decode_it_again() {
    let all: Vec<u8> = (0u8..=255).collect();
    let lower = encode_hex(&all, false);
    let upper = encode_hex(&all, true);
    assert_eq!(lower.len(), 512);
    assert_eq!(lower.to_uppercase(), upper);
    assert_eq!(decode_hex(&lower), Ok(all.clone()));
    assert_eq!(decode_hex(&upper), Ok(all));
}

#[test]
fn bytes_to_array_wants_the_exact_length() {
    assert_eq!(bytes_to_array::<2>(&[7, 8]), Some([7u8, 8]));
    assert_eq!(bytes_to_array::<2>(&[7]), None);
    assert_eq!(bytes_to_array::<2>(&[7, 8, 9]), None);
}

#[test]
fn only_storage_errors_are_transient() {
    assert!(DenyReason::StorageError.is_transient());
    assert!(!DenyReason::MalformedInput.is_transient());
    assert!(!DenyReason::AuthenticityFailure.is_transient());
    assert!(!DenyReason::ReplayDetected.is_transient());
    assert!(!DenyReason::SignatureInvalid.is_transient());
}
