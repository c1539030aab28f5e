use aes::cipher::{BlockEncrypt, KeyInit};
use ntag_sdm::picc::{decrypt_picc_data, encrypt_picc_data, parse_picc_block, PiccData};

const ZERO_KEY: &str = "00000000000000000000000000000000";

fn picc_block_of(tag_data: u8, uid: [u8; 7], counter: u32, filler: [u8; 5]) -> [u8; 16] {
    let mut block = [0u8; 16];
    block[0] = tag_data;
    block[1..8].copy_from_slice(&uid);
    block[8] = (counter & 0xff) as u8;
    block[9] = ((counter >> 8) & 0xff) as u8;
    block[10] = ((counter >> 16) & 0xff) as u8;
    block[11..16].copy_from_slice(&filler);
    block
}

fn aes_encrypt_hex(key: [u8; 16], block: [u8; 16]) -> String {
    let mut buffer = aes::Block::from(block);
    aes::Aes128::new(&key.into()).encrypt_block(&mut buffer);
    buffer.iter().map(|byte| format!("{:02X}", byte)).collect()
}

#[test]
fn counter_parsing() {
    let block = [
        0x04, 0xAA, 0xBB, 0xCC, 0xDD, 0xEE, 0xFF, 0x11, 0x01, 0x00, 0x00, 0x55, 0x66, 0x77, 0x88,
        0x99,
    ];
    let picc = parse_picc_block(&block);
    assert_eq!(picc.tag_data, 0x04);
    assert_eq!(picc.uid, [0xAA, 0xBB, 0xCC, 0xDD, 0xEE, 0xFF, 0x11]);
    assert_eq!(picc.uid_hex(), "aabbccddeeff11");
    assert_eq!(picc.read_counter, 1);
}

#[test]
fn counter_is_little_endian() {
    let block = picc_block_of(0xC7, [1, 2, 3, 4, 5, 6, 7], 0, [0; 5]);
    let mut with_counter = block;
    with_counter[8] = 0x56;
    with_counter[9] = 0x34;
    with_counter[10] = 0x12;
    assert_eq!(parse_picc_block(&with_counter).read_counter, 0x123456);
    with_counter[8] = 0xFF;
    with_counter[9] = 0xFF;
    with_counter[10] = 0xFF;
    assert_eq!(parse_picc_block(&with_counter).read_counter, 16_777_215);
    assert_eq!(parse_picc_block(&block).read_counter, 0);
}

#[test]
fn filler_is_ignored() {
    let a = parse_picc_block(&picc_block_of(0xC7, [1, 2, 3, 4, 5, 6, 7], 300, [0; 5]));
    let b = parse_picc_block(&picc_block_of(0xC7, [1, 2, 3, 4, 5, 6, 7], 300, [9, 8, 7, 6, 5]));
    assert_eq!(a.tag_data, b.tag_data);
    assert_eq!(a.uid, b.uid);
    assert_eq!(a.read_counter, b.read_counter);
    assert_eq!(a.read_counter, 300);
}

#[test]
fn counter_bytes_are_the_low_three() {
    let picc = PiccData { tag_data: 0, uid: [0; 7], read_counter: 0x00A1B2C3 };
    assert_eq!(picc.counter_le_bytes(), [0xC3, 0xB2, 0xA1]);
    let wide = PiccData { tag_data: 0, uid: [0; 7], read_counter: 0x7F000001 };
    assert_eq!(wide.counter_le_bytes(), [0x01, 0x00, 0x00]);
}

#[test]
fn decrypts_a_known_identity_block() {
    let picc = decrypt_picc_data(ZERO_KEY, "EF963FF7828658A599F3041510671E88").unwrap();
    assert_eq!(picc.tag_data, 0xC7);
    assert_eq!(picc.uid, [0x04, 0xDE, 0x5F, 0x1E, 0xAC, 0xC0, 0x40]);
    assert_eq!(picc.uid_hex(), "04de5f1eacc040");
    assert_eq!(picc.read_counter, 61);
}

#[test]
fn decrypts_a_lower_case_identity_block() {
    let picc = decrypt_picc_data(ZERO_KEY, "ef963ff7828658a599f3041510671e88").unwrap();
    assert_eq!(picc.uid_hex(), "04de5f1eacc040");
    assert_eq!(picc.read_counter, 61);
}

#[test]
fn decryption_depends_on_the_key() {
    let picc =
        decrypt_picc_data("00000000000000000000000000000001", "EF963FF7828658A599F3041510671E88")
            .unwrap();
    assert_ne!(picc.uid, [0x04, 0xDE, 0x5F, 0x1E, 0xAC, 0xC0, 0x40]);
}

#[test]
fn malformed_identity_blocks_are_rejected() {
    assert!(decrypt_picc_data(ZERO_KEY, "").is_none());
    assert!(decrypt_picc_data(ZERO_KEY, "EF963FF7828658A599F3041510671E").is_none());
    assert!(decrypt_picc_data(ZERO_KEY, "EF963FF7828658A599F3041510671E8800").is_none());
    assert!(decrypt_picc_data(ZERO_KEY, "EF963FF7828658A599F3041510671E8").is_none());
    assert!(decrypt_picc_data(ZERO_KEY, "GF963FF7828658A599F3041510671E88").is_none());
}

#[test]
fn malformed_keys_are_rejected() {
    assert!(decrypt_picc_data("", "EF963FF7828658A599F3041510671E88").is_none());
    assert!(decrypt_picc_data("0000", "EF963FF7828658A599F3041510671E88").is_none());
    assert!(
        decrypt_picc_data("0000000000000000000000000000000g", "EF963FF7828658A599F3041510671E88")
            .is_none()
    );
    assert!(encrypt_picc_data("00", &[0u8; 16]).is_none());
}

#[test]
fn round_trip() {
    let key_text = "000102030405060708090a0b0c0d0e0f";
    let uid = [0x04, 0x95, 0x8C, 0xAA, 0x5C, 0x5E, 0x80];
    for counter in [0u32, 1, 255, 256, 65_535, 65_536, 0xABCDEF, 16_777_215] {
        let block = picc_block_of(0xC7, uid, counter, [0x11, 0x22, 0x33, 0x44, 0x55]);
        let text = encrypt_picc_data(key_text, &block).unwrap();
        assert_eq!(text.len(), 32);
        let picc = decrypt_picc_data(key_text, &text).unwrap();
        assert_eq!(picc.tag_data, 0xC7);
        assert_eq!(picc.uid, uid);
        assert_eq!(picc.read_counter, counter);
    }
}

#[test]
fn round_trip_against_the_cipher_itself() {
    let key: [u8; 16] = [
        0x2b, 0x7e, 0x15, 0x16, 0x28, 0xae, 0xd2, 0xa6, 0xab, 0xf7, 0x15, 0x88, 0x09, 0xcf, 0x4f,
        0x3c,
    ];
    let key_text = "2b7e151628aed2a6abf7158809cf4f3c";
    let uid = [0xAA, 0xBB, 0xCC, 0xDD, 0xEE, 0xFF, 0x11];
    let block = picc_block_of(0x04, uid, 70_000, [0; 5]);
    let text = aes_encrypt_hex(key, block);
    assert_eq!(encrypt_picc_data(key_text, &block), Some(text.clone()));
    let picc = decrypt_picc_data(key_text, &text).unwrap();
    assert_eq!(picc.tag_data, 0x04);
    assert_eq!(picc.uid, uid);
    assert_eq!(picc.read_counter, 70_000);
}

#[test]
fn encryption_is_no_identity() {
    let block = picc_block_of(0xC7, [1, 2, 3, 4, 5, 6, 7], 5, [0; 5]);
    let text = encrypt_picc_data(ZERO_KEY, &block).unwrap();
    let plain: String = block.iter().map(|byte| format!("{:02X}", byte)).collect();
    assert_ne!(text, plain);
}

#[test]
fn known_cipher_block() {
    let key_text = "000102030405060708090a0b0c0d0e0f";
    let block = [
        0x00, 0x11, 0x22, 0x33, 0x44, 0x55, 0x66, 0x77, 0x88, 0x99, 0xaa, 0xbb, 0xcc, 0xdd, 0xee,
        0xff,
    ];
    assert_eq!(
        encrypt_picc_data(key_text, &block),
        Some(String::from("69C4E0D86A7B0430D8CDB78070B4C55A"))
    );
    let picc = decrypt_picc_data(key_text, "69c4e0d86a7b0430d8cdb78070b4c55a").unwrap();
    assert_eq!(picc.tag_data, 0x00);
    assert_eq!(picc.uid, [0x11, 0x22, 0x33, 0x44, 0x55, 0x66, 0x77]);
    assert_eq!(picc.read_counter, 0xaa9988);
}
