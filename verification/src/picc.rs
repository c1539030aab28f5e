//! The identity block of a tag: what it holds, and how it is read out of its
//! encrypted form.
//!
//! The block has 16 bytes. Byte 0 is the tag data byte, bytes 1 to 7 are the
//! UID, bytes 8 to 10 are the read counter with the low byte first. The last
//! five bytes are filler.

use crate::crypto::{
    aes128_decrypt_block, aes128_decrypted, aes128_encrypt_block, aes128_encrypted,
};
use crate::encoding::{
    decode_hex_array, encode_hex, hex_decoded_exact, hex_text, lemma_hex_round_trip,
};
use vstd::prelude::*;
use vstd::utf8::*;

verus! {

/// The identity that a tag shows on one read.
#[derive(Clone, Copy, Debug, PartialEq, Eq)]
pub struct PiccData {
    pub tag_data: u8,
    pub uid: [u8; 7],
    pub read_counter: u32,
}

/// The read counter that the bytes `low`, `mid` and `high` spell.
pub open spec fn counter_value(low: u8, mid: u8, high: u8) -> u32 {
    (low + 256 * mid + 65536 * high) as u32
}

/// The three low bytes of `counter`, the lowest first.
pub open spec fn counter_bytes(counter: u32) -> Seq<u8> {
    seq![(counter % 256) as u8, (counter / 256 % 256) as u8, (counter / 65536 % 256) as u8]
}

/// An identity as contracts see it.
pub struct PiccView {
    pub tag_data: u8,
    pub uid: Seq<u8>,
    pub read_counter: u32,
}

impl View for PiccData {
    type V = PiccView;

    open spec fn view(&self) -> PiccView {
        PiccView { tag_data: self.tag_data, uid: self.uid@, read_counter: self.read_counter }
    }
}

/// The identity that the 16-byte identity block `block` holds.
pub open spec fn picc_of_block(block: Seq<u8>) -> PiccView {
    PiccView {
        tag_data: block[0],
        uid: block.subrange(1, 8),
        read_counter: counter_value(block[8], block[9], block[10]),
    }
}

/// The 16 bytes that the hex text `text` spells, if it spells 16.
pub open spec fn block_of_text(text: Seq<char>) -> Option<Seq<u8>> {
    hex_decoded_exact(encode_utf8(text), 16)
}

/// The identity block behind the encrypted block `enc_picc_data`, if both
/// texts are hex of 32 digits: its decryption under the key.
pub open spec fn picc_block(sdm_meta_read_key: Seq<char>, enc_picc_data: Seq<char>) -> Option<
    Seq<u8>,
> {
    match (block_of_text(sdm_meta_read_key), block_of_text(enc_picc_data)) {
        (Some(key), Some(cipher)) => Some(aes128_decrypted(key, cipher)),
        _ => None,
    }
}

impl PiccData {
    /// The UID as 14 hex digits in lower case.
    pub fn uid_hex(&self) -> (text: String)
        ensures
            text@ == hex_text(self.uid@, false),
    {
        encode_hex(self.uid.as_slice(), false)
    }

    /// The three bytes of the read counter, the lowest first. A counter is
    /// cut to its low 24 bits.
    pub fn counter_le_bytes(&self) -> (bytes: [u8; 3])
        ensures
            bytes@ == counter_bytes(self.read_counter),
    {
        let bytes: [u8; 3] = [
            (self.read_counter % 256) as u8,
            (self.read_counter / 256 % 256) as u8,
            (self.read_counter / 65536 % 256) as u8,
        ];
        assert(bytes@ =~= counter_bytes(self.read_counter));
        bytes
    }
}

/// Reads the identity out of a decrypted identity block.
pub fn parse_picc_block(block: &[u8; 16]) -> (picc: PiccData)
    ensures
        picc@ == picc_of_block(block@),
        picc.read_counter <= 0xFF_FFFF,
{
    let mut uid: [u8; 7] = [0u8; 7];
    let mut i: usize = 0;
    while i < 7
        invariant
            i <= 7,
            forall|k: int| 0 <= k < i ==> uid@[k] == block@[k + 1],
        decreases 7 - i,
    {
        uid[i] = block[i + 1];
        i += 1;
    }
    assert(uid@ =~= block@.subrange(1, 8));
    let low: u32 = block[8] as u32;
    let mid: u32 = block[9] as u32;
    let high: u32 = block[10] as u32;
    PiccData { tag_data: block[0], uid, read_counter: low + 256 * mid + 65536 * high }
}

/// Decrypts the identity block of a tag.
///
/// `sdm_meta_read_key` is the meta-read key and `enc_picc_data` the encrypted
/// block, each as 32 hex digits of either case. The answer is `None` exactly
/// if one of them is anything else.
pub fn decrypt_picc_data(sdm_meta_read_key: &str, enc_picc_data: &str) -> (picc: Option<PiccData>)
    ensures
        match picc {
            Some(picc) => picc_block(sdm_meta_read_key@, enc_picc_data@) matches Some(block)
                && picc@ == picc_of_block(block) && picc.read_counter <= 0xFF_FFFF,
            None => picc_block(sdm_meta_read_key@, enc_picc_data@) is None,
        },
{
    let key = match decode_hex_array::<16>(sdm_meta_read_key) {
        Ok(key) => key,
        Err(_) => {
            return None;
        },
    };
    let cipher = match decode_hex_array::<16>(enc_picc_data) {
        Ok(cipher) => cipher,
        Err(_) => {
            return None;
        },
    };
    let block = aes128_decrypt_block(&key, &cipher);
    Some(parse_picc_block(&block))
}

/// Encrypts an identity block as a tag does, and writes the result as 32 hex
/// digits in upper case.
///
/// The answer is `None` exactly if `sdm_meta_read_key` is not 32 hex digits.
/// Decrypting the result under the same key gives back the identity that
/// `block` holds.
pub fn encrypt_picc_data(sdm_meta_read_key: &str, block: &[u8; 16]) -> (enc_picc_data: Option<
    String,
>)
    ensures
        match enc_picc_data {
            Some(text) => block_of_text(sdm_meta_read_key@) matches Some(key) && text@ == hex_text(
                aes128_encrypted(key, block@),
                true,
            ) && picc_block(sdm_meta_read_key@, text@) == Some(block@),
            None => block_of_text(sdm_meta_read_key@) is None,
        },
{
    let key = match decode_hex_array::<16>(sdm_meta_read_key) {
        Ok(key) => key,
        Err(_) => {
            return None;
        },
    };
    let cipher = aes128_encrypt_block(&key, block);
    let text = encode_hex(cipher.as_slice(), true);
    proof {
        lemma_hex_round_trip(cipher@, true);
    }
    Some(text)
}

/// Reading undoes writing: the identity read out of a block that was laid
/// out from a tag data byte, a UID of seven bytes, a counter of 24 bits and
/// any filler is that very identity.
pub proof fn lemma_picc_layout_round_trip(picc: PiccView, filler: Seq<u8>)
    requires
        picc.uid.len() == 7,
        picc.read_counter <= 0xFF_FFFF,
        filler.len() == 5,
    ensures
        picc_of_block(seq![picc.tag_data] + picc.uid + counter_bytes(picc.read_counter) + filler)
            == picc,
{
    let block = seq![picc.tag_data] + picc.uid + counter_bytes(picc.read_counter) + filler;
    assert(block.subrange(1, 8) =~= picc.uid);
    assert(block[8] == counter_bytes(picc.read_counter)[0]);
    assert(block[9] == counter_bytes(picc.read_counter)[1]);
    assert(block[10] == counter_bytes(picc.read_counter)[2]);
}

} // verus!
