//! One read of a tag: its session keys, the check of its authentication tag
//! and the decryption of its message.

use crate::crypto::{
    aes128_cbc_decrypt, aes128_cmac, aes128_decrypt_block, aes128_decrypted, aes128_encrypt_block,
    aes128_encrypted, cbc_decrypted, cmac_aes128,
};
use crate::encoding::{decode_hex, decode_hex_array, encode_hex, hex_decoded, hex_text};
use crate::error::DenyReason;
use crate::picc::{block_of_text, counter_bytes, parse_picc_block, picc_of_block, PiccData};
use vstd::prelude::*;
use vstd::string::*;
use vstd::utf8::*;

verus! {

/// What a tap hands over, each field as hex text: the encrypted identity
/// block `e`, the encrypted message `m` and the authentication tag `c`.
#[derive(Debug)]
pub struct SdmData {
    pub e: String,
    pub m: String,
    pub c: String,
}

impl Clone for SdmData {
    fn clone(&self) -> (copy: Self)
        ensures
            copy == *self,
    {
        SdmData { e: self.e.clone(), m: self.m.clone(), c: self.c.clone() }
    }
}

/// The two root keys as they are configured: 32 hex digits each.
pub struct AsciiKeys {
    pub sdm_meta_read: String,
    pub sdm_file_read: String,
}

/// The two root keys: the one that opens the identity block and the one
/// from which the session keys of a read are derived.
pub struct SdmKeys {
    pub sdm_meta_read: [u8; 16],
    pub sdm_file_read: [u8; 16],
}

/// Overwrites a key with zeros.
fn wipe(key: &mut [u8; 16])
    ensures
        forall|k: int| 0 <= k < 16 ==> final(key)@[k] == 0,
    opens_invariants none
    no_unwind
{
    let mut i: usize = 0;
    while i < 16
        invariant
            i <= 16,
            forall|k: int| 0 <= k < i ==> key@[k] == 0,
        decreases 16 - i,
    {
        key[i] = 0;
        i += 1;
    }
}

impl Drop for SdmKeys {
    /// Both keys are overwritten with zeros when they are let go.
    fn drop(&mut self)
        ensures
            forall|k: int| 0 <= k < 16 ==> final(self).sdm_meta_read@[k] == 0,
            forall|k: int| 0 <= k < 16 ==> final(self).sdm_file_read@[k] == 0,
        opens_invariants none
        no_unwind
    {
        wipe(&mut self.sdm_meta_read);
        wipe(&mut self.sdm_file_read);
    }
}

impl SdmKeys {
    /// Reads both keys. The answer is `MalformedInput` exactly if one of
    /// them is not 32 hex digits.
    pub fn try_from(keys: &AsciiKeys) -> (read: Result<SdmKeys, DenyReason>)
        ensures
            match read {
                Ok(read) => block_of_text(keys.sdm_meta_read@) == Some(read.sdm_meta_read@)
                    && block_of_text(keys.sdm_file_read@) == Some(read.sdm_file_read@),
                Err(reason) => reason == DenyReason::MalformedInput && (block_of_text(
                    keys.sdm_meta_read@,
                ) is None || block_of_text(keys.sdm_file_read@) is None),
            },
    {
        let sdm_meta_read = match decode_hex_array::<16>(keys.sdm_meta_read.as_str()) {
            Ok(key) => key,
            Err(reason) => {
                return Err(reason);
            },
        };
        let sdm_file_read = match decode_hex_array::<16>(keys.sdm_file_read.as_str()) {
            Ok(key) => key,
            Err(reason) => {
                return Err(reason);
            },
        };
        Ok(SdmKeys { sdm_meta_read, sdm_file_read })
    }
}

/// The six bytes that begin the session vector of the encryption key.
pub open spec fn enc_prefix() -> Seq<u8> {
    seq![0xC3u8, 0x3Cu8, 0x00u8, 0x01u8, 0x00u8, 0x80u8]
}

/// The six bytes that begin the session vector of the MAC key.
pub open spec fn mac_prefix() -> Seq<u8> {
    seq![0x3Cu8, 0xC3u8, 0x00u8, 0x01u8, 0x00u8, 0x80u8]
}

/// A session vector: the prefix, the UID and the three bytes of the read
/// counter, 16 bytes in all.
pub open spec fn session_vector(prefix: Seq<u8>, uid: Seq<u8>, counter: u32) -> Seq<u8> {
    prefix + uid + counter_bytes(counter)
}

/// The session key that decrypts the message of the read `counter` of the
/// tag `uid`.
pub open spec fn session_enc_key(file_read_key: Seq<u8>, uid: Seq<u8>, counter: u32) -> Seq<u8> {
    cmac_aes128(file_read_key, session_vector(enc_prefix(), uid, counter))
}

/// The session key that authenticates the read `counter` of the tag `uid`.
pub open spec fn session_mac_key(file_read_key: Seq<u8>, uid: Seq<u8>, counter: u32) -> Seq<u8> {
    cmac_aes128(file_read_key, session_vector(mac_prefix(), uid, counter))
}

/// The block that is encrypted to give the initialization vector of a
/// read: the three bytes of the counter and 13 zero bytes.
pub open spec fn iv_input(counter: u32) -> Seq<u8> {
    counter_bytes(counter) + Seq::new(13, |i: int| 0u8)
}

/// The initialization vector under which the message of the read `counter`
/// is decrypted.
pub open spec fn message_iv(session_key_enc: Seq<u8>, counter: u32) -> Seq<u8> {
    aes128_encrypted(session_key_enc, iv_input(counter))
}

/// The authentication tag cut out of a full 16-byte CMAC: the bytes at the
/// odd places 1, 3, ..., 15.
pub open spec fn mac_tag(full: Seq<u8>) -> Seq<u8> {
    Seq::new(8, |i: int| full[2 * i + 1])
}

/// The authentication tag as it travels: 16 hex digits in upper case.
pub open spec fn tag_text(full: Seq<u8>) -> Seq<char> {
    hex_text(mac_tag(full), true)
}

/// The ciphertext that the hex text `m` spells, if it spells a whole
/// number of 16-byte blocks and at least one.
pub open spec fn message_cipher(m: Seq<char>) -> Option<Seq<u8>> {
    match hex_decoded(encode_utf8(m)) {
        Some(cipher) => if cipher.len() > 0 && cipher.len() % 16 == 0 {
            Some(cipher)
        } else {
            None
        },
        None => None,
    }
}

/// Cuts the authentication tag out of a full CMAC.
pub fn truncate_mac(full: &[u8; 16]) -> (tag: [u8; 8])
    ensures
        tag@ == mac_tag(full@),
{
    let mut tag: [u8; 8] = [0u8; 8];
    let mut i: usize = 0;
    while i < 8
        invariant
            i <= 8,
            forall|k: int| 0 <= k < i ==> tag@[k] == full@[2 * k + 1],
        decreases 8 - i,
    {
        tag[i] = full[2 * i + 1];
        i += 1;
    }
    assert(tag@ =~= mac_tag(full@));
    tag
}

/// The authentication tag of a full CMAC as 16 hex digits in upper case.
pub fn mac_tag_hex(full: &[u8; 16]) -> (text: String)
    ensures
        text@ == tag_text(full@),
{
    let tag = truncate_mac(full);
    encode_hex(tag.as_slice(), true)
}

/// Whether two byte strings are the same. All bytes are looked at, also
/// after the first difference, so that the time taken does not tell where
/// two strings of one length differ.
pub fn constant_time_eq(a: &[u8], b: &[u8]) -> (same: bool)
    ensures
        same == (a@ == b@),
{
    if a.len() != b.len() {
        return false;
    }
    let mut diff: u8 = 0;
    let mut i: usize = 0;
    while i < a.len()
        invariant
            i <= a.len(),
            a.len() == b.len(),
            (diff == 0) == (forall|k: int| 0 <= k < i ==> a@[k] == b@[k]),
        decreases a.len() - i,
    {
        let x: u8 = a[i];
        let y: u8 = b[i];
        let before: u8 = diff;
        diff = diff | (x ^ y);
        assert((diff == 0) == (before == 0 && x == y)) by (bit_vector)
            requires
                diff == before | (x ^ y),
        ;
        i += 1;
    }
    assert((diff == 0) == (a@ =~= b@));
    diff == 0
}

/// Whether two texts are the same, decided in time that does not depend on
/// where they differ.
pub fn constant_time_text_eq(a: &str, b: &str) -> (same: bool)
    ensures
        same == (a@ == b@),
{
    let same = constant_time_eq(a.as_bytes(), b.as_bytes());
    proof {
        encode_utf8_decode_utf8(a@);
        encode_utf8_decode_utf8(b@);
    }
    same
}

/// One of the two session vectors of a read.
fn session_vector_bytes(encryption: bool, picc_data: &PiccData) -> (vector: Vec<u8>)
    ensures
        vector@ == session_vector(
            if encryption {
                enc_prefix()
            } else {
                mac_prefix()
            },
            picc_data.uid@,
            picc_data.read_counter,
        ),
{
    let counter = picc_data.counter_le_bytes();
    let mut vector: Vec<u8> = Vec::new();
    if encryption {
        vector.push(0xC3);
        vector.push(0x3C);
    } else {
        vector.push(0x3C);
        vector.push(0xC3);
    }
    vector.push(0x00);
    vector.push(0x01);
    vector.push(0x00);
    vector.push(0x80);
    let ghost prefix = vector@;
    let mut i: usize = 0;
    while i < 7
        invariant
            i <= 7,
            vector@.len() == 6 + i,
            vector@.subrange(0, 6) == prefix,
            forall|k: int| 0 <= k < i ==> vector@[6 + k] == picc_data.uid@[k],
        decreases 7 - i,
    {
        vector.push(picc_data.uid[i]);
        assert(vector@.subrange(0, 6) =~= prefix);
        i += 1;
    }
    vector.push(counter[0]);
    vector.push(counter[1]);
    vector.push(counter[2]);
    assert(vector@ =~= prefix + picc_data.uid@ + counter@);
    assert(prefix =~= if encryption {
        enc_prefix()
    } else {
        mac_prefix()
    });
    vector
}

/// One read of a tag, opened: the identity it showed, what it handed over
/// and the keys of this read.
pub struct Sdm {
    data: SdmData,
    picc_data: PiccData,
    session_key_enc: [u8; 16],
    session_key_mac: [u8; 16],
    ive: [u8; 16],
}

/// A read as contracts see it.
pub struct SdmView {
    pub data: SdmData,
    pub picc_data: PiccData,
    pub session_key_enc: Seq<u8>,
    pub session_key_mac: Seq<u8>,
    pub ive: Seq<u8>,
}

impl View for Sdm {
    type V = SdmView;

    closed spec fn view(&self) -> SdmView {
        SdmView {
            data: self.data,
            picc_data: self.picc_data,
            session_key_enc: self.session_key_enc@,
            session_key_mac: self.session_key_mac@,
            ive: self.ive@,
        }
    }
}

/// Whether `sdm` is the read that `data` opens to under the two root keys.
pub open spec fn sdm_opens(
    sdm: Sdm,
    sdm_meta_read: Seq<u8>,
    sdm_file_read: Seq<u8>,
    data: SdmData,
) -> bool {
    let picc = sdm@.picc_data;
    &&& sdm@.data == data
    &&& picc.read_counter <= 0xFF_FFFF
    &&& block_of_text(data.e@) matches Some(cipher) && picc@ == picc_of_block(
        aes128_decrypted(sdm_meta_read, cipher),
    )
    &&& sdm@.session_key_enc == session_enc_key(sdm_file_read, picc.uid@, picc.read_counter)
    &&& sdm@.session_key_mac == session_mac_key(sdm_file_read, picc.uid@, picc.read_counter)
    &&& sdm@.ive == message_iv(sdm@.session_key_enc, picc.read_counter)
}

impl Drop for Sdm {
    /// The session keys and the initialization vector are overwritten with
    /// zeros when the read is let go: they serve one read and no other.
    fn drop(&mut self)
        ensures
            forall|k: int| 0 <= k < 16 ==> final(self)@.session_key_enc[k] == 0,
            forall|k: int| 0 <= k < 16 ==> final(self)@.session_key_mac[k] == 0,
            forall|k: int| 0 <= k < 16 ==> final(self)@.ive[k] == 0,
        opens_invariants none
        no_unwind
    {
        wipe(&mut self.session_key_enc);
        wipe(&mut self.session_key_mac);
        wipe(&mut self.ive);
    }
}

impl Sdm {
    /// Opens a read: decrypts the identity block, derives both session keys
    /// and the initialization vector of the message.
    ///
    /// The answer is `MalformedInput` exactly if one of the keys or the
    /// identity block `data.e` is not 32 hex digits.
    pub fn new(sdm_meta_read_key: &str, sdm_file_read_key: &str, data: SdmData) -> (opened: Result<
        Sdm,
        DenyReason,
    >)
        ensures
            match opened {
                Ok(sdm) => block_of_text(sdm_meta_read_key@) matches Some(meta) && block_of_text(
                    sdm_file_read_key@,
                ) matches Some(file) && sdm_opens(sdm, meta, file, data),
                Err(reason) => reason == DenyReason::MalformedInput && (block_of_text(
                    sdm_meta_read_key@,
                ) is None || block_of_text(sdm_file_read_key@) is None || block_of_text(data.e@)
                    is None),
            },
    {
        let ascii = AsciiKeys {
            sdm_meta_read: String::from_str(sdm_meta_read_key),
            sdm_file_read: String::from_str(sdm_file_read_key),
        };
        let keys = match SdmKeys::try_from(&ascii) {
            Ok(keys) => keys,
            Err(reason) => {
                return Err(reason);
            },
        };
        let picc_data = match Self::decrypt_picc_data(&keys, data.e.as_str()) {
            Some(picc_data) => picc_data,
            None => {
                return Err(DenyReason::MalformedInput);
            },
        };
        let (session_key_enc, session_key_mac) = Self::calculate_session_keys(&keys, &picc_data);
        let counter = picc_data.counter_le_bytes();
        let mut ive_input: [u8; 16] = [0u8; 16];
        ive_input[0] = counter[0];
        ive_input[1] = counter[1];
        ive_input[2] = counter[2];
        assert(ive_input@ =~= iv_input(picc_data.read_counter));
        let ive = aes128_encrypt_block(&session_key_enc, &ive_input);
        Ok(Sdm { data, picc_data, session_key_enc, session_key_mac, ive })
    }

    /// The identity that the tag showed on this read.
    pub fn picc_data(&self) -> (picc: PiccData)
        ensures
            picc == self@.picc_data,
    {
        self.picc_data
    }

    /// Derives the two keys of a read from the file-read key, the UID and
    /// the read counter: first the one that decrypts the message, then the
    /// one that authenticates it. Each is the CMAC of its session vector.
    pub fn calculate_session_keys(keys: &SdmKeys, picc_data: &PiccData) -> (session: (
        [u8; 16],
        [u8; 16],
    ))
        ensures
            session.0@ == session_enc_key(
                keys.sdm_file_read@,
                picc_data.uid@,
                picc_data.read_counter,
            ),
            session.1@ == session_mac_key(
                keys.sdm_file_read@,
                picc_data.uid@,
                picc_data.read_counter,
            ),
    {
        let sv1 = session_vector_bytes(true, picc_data);
        let sv2 = session_vector_bytes(false, picc_data);
        let session_key_enc = aes128_cmac(&keys.sdm_file_read, sv1.as_slice());
        let session_key_mac = aes128_cmac(&keys.sdm_file_read, sv2.as_slice());
        (session_key_enc, session_key_mac)
    }

    /// Decrypts the identity block `enc_picc_data` under the meta-read key.
    /// The answer is `None` exactly if the block is not 32 hex digits.
    pub fn decrypt_picc_data(keys: &SdmKeys, enc_picc_data: &str) -> (picc: Option<PiccData>)
        ensures
            match picc {
                Some(picc) => block_of_text(enc_picc_data@) matches Some(cipher) && picc@
                    == picc_of_block(aes128_decrypted(keys.sdm_meta_read@, cipher))
                    && picc.read_counter <= 0xFF_FFFF,
                None => block_of_text(enc_picc_data@) is None,
            },
    {
        let cipher = match decode_hex_array::<16>(enc_picc_data) {
            Ok(cipher) => cipher,
            Err(_) => {
                return None;
            },
        };
        let block = aes128_decrypt_block(&keys.sdm_meta_read, &cipher);
        Some(parse_picc_block(&block))
    }

    /// Whether the tag `c` of this read authenticates `cmac_input`: whether
    /// it is, digit for digit and in upper case, the tag cut out of the CMAC
    /// of `cmac_input` under the session MAC key.
    pub fn verify(&self, cmac_input: &str) -> (authentic: bool)
        ensures
            authentic == (self@.data.c@ == tag_text(
                cmac_aes128(self@.session_key_mac, encode_utf8(cmac_input@)),
            )),
    {
        let full = aes128_cmac(&self.session_key_mac, cmac_input.as_bytes());
        let calc_mac = mac_tag_hex(&full);
        constant_time_text_eq(calc_mac.as_str(), self.data.c.as_str())
    }

    /// Decrypts the message `m` of this read, in CBC mode under the session
    /// encryption key and the initialization vector of the read. Nothing is
    /// cut off the result.
    ///
    /// The answer is `MalformedInput` exactly if `m` is not hex text that
    /// spells a whole number of 16-byte blocks, and at least one.
    pub fn decrypt_message(&self) -> (message: Result<Vec<u8>, DenyReason>)
        ensures
            match message {
                Ok(plain) => message_cipher(self@.data.m@) matches Some(cipher) && plain@
                    == cbc_decrypted(self@.session_key_enc, self@.ive, cipher),
                Err(reason) => reason == DenyReason::MalformedInput && message_cipher(
                    self@.data.m@,
                ) is None,
            },
    {
        let cipher = match decode_hex(self.data.m.as_str()) {
            Ok(cipher) => cipher,
            Err(reason) => {
                return Err(reason);
            },
        };
        if cipher.len() == 0 || cipher.len() % 16 != 0 {
            return Err(DenyReason::MalformedInput);
        }
        Ok(aes128_cbc_decrypt(&self.session_key_enc, &self.ive, cipher.as_slice()))
    }
}

/// Checks the authentication tag of a read that carries no message: `mac`
/// must be the tag cut out of the CMAC of the empty text under the session
/// MAC key of the read.
///
/// The answer is `MalformedInput` exactly if `sdm_file_read_mac`, the
/// file-read key, is not 32 hex digits.
pub fn verify_mac(sdm_file_read_mac: &str, picc_data: &PiccData, mac: &str) -> (authentic: Result<
    bool,
    DenyReason,
>)
    ensures
        match authentic {
            Ok(authentic) => block_of_text(sdm_file_read_mac@) matches Some(key) && authentic == (
            mac@ == tag_text(
                cmac_aes128(
                    session_mac_key(key, picc_data.uid@, picc_data.read_counter),
                    Seq::<u8>::empty(),
                ),
            )),
            Err(reason) => reason == DenyReason::MalformedInput && block_of_text(
                sdm_file_read_mac@,
            ) is None,
        },
{
    let key = match decode_hex_array::<16>(sdm_file_read_mac) {
        Ok(key) => key,
        Err(reason) => {
            return Err(reason);
        },
    };
    let sv2 = session_vector_bytes(false, picc_data);
    let session_key = aes128_cmac(&key, sv2.as_slice());
    let nothing: Vec<u8> = Vec::new();
    let mac_result = aes128_cmac(&session_key, nothing.as_slice());
    let calc_mac = mac_tag_hex(&mac_result);
    Ok(constant_time_text_eq(calc_mac.as_str(), mac))
}

/// A read whose message, identity block or template was changed after the
/// tag made it is turned down, unless the change leaves the tag cut out of
/// the CMAC as it was: a tag authenticates every text with that same cut,
/// and no other.
pub proof fn lemma_changed_input_is_rejected(
    session_key_mac: Seq<u8>,
    c: Seq<char>,
    cmac_input: Seq<u8>,
    changed: Seq<u8>,
)
    requires
        c == tag_text(cmac_aes128(session_key_mac, cmac_input)),
        mac_tag(cmac_aes128(session_key_mac, changed)) != mac_tag(
            cmac_aes128(session_key_mac, cmac_input),
        ),
    ensures
        c != tag_text(cmac_aes128(session_key_mac, changed)),
{
    let was = mac_tag(cmac_aes128(session_key_mac, cmac_input));
    let now = mac_tag(cmac_aes128(session_key_mac, changed));
    if hex_text(was, true) == hex_text(now, true) {
        crate::encoding::lemma_hex_round_trip(was, true);
        crate::encoding::lemma_hex_round_trip(now, true);
    }
}

} // verus!
