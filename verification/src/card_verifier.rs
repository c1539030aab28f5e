//! The whole check of a tap, from the three hex fields to the decision.
//!
//! The steps follow one another and each can end the check: open the read,
//! check the authentication tag, decrypt the message, check that the
//! message is the issuer's signature over the UID, and at last ask the card
//! store whether the read counter is fresh. The store is asked, and
//! changed, only when everything before has passed.

use crate::crypto::{
    aes128_decrypted, cbc_decrypted, cmac_aes128, ed25519_accepts, ed25519_key_decodes,
    ed25519_key_is_valid, ed25519_verify,
};
use crate::db::{after_register, register_verdict, Db};
use crate::encoding::{bytes_to_array, decode_hex_array, hex_decoded_exact};
use crate::error::DenyReason;
use crate::picc::{block_of_text, picc_of_block, PiccData, PiccView};
use crate::sdm::{
    message_cipher, message_iv, session_enc_key, session_mac_key, tag_text, Sdm, SdmData,
};
use crate::server_settings::ServerSettings;
use crate::template::{formatted, formatter};
use vstd::prelude::*;
use vstd::utf8::*;

verus! {

/// The 32 bytes that the hex text `text` spells, if it spells 32.
pub open spec fn public_key_of_text(text: Seq<char>) -> Option<Seq<u8>> {
    hex_decoded_exact(encode_utf8(text), 32)
}

/// What the check of the signature answers, once the tap was found
/// authentic and its message decrypted to `message`.
pub open spec fn signature_verdict(public_key: Seq<char>, picc: PiccView, message: Seq<u8>) -> Result<
    PiccView,
    DenyReason,
> {
    match public_key_of_text(public_key) {
        None => Err(DenyReason::MalformedInput),
        Some(key) => if !ed25519_key_decodes(key) {
            Err(DenyReason::MalformedInput)
        } else if message.len() == 64 && ed25519_accepts(key, picc.uid, message) {
            Ok(picc)
        } else {
            Err(DenyReason::SignatureInvalid)
        },
    }
}

/// What the check answers before the card store is asked: the identity of
/// the tag, or why the tap is turned down.
///
/// Keys and identity block must be 32 hex digits each, else the input is
/// malformed. The tag `c` must be the one cut out of the CMAC, under the
/// session MAC key, of the template filled in with `e` and `m`, else the tap
/// is not authentic. The message must be a whole number of blocks, and the
/// public key 64 hex digits that encode a key, else the input is malformed.
/// The decrypted message must be a signature of 64 bytes that verifies over
/// the UID, else the signature is invalid.
pub open spec fn card_authentication(settings: ServerSettings, data: SdmData) -> Result<
    PiccView,
    DenyReason,
> {
    match (
        block_of_text(settings.sdm_meta_read_key@),
        block_of_text(settings.sdm_file_read_key@),
        block_of_text(data.e@),
    ) {
        (Some(meta), Some(file), Some(cipher)) => {
            let picc = picc_of_block(aes128_decrypted(meta, cipher));
            let session_key_enc = session_enc_key(file, picc.uid, picc.read_counter);
            let session_key_mac = session_mac_key(file, picc.uid, picc.read_counter);
            let cmac_input = encode_utf8(formatted(settings.cmac_input_format@, data.e@, data.m@));
            if data.c@ != tag_text(cmac_aes128(session_key_mac, cmac_input)) {
                Err(DenyReason::AuthenticityFailure)
            } else {
                match message_cipher(data.m@) {
                    None => Err(DenyReason::MalformedInput),
                    Some(message) => signature_verdict(
                        settings.public_key@,
                        picc,
                        cbc_decrypted(
                            session_key_enc,
                            message_iv(session_key_enc, picc.read_counter),
                            message,
                        ),
                    ),
                }
            }
        },
        _ => Err(DenyReason::MalformedInput),
    }
}

/// Whether `signature` is a signature of the issuer over the UID of a tag.
/// It is none if `public_key` does not encode a key.
pub fn verify_card_signature(uid: &[u8; 7], signature: &[u8; 64], public_key: &[u8; 32]) -> (valid:
    bool)
    ensures
        valid == (ed25519_key_decodes(public_key@) && ed25519_accepts(
            public_key@,
            uid@,
            signature@,
        )),
{
    if !ed25519_key_is_valid(public_key) {
        return false;
    }
    ed25519_verify(public_key, uid.as_slice(), signature)
}

/// Checks that the decrypted message of a tap is the issuer's signature
/// over the UID of the tag.
pub fn check_signature(public_key: &str, picc_data: PiccData, message: &[u8]) -> (checked: Result<
    PiccData,
    DenyReason,
>)
    ensures
        match checked {
            Ok(picc) => picc == picc_data && signature_verdict(public_key@, picc_data@, message@)
                == Ok::<PiccView, DenyReason>(picc_data@),
            Err(reason) => signature_verdict(public_key@, picc_data@, message@) == Err::<
                PiccView,
                DenyReason,
            >(reason),
        },
{
    let key = match decode_hex_array::<32>(public_key) {
        Ok(key) => key,
        Err(reason) => {
            return Err(reason);
        },
    };
    if !ed25519_key_is_valid(&key) {
        return Err(DenyReason::MalformedInput);
    }
    let signature = match bytes_to_array::<64>(message) {
        Some(signature) => signature,
        None => {
            return Err(DenyReason::SignatureInvalid);
        },
    };
    if verify_card_signature(&picc_data.uid, &signature, &key) {
        Ok(picc_data)
    } else {
        Err(DenyReason::SignatureInvalid)
    }
}

/// Checks a tap as far as that can be done without the card store, and
/// tells which tag it comes from and which read counter it shows.
pub fn authenticate_card(server_settings: &ServerSettings, sdmdata: &SdmData) -> (checked: Result<
    PiccData,
    DenyReason,
>)
    ensures
        match checked {
            Ok(picc) => card_authentication(*server_settings, *sdmdata) == Ok::<
                PiccView,
                DenyReason,
            >(picc@) && picc.read_counter <= 0xFF_FFFF,
            Err(reason) => card_authentication(*server_settings, *sdmdata) == Err::<
                PiccView,
                DenyReason,
            >(reason),
        },
{
    let s = match Sdm::new(
        server_settings.sdm_meta_read_key.as_str(),
        server_settings.sdm_file_read_key.as_str(),
        sdmdata.clone(),
    ) {
        Ok(s) => s,
        Err(reason) => {
            return Err(reason);
        },
    };
    let cmac_input = formatter(
        server_settings.cmac_input_format.as_str(),
        sdmdata.e.as_str(),
        sdmdata.m.as_str(),
    );
    if !s.verify(cmac_input.as_str()) {
        return Err(DenyReason::AuthenticityFailure);
    }
    let decrypted_message = match s.decrypt_message() {
        Ok(message) => message,
        Err(reason) => {
            return Err(reason);
        },
    };
    check_signature(
        server_settings.public_key.as_str(),
        s.picc_data(),
        decrypted_message.as_slice(),
    )
}

/// Checks a tap and, if everything else has passed, registers it with the
/// card store.
///
/// The answer is `Ok` exactly if the tap is authentic, carries the issuer's
/// signature and shows a read counter that the store takes as fresh. The
/// store is changed exactly then: a tap that is turned down, for whatever
/// reason, leaves every record as it was.
pub fn verify_card(server_settings: &ServerSettings, sdmdata: &SdmData, db: &mut Db) -> (verdict:
    Result<(), DenyReason>)
    requires
        old(db).wf(),
    ensures
        final(db).wf(),
        verdict is Err ==> final(db)@ == old(db)@,
        match card_authentication(*server_settings, *sdmdata) {
            Err(reason) => verdict == Err::<(), DenyReason>(reason),
            Ok(picc) => verdict == register_verdict(old(db)@, picc.uid, picc.read_counter)
                && final(db)@ == after_register(old(db)@, picc.uid, picc.read_counter),
        },
{
    match authenticate_card(server_settings, sdmdata) {
        Ok(picc) => db.register_card(&picc.uid, picc.read_counter),
        Err(reason) => Err(reason),
    }
}

} // verus!
