//! The primitives that the protocol is built from: the AES-128 block cipher,
//! CBC decryption and CMAC over it, and Ed25519 signatures.
//!
//! None of them is computed here. Each function below hands its arguments
//! to the crate that implements the primitive, and its contract is taken on
//! trust. What a primitive returns is a function of its arguments alone;
//! contracts speak of it under the names declared first.

use aes::cipher::{BlockDecrypt, BlockDecryptMut, BlockEncrypt, KeyInit, KeyIvInit};
use aes::Aes128;
use cmac::{Cmac, Mac};
use ed25519_dalek::{Signature, Verifier, VerifyingKey};
use vstd::prelude::*;

verus! {

/// The 16 bytes that AES-128 under the 16-byte `key` makes of the 16-byte
/// `block` when it encrypts.
pub uninterp spec fn aes128_encrypted(key: Seq<u8>, block: Seq<u8>) -> Seq<u8>;

/// The 16 bytes that AES-128 under the 16-byte `key` makes of the 16-byte
/// `block` when it decrypts.
pub uninterp spec fn aes128_decrypted(key: Seq<u8>, block: Seq<u8>) -> Seq<u8>;

/// The 16-byte CMAC of `message` under the 16-byte `key`, with AES-128 as
/// the block cipher.
pub uninterp spec fn cmac_aes128(key: Seq<u8>, message: Seq<u8>) -> Seq<u8>;

/// Whether the 32 bytes `public_key` are the encoding of an Ed25519 public
/// key.
pub uninterp spec fn ed25519_key_decodes(public_key: Seq<u8>) -> bool;

/// Whether the 64 bytes `signature` are a signature of `message` that
/// verifies under the Ed25519 public key encoded by `public_key`.
pub uninterp spec fn ed25519_accepts(
    public_key: Seq<u8>,
    message: Seq<u8>,
    signature: Seq<u8>,
) -> bool;

/// Block `i` of `data`, cut into blocks of 16 bytes.
pub open spec fn block_at(data: Seq<u8>, i: int) -> Seq<u8> {
    data.subrange(16 * i, 16 * i + 16)
}

/// CBC decryption of `data`, a whole number of 16-byte blocks, under `key`
/// and the initialization vector `iv`: each block is decrypted with AES-128
/// and then combined by exclusive or with the ciphertext block before it,
/// the first one with `iv`.
pub open spec fn cbc_decrypted(key: Seq<u8>, iv: Seq<u8>, data: Seq<u8>) -> Seq<u8> {
    Seq::new(
        data.len(),
        |k: int|
            {
                let chained = if k / 16 == 0 {
                    iv
                } else {
                    block_at(data, k / 16 - 1)
                };
                aes128_decrypted(key, block_at(data, k / 16))[k % 16] ^ chained[k % 16]
            },
    )
}

/// `Aes128::encrypt_block` under a cipher made by `Aes128::new`. The result
/// is the encryption of `block` under `key`, and decrypting it under the
/// same key gives `block` back, as the documentation of the `aes` crate
/// shows by example.
#[verifier::external_body]
pub(crate) fn aes128_encrypt_block(key: &[u8; 16], block: &[u8; 16]) -> (cipher: [u8; 16])
    ensures
        cipher@ == aes128_encrypted(key@, block@),
        aes128_decrypted(key@, cipher@) == block@,
{
    let mut buffer = aes::Block::from(*block);
    Aes128::new(key.into()).encrypt_block(&mut buffer);
    buffer.into()
}

/// `Aes128::decrypt_block` under a cipher made by `Aes128::new`. The result
/// is the decryption of `block` under `key`.
#[verifier::external_body]
pub(crate) fn aes128_decrypt_block(key: &[u8; 16], block: &[u8; 16]) -> (plain: [u8; 16])
    ensures
        plain@ == aes128_decrypted(key@, block@),
{
    let mut buffer = aes::Block::from(*block);
    Aes128::new(key.into()).decrypt_block(&mut buffer);
    buffer.into()
}

/// `Mac::update` and `Mac::finalize` on a `Cmac<Aes128>` made by
/// `KeyInit::new`. The result is the CMAC of `message` under `key`.
#[verifier::external_body]
pub(crate) fn aes128_cmac(key: &[u8; 16], message: &[u8]) -> (tag: [u8; 16])
    ensures
        tag@ == cmac_aes128(key@, message@),
{
    let mut mac = <Cmac<Aes128> as KeyInit>::new(key.into());
    mac.update(message);
    mac.finalize().into_bytes().into()
}

/// `BlockDecryptMut::decrypt_blocks_mut` on a `cbc::Decryptor<Aes128>` made
/// by `KeyIvInit::new`. The decryptor replaces every block by its AES-128
/// decryption combined by exclusive or with the ciphertext block before it,
/// the first one with `iv`. The input must be a whole number of blocks.
#[verifier::external_body]
pub(crate) fn aes128_cbc_decrypt(key: &[u8; 16], iv: &[u8; 16], data: &[u8]) -> (plain: Vec<u8>)
    requires
        data@.len() % 16 == 0,
    ensures
        plain@ == cbc_decrypted(key@, iv@, data@),
{
    let mut blocks: Vec<aes::Block> = data.chunks(16).map(aes::Block::clone_from_slice).collect();
    cbc::Decryptor::<Aes128>::new(key.into(), iv.into()).decrypt_blocks_mut(&mut blocks);
    blocks.iter().flat_map(|block| block.iter().copied()).collect()
}

/// `VerifyingKey::from_bytes`: whether it takes `public_key` for the
/// encoding of a public key.
#[verifier::external_body]
pub(crate) fn ed25519_key_is_valid(public_key: &[u8; 32]) -> (valid: bool)
    ensures
        valid == ed25519_key_decodes(public_key@),
{
    VerifyingKey::from_bytes(public_key).is_ok()
}

/// `Verifier::verify` on the `VerifyingKey` that `public_key` encodes, with
/// the signature read by `Signature::from_bytes`: whether the signature
/// verifies. The key must be one that decodes.
#[verifier::external_body]
pub(crate) fn ed25519_verify(public_key: &[u8; 32], message: &[u8], signature: &[u8; 64]) -> (valid:
    bool)
    requires
        ed25519_key_decodes(public_key@),
    ensures
        valid == ed25519_accepts(public_key@, message@, signature@),
{
    match VerifyingKey::from_bytes(public_key) {
        Ok(key) => key.verify(message, &Signature::from_bytes(signature)).is_ok(),
        Err(_) => false,
    }
}

} // verus!
