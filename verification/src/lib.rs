//! Verification of NFC tags that speak Secure Dynamic Messaging (SDM).
//!
//! A tap on a tag yields three hex fields: the encrypted tag identity, an
//! encrypted message and a truncated authentication tag. This library
//! recovers the identity and read counter, derives the per-read session
//! keys, checks the authentication tag, decrypts the message, checks the
//! issuer's signature over the tag's UID and finally enforces that the read
//! counter of a tag only ever moves forward.

pub mod access;
pub mod card_verifier;
pub mod crypto;
pub mod db;
pub mod encoding;
pub mod error;
pub mod picc;
pub mod sdm;
pub mod server_settings;
pub mod template;

pub use error::DenyReason;
