//! What a deployment configures.

use vstd::prelude::*;

verus! {

/// The settings of a server that checks taps.
#[derive(Debug)]
pub struct ServerSettings {
    /// The key that opens the identity block: 32 hex digits.
    pub sdm_meta_read_key: String,
    /// The key from which session keys are derived: 32 hex digits.
    pub sdm_file_read_key: String,
    /// The template of the text that a tag authenticates.
    pub cmac_input_format: String,
    /// The Ed25519 public key of the issuer of the tags: 64 hex digits.
    pub public_key: String,
    /// Where the files lie that only a holder of a tag may see.
    pub secret_files: String,
    /// The port on which the server listens.
    pub listen_port: u16,
}

impl Clone for ServerSettings {
    fn clone(&self) -> (copy: Self)
        ensures
            copy == *self,
    {
        ServerSettings {
            sdm_meta_read_key: self.sdm_meta_read_key.clone(),
            sdm_file_read_key: self.sdm_file_read_key.clone(),
            cmac_input_format: self.cmac_input_format.clone(),
            public_key: self.public_key.clone(),
            secret_files: self.secret_files.clone(),
            listen_port: self.listen_port,
        }
    }
}

} // verus!
