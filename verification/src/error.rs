//! Why a verification attempt was denied.

use vstd::prelude::*;

verus! {

/// The reason for which a tap was turned down.
///
/// Every reason is terminal for the request. Callers may log it, but should
/// show the outside world a single "access denied".
#[derive(Clone, Copy, Debug, PartialEq, Eq, Structural)]
pub enum DenyReason {
    /// A hex field or a key has the wrong length or holds a non-hex symbol,
    /// or a counter does not fit in 24 bits.
    MalformedInput,
    /// The authentication tag computed over the message differs from the one
    /// that came with it.
    AuthenticityFailure,
    /// The read counter is not greater than the one last accepted.
    ReplayDetected,
    /// The decrypted message is no signature of the issuer over the UID.
    SignatureInvalid,
    /// The card store could not take the record.
    StorageError,
}

impl DenyReason {
    /// Whether a later attempt with the very same input could succeed.
    /// Only a failure of the store is of that kind.
    pub fn is_transient(&self) -> (transient: bool)
        ensures
            transient == (*self == DenyReason::StorageError),
    {
        match self {
            DenyReason::StorageError => true,
            _ => false,
        }
    }
}

} // verus!
