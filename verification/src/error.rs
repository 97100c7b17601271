//! The reasons for which authentication fails.

use vstd::prelude::*;

verus! {

/// Why a request could not be authenticated.
///
/// Each value is a coarse kind only: none carries key material or any detail
/// of a cryptographic failure.
#[derive(Clone, Copy, Debug, PartialEq, Eq, Structural)]
pub enum AuthError {
    /// No credential was supplied, or no privileged account exists to stand
    /// in for the caller.
    Missing,
    /// The credential is invalid in a way no other kind names.
    Invalid,
    /// The key could not be provisioned.
    InvalidKey,
    /// A structure held the wrong number of parts.
    BadCount,
    /// The read transaction on the user store could not be opened.
    DBError,
    /// The lookup in the user store failed.
    DBQueryError,
    /// The credential text is not valid base64.
    BadBase64,
    /// The decoded credential is too short to hold a nonce and anything after it.
    ShortData,
    /// The credential did not authenticate under the key, or did not hold a
    /// user identifier.
    DecryptError,
    /// The credential could not be taken out of its transport.
    CookieError,
}

/// How a failure is shown to the outside.
#[derive(Clone, Copy, Debug, PartialEq, Eq, Structural)]
pub enum Surface {
    /// The request is turned away as unauthenticated.
    Unauthenticated,
    /// The request is turned away because the backend failed.
    BackendFailure,
    /// The process must not start serving.
    Fatal,
}

impl AuthError {
    /// How this failure is shown: a user store that cannot be reached is a
    /// failure of the backend, a key that cannot be provisioned stops the
    /// startup, and every other failure leaves the caller unauthenticated,
    /// without telling one reason from another.
    pub open spec fn surfaced(self) -> Surface {
        match self {
            AuthError::DBError => Surface::BackendFailure,
            AuthError::InvalidKey => Surface::Fatal,
            _ => Surface::Unauthenticated,
        }
    }

    /// Tells how this failure is shown to the outside.
    pub fn surface(&self) -> (shown: Surface)
        ensures
            shown == self.surfaced(),
    {
        match self {
            AuthError::DBError => Surface::BackendFailure,
            AuthError::InvalidKey => Surface::Fatal,
            _ => Surface::Unauthenticated,
        }
    }
}

} // verus!
