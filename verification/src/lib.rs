//! Opaque bearer tokens for user identities, and the authentication of a
//! request by such a token.
//!
//! A token is the base64 text of `nonce || ciphertext || tag`, where the
//! ciphertext and tag come from sealing the eight big-endian bytes of a user
//! identifier with AES-256-GCM under the key held by a [`KeyStore`].

pub mod bytes;
pub mod error;
pub mod gate;
pub mod key;
pub mod token;
pub mod user;

pub use error::{AuthError, Surface};
pub use gate::{bypass_step, verified_step, GateAction, GateEvent, GateState};
pub use key::{generate_key, get_key, set_key, KeyStore};
pub use token::{user_cookie_decode, user_cookie_generate};
pub use user::{User, UserID, Wrapper};
