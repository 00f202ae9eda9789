//! The error taxonomy: construction-size failures and authentication
//! failure are the only error paths, and they are kept separable.

use vstd::prelude::*;

verus! {

/// An error surfaced to callers.
#[derive(Clone, Copy, PartialEq, Eq, Structural, Debug)]
pub enum Error {
    /// Construction was given a key whose length is not the variant's
    /// key size.
    InvalidKeyLength,
    /// An operation was given a nonce whose length is not the variant's
    /// nonce size.
    InvalidNonceLength,
    /// The tag check of an authenticated decryption failed; the buffer
    /// has been zeroed.
    AuthenticationFailure,
}

} // verus!
