//! A family of symmetric cryptographic primitives built on one shared
//! 1024-bit state permutation: a counter-mode stream cipher, a sponge
//! that yields an extendable-output function, a fixed-length hash and a
//! keyed message-authentication code, and a sponge-duplex authenticated
//! encryption with associated data.  Two parameter sets exist per cipher
//! family, differing in key size and round count.

pub mod aead;
pub mod error;
pub mod permutation;
pub mod sponge;
pub mod stream;
pub mod variant;
pub mod wipe;
pub mod words;

pub use crate::aead::Ysc2Aead;
pub use crate::error::Error;
pub use crate::permutation::PermutationKind;
pub use crate::sponge::{FixedOutputCoreWrapper, Reader, Ysc2xCore};
pub use crate::stream::{AuxCryptCore, Ysc2Core, Ysc2StreamCipher, Ysc2StreamCore};
pub use crate::variant::{AuxCrypt1024, AuxCrypt512, AuxCryptVariant, Ysc2Variant, Ysc2_1024, Ysc2_512};
