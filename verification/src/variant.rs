//! Variant descriptors: the per-variant parameter sets (key size, nonce
//! size, round count, round-function kind) and the domain strings that
//! separate the keyed modes.

use vstd::prelude::*;
use crate::permutation::PermutationKind;

verus! {

/// A parameter set an instance runs with.
#[derive(Clone, Copy, PartialEq, Eq, Structural, Debug)]
pub struct Ysc2Variant {
    /// Which non-linear layer the permutation uses.
    pub kind: PermutationKind,
    /// Key size in bytes.
    pub key_bytes: usize,
    /// Nonce size in bytes.
    pub nonce_bytes: usize,
    /// Round count of the permutation.
    pub rounds: usize,
}

/// The auxiliary family's variants use the same descriptor.
pub type AuxCryptVariant = Ysc2Variant;

impl Ysc2Variant {
    /// A well-formed parameter set: a 64- or 128-byte key, a 64-byte
    /// nonce, and a round count of at least twelve.
    pub open spec fn wf(self) -> bool {
        &&& (self.key_bytes == 64 || self.key_bytes == 128)
        &&& self.nonce_bytes == 64
        &&& 12 <= self.rounds <= 64
    }
}

/// The main family's variant with a 512-bit key.
pub struct Ysc2_512;

/// The main family's variant with a 1024-bit key.
pub struct Ysc2_1024;

/// The auxiliary family's variant with a 512-bit key.
pub struct AuxCrypt512;

/// The auxiliary family's variant with a 1024-bit key.
pub struct AuxCrypt1024;

impl Ysc2_512 {
    pub open spec fn spec_variant() -> Ysc2Variant {
        Ysc2Variant { kind: PermutationKind::Coupled, key_bytes: 64, nonce_bytes: 64, rounds: 12 }
    }

    /// The parameter set of this variant.
    pub fn variant() -> (v: Ysc2Variant)
        ensures
            v == Self::spec_variant(),
            v.wf(),
    {
        Ysc2Variant { kind: PermutationKind::Coupled, key_bytes: 64, nonce_bytes: 64, rounds: 12 }
    }
}

impl Ysc2_1024 {
    pub open spec fn spec_variant() -> Ysc2Variant {
        Ysc2Variant { kind: PermutationKind::Coupled, key_bytes: 128, nonce_bytes: 64, rounds: 12 }
    }

    /// The parameter set of this variant.
    pub fn variant() -> (v: Ysc2Variant)
        ensures
            v == Self::spec_variant(),
            v.wf(),
    {
        Ysc2Variant { kind: PermutationKind::Coupled, key_bytes: 128, nonce_bytes: 64, rounds: 12 }
    }
}

impl AuxCrypt512 {
    pub open spec fn spec_variant() -> Ysc2Variant {
        Ysc2Variant { kind: PermutationKind::LaiMassey, key_bytes: 64, nonce_bytes: 64, rounds: 14 }
    }

    /// The parameter set of this variant.
    pub fn variant() -> (v: Ysc2Variant)
        ensures
            v == Self::spec_variant(),
            v.wf(),
    {
        Ysc2Variant { kind: PermutationKind::LaiMassey, key_bytes: 64, nonce_bytes: 64, rounds: 14 }
    }
}

impl AuxCrypt1024 {
    pub open spec fn spec_variant() -> Ysc2Variant {
        Ysc2Variant { kind: PermutationKind::LaiMassey, key_bytes: 128, nonce_bytes: 64, rounds: 20 }
    }

    /// The parameter set of this variant.
    pub fn variant() -> (v: Ysc2Variant)
        ensures
            v == Self::spec_variant(),
            v.wf(),
    {
        Ysc2Variant { kind: PermutationKind::LaiMassey, key_bytes: 128, nonce_bytes: 64, rounds: 20 }
    }
}

/// The keyed-mode domain string: `"YSC2-X-MAC-512"` for the 64-byte-key
/// variant, `"YSC2-X-MAC-1024"` for the 128-byte-key one.
pub open spec fn spec_keyed_domain(v: Ysc2Variant) -> Seq<u8> {
    if v.key_bytes == 64 {
        seq![0x59u8, 0x53, 0x43, 0x32, 0x2D, 0x58, 0x2D, 0x4D, 0x41, 0x43, 0x2D, 0x35, 0x31, 0x32]
    } else {
        seq![0x59u8, 0x53, 0x43, 0x32, 0x2D, 0x58, 0x2D, 0x4D, 0x41, 0x43, 0x2D, 0x31, 0x30, 0x32, 0x34]
    }
}

/// The authenticated-mode domain string: `"YSC2-512-AEAD-V1"` or
/// `"YSC2-1024-AEAD-V1"`, by key size.
pub open spec fn spec_aead_domain(v: Ysc2Variant) -> Seq<u8> {
    if v.key_bytes == 64 {
        seq![0x59u8, 0x53, 0x43, 0x32, 0x2D, 0x35, 0x31, 0x32, 0x2D, 0x41, 0x45, 0x41, 0x44, 0x2D, 0x56, 0x31]
    } else {
        seq![0x59u8, 0x53, 0x43, 0x32, 0x2D, 0x31, 0x30, 0x32, 0x34, 0x2D, 0x41, 0x45, 0x41, 0x44, 0x2D, 0x56, 0x31]
    }
}

/// The keyed-mode domain string as bytes.
pub fn keyed_domain(v: &Ysc2Variant) -> (d: Vec<u8>)
    ensures
        d@ == spec_keyed_domain(*v),
{
    let d: Vec<u8> = if v.key_bytes == 64 {
        vec![0x59u8, 0x53, 0x43, 0x32, 0x2D, 0x58, 0x2D, 0x4D, 0x41, 0x43, 0x2D, 0x35, 0x31, 0x32]
    } else {
        vec![0x59u8, 0x53, 0x43, 0x32, 0x2D, 0x58, 0x2D, 0x4D, 0x41, 0x43, 0x2D, 0x31, 0x30, 0x32, 0x34]
    };
    proof {
        assert(d@ =~= spec_keyed_domain(*v));
    }
    d
}

/// The authenticated-mode domain string as bytes.
pub fn aead_domain(v: &Ysc2Variant) -> (d: Vec<u8>)
    ensures
        d@ == spec_aead_domain(*v),
{
    let d: Vec<u8> = if v.key_bytes == 64 {
        vec![0x59u8, 0x53, 0x43, 0x32, 0x2D, 0x35, 0x31, 0x32, 0x2D, 0x41, 0x45, 0x41, 0x44, 0x2D, 0x56, 0x31]
    } else {
        vec![0x59u8, 0x53, 0x43, 0x32, 0x2D, 0x31, 0x30, 0x32, 0x34, 0x2D, 0x41, 0x45, 0x41, 0x44, 0x2D, 0x56, 0x31]
    };
    proof {
        assert(d@ =~= spec_aead_domain(*v));
    }
    d
}

} // verus!
