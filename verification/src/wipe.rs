//! Erasure of secret-bearing buffers.  The writes go through an outside
//! volatile-write primitive so that the compiler may not elide them.

use vstd::prelude::*;
use zeroize::Zeroize;

verus! {

/// Relies on zeroize's `Zeroize for [u64]`: every element is set to its
/// default, zero, through volatile writes; the length is unchanged.
#[verifier::external_body]
pub(crate) fn wipe_words(v: &mut Vec<u64>)
    ensures
        final(v)@.len() == old(v)@.len(),
        forall|i: int| 0 <= i < final(v)@.len() ==> final(v)@[i] == 0u64,
{
    v.as_mut_slice().zeroize()
}

/// Relies on zeroize's `Zeroize for [u8]`: every byte is set to zero
/// through volatile writes; the length is unchanged.
#[verifier::external_body]
pub(crate) fn wipe_bytes(v: &mut Vec<u8>)
    ensures
        final(v)@.len() == old(v)@.len(),
        forall|i: int| 0 <= i < final(v)@.len() ==> final(v)@[i] == 0u8,
{
    v.as_mut_slice().zeroize()
}

} // verus!
