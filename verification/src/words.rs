//! Little-endian conversions between 64-bit state words and byte strings,
//! exclusive-or helpers, and the constant-time byte comparison.

use vstd::prelude::*;
use vstd::bytes::{spec_u64_from_le_bytes, spec_u64_to_le_bytes, u64_from_le_bytes, u64_to_le_bytes};
use vstd::slice::slice_subrange;

verus! {

/// Cancellation laws of exclusive-or on 64-bit words.
pub proof fn lemma_xor_cancel64(a: u64, b: u64)
    by (bit_vector)
    ensures
        (a ^ b) ^ b == a,
        b ^ (b ^ a) == a,
        a ^ 0 == a,
        a ^ b == b ^ a,
{
}

/// Cancellation laws of exclusive-or on bytes.
pub proof fn lemma_xor_cancel8(a: u8, b: u8)
    by (bit_vector)
    ensures
        (a ^ b) ^ b == a,
        b ^ (b ^ a) == a,
        a ^ 0 == a,
        a ^ b == b ^ a,
{
}

/// Masking both halves of a pair with the same word keeps their difference.
pub proof fn lemma_xor_difference(a: u64, b: u64, d: u64)
    by (bit_vector)
    ensures
        (a ^ d) ^ (b ^ d) == a ^ b,
{
}

/// One step of the constant-time comparison accumulator: the running `or`
/// stays zero exactly when it was zero and the two new bytes agree.
proof fn lemma_ct_step(acc: u8, x: u8, y: u8)
    by (bit_vector)
    ensures
        ((acc | (x ^ y)) == 0) <==> (acc == 0 && x == y),
{
}

/// The words read little-endian from a byte string, one word per 8 bytes.
pub open spec fn le_words(bs: Seq<u8>, n: int) -> Seq<u64> {
    Seq::new(n as nat, |i: int| spec_u64_from_le_bytes(bs.subrange(8 * i, 8 * i + 8)))
}

/// The little-endian serialization of the first `n` words of `s`.
pub open spec fn words_le_bytes(s: Seq<u64>, n: int) -> Seq<u8>
    decreases n,
{
    if n <= 0 {
        Seq::empty()
    } else {
        words_le_bytes(s, n - 1) + spec_u64_to_le_bytes(s[n - 1])
    }
}

pub proof fn lemma_words_le_bytes_len(s: Seq<u64>, n: int)
    requires
        0 <= n,
    ensures
        words_le_bytes(s, n).len() == 8 * n,
    decreases n,
{
    vstd::bytes::lemma_auto_spec_u64_to_from_le_bytes();
    if n > 0 {
        lemma_words_le_bytes_len(s, n - 1);
    }
}

/// Reads `n` little-endian words from the start of `bs`.
pub fn read_words(bs: &[u8], n: usize) -> (out: Vec<u64>)
    requires
        8 * n <= bs@.len(),
    ensures
        out@ == le_words(bs@, n as int),
{
    let len = bs.len();
    let mut out: Vec<u64> = Vec::new();
    let mut i: usize = 0;
    while i < n
        invariant
            i <= n,
            8 * n <= len == bs@.len(),
            out@.len() == i,
            forall|k: int| 0 <= k < i ==> out@[k] == le_words(bs@, n as int)[k],
        decreases n - i,
    {
        let w = u64_from_le_bytes(slice_subrange(bs, 8 * i, 8 * i + 8));
        out.push(w);
        i = i + 1;
    }
    assert(out@ =~= le_words(bs@, n as int));
    out
}

/// Serializes the first `n` words of `s` little-endian.
pub fn write_words(s: &Vec<u64>, n: usize) -> (out: Vec<u8>)
    requires
        n <= s@.len(),
    ensures
        out@ == words_le_bytes(s@, n as int),
{
    let mut out: Vec<u8> = Vec::new();
    let mut i: usize = 0;
    while i < n
        invariant
            i <= n <= s@.len(),
            out@ == words_le_bytes(s@, i as int),
        decreases n - i,
    {
        let mut bytes = u64_to_le_bytes(s[i]);
        out.append(&mut bytes);
        i = i + 1;
    }
    out
}

/// Constant-time equality of two byte strings: the result depends only on
/// the lengths and on the `or` of all byte differences, with no early exit.
pub fn ct_compare(a: &[u8], b: &[u8]) -> (r: bool)
    ensures
        r <==> a@ == b@,
{
    if a.len() != b.len() {
        proof {
            assert(a@.len() != b@.len());
        }
        return false;
    }
    let n = a.len();
    let mut acc: u8 = 0;
    let mut i: usize = 0;
    while i < n
        invariant
            i <= n,
            n == a@.len() == b@.len(),
            (acc == 0) <==> (forall|k: int| 0 <= k < i ==> a@[k] == b@[k]),
        decreases n - i,
    {
        let ghost acc0 = acc;
        acc = acc | (a[i] ^ b[i]);
        proof {
            lemma_ct_step(acc0, a@[i as int], b@[i as int]);
        }
        i = i + 1;
    }
    proof {
        if acc == 0 {
            assert(a@ =~= b@);
        } else {
            assert(exists|k: int| 0 <= k < n && a@[k] != b@[k]);
        }
    }
    acc == 0
}


/// Copies a word vector.
pub fn copy_words(src: &Vec<u64>) -> (out: Vec<u64>)
    ensures
        out@ == src@,
{
    let mut out: Vec<u64> = Vec::new();
    let mut i: usize = 0;
    let n = src.len();
    while i < n
        invariant
            i <= n,
            n == src@.len(),
            out@.len() == i,
            forall|k: int| 0 <= k < i ==> out@[k] == src@[k],
        decreases n - i,
    {
        out.push(src[i]);
        i = i + 1;
    }
    assert(out@ =~= src@);
    out
}


/// Copies a byte vector.
pub fn copy_bytes(src: &Vec<u8>) -> (out: Vec<u8>)
    ensures
        out@ == src@,
{
    let mut out: Vec<u8> = Vec::new();
    let mut i: usize = 0;
    let n = src.len();
    while i < n
        invariant
            i <= n,
            n == src@.len(),
            out@.len() == i,
            forall|k: int| 0 <= k < i ==> out@[k] == src@[k],
        decreases n - i,
    {
        out.push(src[i]);
        i = i + 1;
    }
    assert(out@ =~= src@);
    out
}

} // verus!
