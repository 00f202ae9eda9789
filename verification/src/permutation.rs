//! The 1024-bit state permutation: a fixed keyless bijection on sixteen
//! 64-bit words, run for a per-variant number of rounds.
//!
//! Each round injects a round constant into word 0, applies a non-linear
//! layer, and then permutes the words by a fixed single-cycle table.  Two
//! non-linear layers exist, one per cipher family: a two-half coupling over
//! the word map `g`, and a four-dimensional Lai-Massey structure over the
//! word map `f`.  Both are proved invertible, so the permutation is a
//! bijection for any round count.

use vstd::prelude::*;
use crate::words::{lemma_xor_cancel64, lemma_xor_difference};

verus! {

/// Which non-linear layer the permutation runs.
#[derive(Clone, Copy, PartialEq, Eq, Structural, Debug)]
pub enum PermutationKind {
    /// Two-half coupling: `g` of the lower half feeds forward into the
    /// upper half, which feeds back into the lower half.
    Coupled,
    /// Four-dimensional Lai-Massey structure over the 2x2x2x2 hypercube
    /// of words.
    LaiMassey,
}

/// Left-rotation of a 64-bit word by a fixed amount in [1, 63].
pub open spec fn spec_rotl(x: u64, n: u64) -> u64
    recommends
        1 <= n < 64,
{
    (x << n) | (x >> (64 - n) as u64)
}

/// The non-linear word map of the coupled layer:
/// `g(x) = x ^ (rotl(x, 13) & rotl(x, 37))`.
pub open spec fn spec_g(x: u64) -> u64 {
    x ^ (spec_rotl(x, 13) & spec_rotl(x, 37))
}

/// The non-linear word map of the Lai-Massey layer:
/// `f(x) = !x ^ rotl(x, 19) ^ rotl(x, 41)`.
pub open spec fn spec_f(x: u64) -> u64 {
    !x ^ spec_rotl(x, 19) ^ spec_rotl(x, 41)
}

/// The non-linear word map used by the coupled layer.
pub fn g(x: u64) -> (r: u64)
    ensures
        r == spec_g(x),
{
    x ^ ((x << 13u64) | (x >> 51u64)) & ((x << 37u64) | (x >> 27u64))
}

/// The non-linear word map used by the Lai-Massey layer.
pub fn f(x: u64) -> (r: u64)
    ensures
        r == spec_f(x),
{
    !x ^ ((x << 19u64) | (x >> 45u64)) ^ ((x << 41u64) | (x >> 23u64))
}

/// The word-permutation table of the linear layer, a single 16-cycle.
pub open spec fn word_perm(i: int) -> int {
    if i == 0 { 0 } else if i == 1 { 5 } else if i == 2 { 10 } else if i == 3 { 15 }
    else if i == 4 { 4 } else if i == 5 { 9 } else if i == 6 { 14 } else if i == 7 { 3 }
    else if i == 8 { 8 } else if i == 9 { 13 } else if i == 10 { 2 } else if i == 11 { 7 }
    else if i == 12 { 12 } else if i == 13 { 1 } else if i == 14 { 6 } else { 11 }
}

/// The inverse of `word_perm`.
pub open spec fn word_perm_inv(i: int) -> int {
    if i == 0 { 0 } else if i == 1 { 13 } else if i == 2 { 10 } else if i == 3 { 7 }
    else if i == 4 { 4 } else if i == 5 { 1 } else if i == 6 { 14 } else if i == 7 { 11 }
    else if i == 8 { 8 } else if i == 9 { 5 } else if i == 10 { 2 } else if i == 11 { 15 }
    else if i == 12 { 12 } else if i == 13 { 9 } else if i == 14 { 6 } else { 3 }
}

/// Round-constant injection: word 0 absorbs the round index.
pub open spec fn inject_rc(s: Seq<u64>, r: int) -> Seq<u64> {
    s.update(0, s[0] ^ (r as u64))
}

/// The coupled non-linear layer: with `t[i] = g(s[i])`, the upper half
/// becomes `s[i+8] ^ t[i]` and the lower half then absorbs the new upper
/// half.
pub open spec fn coupled_layer(s: Seq<u64>) -> Seq<u64> {
    Seq::new(
        16,
        |i: int|
            if i < 8 {
                s[i] ^ (s[i + 8] ^ spec_g(s[i]))
            } else {
                s[i] ^ spec_g(s[i - 8])
            },
    )
}

/// The inverse of the coupled layer.
pub open spec fn coupled_layer_inv(s: Seq<u64>) -> Seq<u64> {
    Seq::new(
        16,
        |i: int|
            if i < 8 {
                s[i] ^ s[i + 8]
            } else {
                s[i] ^ spec_g(s[i - 8] ^ s[i])
            },
    )
}

/// One Lai-Massey mixing step on the word pair `(a, b)`: both words absorb
/// `f` of their difference, which the step preserves.
pub open spec fn lm_step(s: Seq<u64>, a: int, b: int) -> Seq<u64> {
    let d = spec_f(s[a] ^ s[b]);
    s.update(a, s[a] ^ d).update(b, s[b] ^ d)
}

/// First dimension of the hypercube: pairs `(2k, 2k+1)` for `k < i`.
pub open spec fn lm_phase1(s: Seq<u64>, i: int) -> Seq<u64>
    decreases i,
{
    if i <= 0 {
        s
    } else {
        lm_step(lm_phase1(s, i - 1), 2 * (i - 1), 2 * (i - 1) + 1)
    }
}

/// Second dimension: pairs `(4k, 4k+2)` and `(4k+1, 4k+3)` for `k < i`.
pub open spec fn lm_phase2(s: Seq<u64>, i: int) -> Seq<u64>
    decreases i,
{
    if i <= 0 {
        s
    } else {
        lm_step(lm_step(lm_phase2(s, i - 1), 4 * (i - 1), 4 * (i - 1) + 2), 4 * (i - 1) + 1, 4 * (i - 1) + 3)
    }
}

/// Index of the lower word of the `k`-th third-dimension pair.
pub open spec fn phase3_low(k: int) -> int {
    if k < 4 {
        k
    } else {
        k + 4
    }
}

/// Third dimension: pairs `(phase3_low(k), phase3_low(k) + 4)` for `k < i`.
pub open spec fn lm_phase3(s: Seq<u64>, i: int) -> Seq<u64>
    decreases i,
{
    if i <= 0 {
        s
    } else {
        lm_step(lm_phase3(s, i - 1), phase3_low(i - 1), phase3_low(i - 1) + 4)
    }
}

/// Fourth dimension: pairs `(k, k+8)` for `k < i`.
pub open spec fn lm_phase4(s: Seq<u64>, i: int) -> Seq<u64>
    decreases i,
{
    if i <= 0 {
        s
    } else {
        lm_step(lm_phase4(s, i - 1), i - 1, i - 1 + 8)
    }
}

/// The whole Lai-Massey layer: all four dimensions in order.
pub open spec fn lm_layer(s: Seq<u64>) -> Seq<u64> {
    lm_phase4(lm_phase3(lm_phase2(lm_phase1(s, 8), 4), 8), 8)
}

/// The linear layer: word `i` takes the old word `word_perm(i)`.
pub open spec fn linear_layer(s: Seq<u64>) -> Seq<u64> {
    Seq::new(16, |i: int| s[word_perm(i)])
}

/// The inverse of the linear layer.
pub open spec fn linear_layer_inv(s: Seq<u64>) -> Seq<u64> {
    Seq::new(16, |i: int| s[word_perm_inv(i)])
}

/// One full round of the chosen kind.
pub open spec fn round(kind: PermutationKind, s: Seq<u64>, r: int) -> Seq<u64> {
    match kind {
        PermutationKind::Coupled => linear_layer(coupled_layer(inject_rc(s, r))),
        PermutationKind::LaiMassey => linear_layer(lm_layer(inject_rc(s, r))),
    }
}

/// The permutation: rounds `0, 1, ..., n-1` applied in order.
pub open spec fn permute(kind: PermutationKind, s: Seq<u64>, n: int) -> Seq<u64>
    decreases n,
{
    if n <= 0 {
        s
    } else {
        round(kind, permute(kind, s, n - 1), n - 1)
    }
}

pub proof fn lemma_lm_phase1_len(s: Seq<u64>, i: int)
    requires
        s.len() == 16,
        i <= 8,
    ensures
        lm_phase1(s, i).len() == 16,
    decreases i,
{
    if i > 0 {
        lemma_lm_phase1_len(s, i - 1);
    }
}

pub proof fn lemma_lm_phase2_len(s: Seq<u64>, i: int)
    requires
        s.len() == 16,
        i <= 4,
    ensures
        lm_phase2(s, i).len() == 16,
    decreases i,
{
    if i > 0 {
        lemma_lm_phase2_len(s, i - 1);
    }
}

pub proof fn lemma_lm_phase3_len(s: Seq<u64>, i: int)
    requires
        s.len() == 16,
        i <= 8,
    ensures
        lm_phase3(s, i).len() == 16,
    decreases i,
{
    if i > 0 {
        lemma_lm_phase3_len(s, i - 1);
    }
}

pub proof fn lemma_lm_phase4_len(s: Seq<u64>, i: int)
    requires
        s.len() == 16,
        i <= 8,
    ensures
        lm_phase4(s, i).len() == 16,
    decreases i,
{
    if i > 0 {
        lemma_lm_phase4_len(s, i - 1);
    }
}

pub proof fn lemma_lm_layer_len(s: Seq<u64>)
    requires
        s.len() == 16,
    ensures
        lm_layer(s).len() == 16,
{
    lemma_lm_phase1_len(s, 8);
    lemma_lm_phase2_len(lm_phase1(s, 8), 4);
    lemma_lm_phase3_len(lm_phase2(lm_phase1(s, 8), 4), 8);
    lemma_lm_phase4_len(lm_phase3(lm_phase2(lm_phase1(s, 8), 4), 8), 8);
}

pub proof fn lemma_round_len(kind: PermutationKind, s: Seq<u64>, r: int)
    requires
        s.len() == 16,
    ensures
        round(kind, s, r).len() == 16,
{
    if kind == PermutationKind::LaiMassey {
        lemma_lm_layer_len(inject_rc(s, r));
    }
}

pub proof fn lemma_permute_len(kind: PermutationKind, s: Seq<u64>, n: int)
    requires
        s.len() == 16,
    ensures
        permute(kind, s, n).len() == 16,
    decreases n,
{
    if n > 0 {
        lemma_permute_len(kind, s, n - 1);
        lemma_round_len(kind, permute(kind, s, n - 1), n - 1);
    }
}


// ---------------------------------------------------------------------
// Invertibility: every layer of a round, and so the permutation itself,
// is a bijection on 16-word states.
// ---------------------------------------------------------------------

/// Undoing the first dimension: its steps applied in reverse order.
pub open spec fn lm_phase1_inv(s: Seq<u64>, i: int) -> Seq<u64>
    decreases i,
{
    if i <= 0 {
        s
    } else {
        lm_phase1_inv(lm_step(s, 2 * (i - 1), 2 * (i - 1) + 1), i - 1)
    }
}

/// Undoing the second dimension: each pair of steps reversed.
pub open spec fn lm_phase2_inv(s: Seq<u64>, i: int) -> Seq<u64>
    decreases i,
{
    if i <= 0 {
        s
    } else {
        lm_phase2_inv(
            lm_step(lm_step(s, 4 * (i - 1) + 1, 4 * (i - 1) + 3), 4 * (i - 1), 4 * (i - 1) + 2),
            i - 1,
        )
    }
}

/// Undoing the third dimension.
pub open spec fn lm_phase3_inv(s: Seq<u64>, i: int) -> Seq<u64>
    decreases i,
{
    if i <= 0 {
        s
    } else {
        lm_phase3_inv(lm_step(s, phase3_low(i - 1), phase3_low(i - 1) + 4), i - 1)
    }
}

/// Undoing the fourth dimension.
pub open spec fn lm_phase4_inv(s: Seq<u64>, i: int) -> Seq<u64>
    decreases i,
{
    if i <= 0 {
        s
    } else {
        lm_phase4_inv(lm_step(s, i - 1, i - 1 + 8), i - 1)
    }
}

/// The inverse of the whole Lai-Massey layer.
pub open spec fn lm_layer_inv(s: Seq<u64>) -> Seq<u64> {
    lm_phase1_inv(lm_phase2_inv(lm_phase3_inv(lm_phase4_inv(s, 8), 8), 4), 8)
}

/// The inverse of one round.
pub open spec fn round_inv(kind: PermutationKind, s: Seq<u64>, r: int) -> Seq<u64> {
    match kind {
        PermutationKind::Coupled => inject_rc(coupled_layer_inv(linear_layer_inv(s)), r),
        PermutationKind::LaiMassey => inject_rc(lm_layer_inv(linear_layer_inv(s)), r),
    }
}

/// The inverse of the permutation: round inverses applied in reverse order.
pub open spec fn permute_inv(kind: PermutationKind, s: Seq<u64>, n: int) -> Seq<u64>
    decreases n,
{
    if n <= 0 {
        s
    } else {
        permute_inv(kind, round_inv(kind, s, n - 1), n - 1)
    }
}

/// A Lai-Massey step undoes itself: it keeps the difference of its pair,
/// so applying it twice restores both words.
pub proof fn lemma_lm_step_involution(s: Seq<u64>, a: int, b: int)
    requires
        s.len() == 16,
        0 <= a < 16,
        0 <= b < 16,
        a != b,
    ensures
        lm_step(lm_step(s, a, b), a, b) == s,
{
    let d = spec_f(s[a] ^ s[b]);
    let s1 = lm_step(s, a, b);
    assert(s1[a] == s[a] ^ d);
    assert(s1[b] == s[b] ^ d);
    lemma_xor_difference(s[a], s[b], d);
    assert(s1[a] ^ s1[b] == s[a] ^ s[b]);
    lemma_xor_cancel64(s[a], d);
    lemma_xor_cancel64(s[b], d);
    assert(lm_step(s1, a, b) =~= s);
}

pub proof fn lemma_lm_phase1_inverse(s: Seq<u64>, i: int)
    requires
        s.len() == 16,
        i <= 8,
    ensures
        lm_phase1_inv(lm_phase1(s, i), i) == s,
    decreases i,
{
    if i > 0 {
        let p = lm_phase1(s, i - 1);
        lemma_lm_phase1_len(s, i - 1);
        lemma_lm_step_involution(p, 2 * (i - 1), 2 * (i - 1) + 1);
        lemma_lm_phase1_inverse(s, i - 1);
    }
}

pub proof fn lemma_lm_phase2_inverse(s: Seq<u64>, i: int)
    requires
        s.len() == 16,
        i <= 4,
    ensures
        lm_phase2_inv(lm_phase2(s, i), i) == s,
    decreases i,
{
    if i > 0 {
        let p = lm_phase2(s, i - 1);
        lemma_lm_phase2_len(s, i - 1);
        let q = lm_step(p, 4 * (i - 1), 4 * (i - 1) + 2);
        lemma_lm_step_involution(q, 4 * (i - 1) + 1, 4 * (i - 1) + 3);
        lemma_lm_step_involution(p, 4 * (i - 1), 4 * (i - 1) + 2);
        lemma_lm_phase2_inverse(s, i - 1);
    }
}

pub proof fn lemma_lm_phase3_inverse(s: Seq<u64>, i: int)
    requires
        s.len() == 16,
        i <= 8,
    ensures
        lm_phase3_inv(lm_phase3(s, i), i) == s,
    decreases i,
{
    if i > 0 {
        let p = lm_phase3(s, i - 1);
        lemma_lm_phase3_len(s, i - 1);
        lemma_lm_step_involution(p, phase3_low(i - 1), phase3_low(i - 1) + 4);
        lemma_lm_phase3_inverse(s, i - 1);
    }
}

pub proof fn lemma_lm_phase4_inverse(s: Seq<u64>, i: int)
    requires
        s.len() == 16,
        i <= 8,
    ensures
        lm_phase4_inv(lm_phase4(s, i), i) == s,
    decreases i,
{
    if i > 0 {
        let p = lm_phase4(s, i - 1);
        lemma_lm_phase4_len(s, i - 1);
        lemma_lm_step_involution(p, i - 1, i - 1 + 8);
        lemma_lm_phase4_inverse(s, i - 1);
    }
}

pub proof fn lemma_lm_layer_inverse(s: Seq<u64>)
    requires
        s.len() == 16,
    ensures
        lm_layer_inv(lm_layer(s)) == s,
{
    let p1 = lm_phase1(s, 8);
    lemma_lm_phase1_len(s, 8);
    let p2 = lm_phase2(p1, 4);
    lemma_lm_phase2_len(p1, 4);
    let p3 = lm_phase3(p2, 8);
    lemma_lm_phase3_len(p2, 8);
    lemma_lm_phase4_inverse(p3, 8);
    lemma_lm_phase3_inverse(p2, 8);
    lemma_lm_phase2_inverse(p1, 4);
    lemma_lm_phase1_inverse(s, 8);
}

/// `g` of the lower half can be stripped off again: the coupled layer is
/// invertible.
pub proof fn lemma_coupled_layer_inverse(s: Seq<u64>)
    requires
        s.len() == 16,
    ensures
        coupled_layer_inv(coupled_layer(s)) == s,
{
    let t = coupled_layer(s);
    assert forall|i: int| 0 <= i < 16 implies coupled_layer_inv(t)[i] == s[i] by {
        if i < 8 {
            lemma_xor_cancel64(s[i], s[i + 8] ^ spec_g(s[i]));
        } else {
            assert(t[i - 8] == s[i - 8] ^ t[i]);
            lemma_xor_cancel64(s[i - 8], t[i]);
            assert(t[i - 8] ^ t[i] == s[i - 8]);
            lemma_xor_cancel64(s[i], spec_g(s[i - 8]));
        }
    }
    assert(coupled_layer_inv(t) =~= s);
}

pub proof fn lemma_linear_layer_inverse(s: Seq<u64>)
    requires
        s.len() == 16,
    ensures
        linear_layer_inv(linear_layer(s)) == s,
{
    assert(linear_layer_inv(linear_layer(s)) =~= s);
}

pub proof fn lemma_inject_rc_involution(s: Seq<u64>, r: int)
    requires
        s.len() == 16,
    ensures
        inject_rc(inject_rc(s, r), r) == s,
{
    lemma_xor_cancel64(s[0], r as u64);
    assert(inject_rc(inject_rc(s, r), r) =~= s);
}

pub proof fn lemma_round_inverse(kind: PermutationKind, s: Seq<u64>, r: int)
    requires
        s.len() == 16,
    ensures
        round_inv(kind, round(kind, s, r), r) == s,
{
    let u = inject_rc(s, r);
    match kind {
        PermutationKind::Coupled => {
            lemma_linear_layer_inverse(coupled_layer(u));
            lemma_coupled_layer_inverse(u);
            lemma_inject_rc_involution(s, r);
        },
        PermutationKind::LaiMassey => {
            lemma_lm_layer_len(u);
            lemma_linear_layer_inverse(lm_layer(u));
            lemma_lm_layer_inverse(u);
            lemma_inject_rc_involution(s, r);
        },
    }
}

pub proof fn lemma_permute_inverse(kind: PermutationKind, s: Seq<u64>, n: int)
    requires
        s.len() == 16,
    ensures
        permute_inv(kind, permute(kind, s, n), n) == s,
    decreases n,
{
    if n > 0 {
        lemma_permute_len(kind, s, n - 1);
        lemma_round_inverse(kind, permute(kind, s, n - 1), n - 1);
        lemma_permute_inverse(kind, s, n - 1);
    }
}

/// The permutation is a bijection: distinct input states keep distinct
/// images, for either round function and any round count.
pub proof fn lemma_permutation_injective(kind: PermutationKind, n: int, s1: Seq<u64>, s2: Seq<u64>)
    requires
        s1.len() == 16,
        s2.len() == 16,
        permute(kind, s1, n) == permute(kind, s2, n),
    ensures
        s1 == s2,
{
    lemma_permute_inverse(kind, s1, n);
    lemma_permute_inverse(kind, s2, n);
}


// ---------------------------------------------------------------------
// Scalar back-end.
// ---------------------------------------------------------------------

/// One Lai-Massey mixing step in place on the word pair `(a, b)`.
pub fn lai_massey_round(state: &mut Vec<u64>, a: usize, b: usize)
    requires
        old(state)@.len() == 16,
        a < 16,
        b < 16,
        a != b,
    ensures
        final(state)@ == lm_step(old(state)@, a as int, b as int),
{
    let d = f(state[a] ^ state[b]);
    let va = state[a] ^ d;
    let vb = state[b] ^ d;
    state[a] = va;
    state[b] = vb;
}

/// The first hypercube dimension: pairs of adjacent words.
fn lm_dim1_in_place(state: &mut Vec<u64>)
    requires
        old(state)@.len() == 16,
    ensures
        final(state)@ == lm_phase1(old(state)@, 8),
{
    let ghost s0 = state@;
    let mut k: usize = 0;
    while k < 8
        invariant
            k <= 8,
            s0.len() == 16,
            state@.len() == 16,
            state@ == lm_phase1(s0, k as int),
        decreases 8 - k,
    {
        lai_massey_round(state, 2 * k, 2 * k + 1);
        k = k + 1;
    }
}

/// The second hypercube dimension: pairs at stride two.
fn lm_dim2_in_place(state: &mut Vec<u64>)
    requires
        old(state)@.len() == 16,
    ensures
        final(state)@ == lm_phase2(old(state)@, 4),
{
    let ghost s0 = state@;
    let mut k: usize = 0;
    while k < 4
        invariant
            k <= 4,
            s0.len() == 16,
            state@.len() == 16,
            state@ == lm_phase2(s0, k as int),
        decreases 4 - k,
    {
        lai_massey_round(state, 4 * k, 4 * k + 2);
        lai_massey_round(state, 4 * k + 1, 4 * k + 3);
        k = k + 1;
    }
}

/// The Lai-Massey layer: all four hypercube dimensions, word by word.
fn lm_layer_in_place(state: &mut Vec<u64>)
    requires
        old(state)@.len() == 16,
    ensures
        final(state)@ == lm_layer(old(state)@),
{
    let ghost s0 = state@;
    lm_dim1_in_place(state);
    proof {
        lemma_lm_phase1_len(s0, 8);
    }
    let ghost s1 = state@;
    lm_dim2_in_place(state);
    proof {
        lemma_lm_phase2_len(s1, 4);
    }
    let ghost s2 = state@;
    let mut k: usize = 0;
    while k < 8
        invariant
            k <= 8,
            s2.len() == 16,
            state@.len() == 16,
            state@ == lm_phase3(s2, k as int),
        decreases 8 - k,
    {
        let a = if k < 4 { k } else { k + 4 };
        lai_massey_round(state, a, a + 4);
        k = k + 1;
    }
    let ghost s3 = state@;
    let mut k: usize = 0;
    while k < 8
        invariant
            k <= 8,
            s3.len() == 16,
            state@.len() == 16,
            state@ == lm_phase4(s3, k as int),
        decreases 8 - k,
    {
        lai_massey_round(state, k, k + 8);
        k = k + 1;
    }
}

/// The coupled non-linear layer, word by word.
fn coupled_layer_in_place(state: &mut Vec<u64>)
    requires
        old(state)@.len() == 16,
    ensures
        final(state)@ == coupled_layer(old(state)@),
{
    let ghost s0 = state@;
    let mut temp: Vec<u64> = Vec::new();
    let mut i: usize = 0;
    while i < 8
        invariant
            i <= 8,
            s0.len() == 16,
            state@ == s0,
            temp@.len() == i,
            forall|k: int| 0 <= k < i ==> temp@[k] == spec_g(s0[k]),
        decreases 8 - i,
    {
        temp.push(g(state[i]));
        i = i + 1;
    }
    let mut i: usize = 0;
    while i < 8
        invariant
            i <= 8,
            s0.len() == 16,
            state@.len() == 16,
            temp@.len() == 8,
            forall|k: int| 0 <= k < 8 ==> temp@[k] == spec_g(s0[k]),
            forall|k: int| 0 <= k < 8 ==> state@[k] == s0[k],
            forall|k: int| 8 <= k < 8 + i ==> state@[k] == (s0[k] ^ spec_g(s0[k - 8])),
            forall|k: int| 8 + i <= k < 16 ==> state@[k] == s0[k],
        decreases 8 - i,
    {
        let v = state[8 + i] ^ temp[i];
        state[8 + i] = v;
        i = i + 1;
    }
    let mut i: usize = 0;
    while i < 8
        invariant
            i <= 8,
            s0.len() == 16,
            state@.len() == 16,
            forall|k: int| 8 <= k < 16 ==> state@[k] == (s0[k] ^ spec_g(s0[k - 8])),
            forall|k: int| 0 <= k < i ==> state@[k] == (s0[k] ^ (s0[k + 8] ^ spec_g(s0[k]))),
            forall|k: int| i <= k < 8 ==> state@[k] == s0[k],
        decreases 8 - i,
    {
        let v = state[i] ^ state[8 + i];
        state[i] = v;
        i = i + 1;
    }
    assert(state@ =~= coupled_layer(s0));
}

/// The fixed word-permutation table, one entry per output word.
fn word_perm_at(i: usize) -> (r: usize)
    requires
        i < 16,
    ensures
        r as int == word_perm(i as int),
        r < 16,
{
    match i {
        0 => 0,
        1 => 5,
        2 => 10,
        3 => 15,
        4 => 4,
        5 => 9,
        6 => 14,
        7 => 3,
        8 => 8,
        9 => 13,
        10 => 2,
        11 => 7,
        12 => 12,
        13 => 1,
        14 => 6,
        _ => 11,
    }
}

/// The linear layer: rebuilds the state through the word permutation.
fn linear_layer_in_place(state: &mut Vec<u64>)
    requires
        old(state)@.len() == 16,
    ensures
        final(state)@ == linear_layer(old(state)@),
{
    let ghost s0 = state@;
    let mut out: Vec<u64> = Vec::new();
    let mut i: usize = 0;
    while i < 16
        invariant
            i <= 16,
            s0.len() == 16,
            state@ == s0,
            out@.len() == i,
            forall|k: int| 0 <= k < i ==> out@[k] == s0[word_perm(k)],
        decreases 16 - i,
    {
        let p = word_perm_at(i);
        out.push(state[p]);
        i = i + 1;
    }
    *state = out;
    assert(state@ =~= linear_layer(s0));
}

/// One full round in place: round constant, non-linear layer, linear layer.
fn round_in_place(state: &mut Vec<u64>, kind: PermutationKind, r: usize)
    requires
        old(state)@.len() == 16,
    ensures
        final(state)@ == round(kind, old(state)@, r as int),
{
    let ghost s0 = state@;
    let v0 = state[0] ^ (r as u64);
    state[0] = v0;
    assert(state@ == inject_rc(s0, r as int));
    match kind {
        PermutationKind::Coupled => coupled_layer_in_place(state),
        PermutationKind::LaiMassey => lm_layer_in_place(state),
    }
    proof {
        lemma_lm_layer_len(inject_rc(s0, r as int));
    }
    linear_layer_in_place(state);
}

/// The scalar back-end of the permutation: `rounds` rounds in order.
pub fn permutation(state: &mut Vec<u64>, kind: PermutationKind, rounds: usize)
    requires
        old(state)@.len() == 16,
    ensures
        final(state)@ == permute(kind, old(state)@, rounds as int),
{
    let ghost s0 = state@;
    let mut r: usize = 0;
    while r < rounds
        invariant
            r <= rounds,
            s0.len() == 16,
            state@.len() == 16,
            state@ == permute(kind, s0, r as int),
        decreases rounds - r,
    {
        round_in_place(state, kind, r);
        r = r + 1;
    }
}


// ---------------------------------------------------------------------
// Lane back-end: the same permutation computed over four four-word lanes,
// the layout a vector unit would use.  Both back-ends meet the one
// specification `permute`, so they are bit-identical on every state.
// ---------------------------------------------------------------------

/// `g` applied to each word of a four-word lane.
pub fn g_vec(lane: &Vec<u64>) -> (out: Vec<u64>)
    requires
        lane@.len() == 4,
    ensures
        out@.len() == 4,
        forall|k: int| 0 <= k < 4 ==> out@[k] == spec_g(lane@[k]),
{
    let mut out: Vec<u64> = Vec::new();
    let mut k: usize = 0;
    while k < 4
        invariant
            k <= 4,
            lane@.len() == 4,
            out@.len() == k,
            forall|j: int| 0 <= j < k ==> out@[j] == spec_g(lane@[j]),
        decreases 4 - k,
    {
        out.push(g(lane[k]));
        k = k + 1;
    }
    out
}

/// Copies the four-word lane starting at `base` out of the state.
fn load_lane(state: &Vec<u64>, base: usize) -> (out: Vec<u64>)
    requires
        state@.len() == 16,
        base + 4 <= 16,
    ensures
        out@.len() == 4,
        forall|k: int| 0 <= k < 4 ==> out@[k] == state@[base + k],
{
    let mut out: Vec<u64> = Vec::new();
    let mut k: usize = 0;
    while k < 4
        invariant
            k <= 4,
            state@.len() == 16,
            base + 4 <= 16,
            out@.len() == k,
            forall|j: int| 0 <= j < k ==> out@[j] == state@[base + j],
        decreases 4 - k,
    {
        out.push(state[base + k]);
        k = k + 1;
    }
    out
}

/// Xors a four-word value into the lane starting at `base`.
fn xor_lane(state: &mut Vec<u64>, base: usize, t: &Vec<u64>)
    requires
        old(state)@.len() == 16,
        base + 4 <= 16,
        t@.len() == 4,
    ensures
        final(state)@.len() == 16,
        forall|k: int|
            base <= k < base + 4 ==> final(state)@[k] == (old(state)@[k] ^ t@[k - base]),
        forall|k: int|
            0 <= k < 16 && !(base <= k < base + 4) ==> final(state)@[k] == old(state)@[k],
{
    let ghost s0 = state@;
    let mut k: usize = 0;
    while k < 4
        invariant
            k <= 4,
            s0.len() == 16,
            state@.len() == 16,
            base + 4 <= 16,
            t@.len() == 4,
            forall|j: int| base <= j < base + k ==> state@[j] == (s0[j] ^ t@[j - base]),
            forall|j: int| 0 <= j < 16 && !(base <= j < base + k) ==> state@[j] == s0[j],
        decreases 4 - k,
    {
        let v = state[base + k] ^ t[k];
        state[base + k] = v;
        k = k + 1;
    }
}

/// The coupled layer over lanes: `g` of the two lower lanes feeds the two
/// upper lanes, which feed back into the lower ones.
fn coupled_layer_lanes(state: &mut Vec<u64>)
    requires
        old(state)@.len() == 16,
    ensures
        final(state)@ == coupled_layer(old(state)@),
{
    let ghost s0 = state@;
    let l0 = load_lane(state, 0);
    let l1 = load_lane(state, 4);
    let t0 = g_vec(&l0);
    let t1 = g_vec(&l1);
    xor_lane(state, 8, &t0);
    xor_lane(state, 12, &t1);
    let u0 = load_lane(state, 8);
    let u1 = load_lane(state, 12);
    xor_lane(state, 0, &u0);
    xor_lane(state, 4, &u1);
    assert forall|i: int| 0 <= i < 16 implies state@[i] == coupled_layer(s0)[i] by {
    }
    assert(state@ =~= coupled_layer(s0));
}

/// One step applied element-wise between the lanes at `a0` and `b0`.
pub open spec fn lm_lane_chain(s: Seq<u64>, a0: int, b0: int, k: int) -> Seq<u64>
    decreases k,
{
    if k <= 0 {
        s
    } else {
        lm_step(lm_lane_chain(s, a0, b0, k - 1), a0 + (k - 1), b0 + (k - 1))
    }
}

/// An element-wise Lai-Massey step between the lanes at `a0` and `b0`.
fn lm_vec(state: &mut Vec<u64>, a0: usize, b0: usize)
    requires
        old(state)@.len() == 16,
        a0 + 4 <= 16,
        b0 + 4 <= 16,
        a0 + 4 <= b0 || b0 + 4 <= a0,
    ensures
        final(state)@.len() == 16,
        final(state)@ == lm_lane_chain(old(state)@, a0 as int, b0 as int, 4),
{
    let ghost s0 = state@;
    let mut k: usize = 0;
    while k < 4
        invariant
            k <= 4,
            s0.len() == 16,
            state@.len() == 16,
            a0 + 4 <= 16,
            b0 + 4 <= 16,
            a0 + 4 <= b0 || b0 + 4 <= a0,
            state@ == lm_lane_chain(s0, a0 as int, b0 as int, k as int),
        decreases 4 - k,
    {
        lai_massey_round(state, a0 + k, b0 + k);
        k = k + 1;
    }
}

/// The first half of the third dimension is one lane pair.
proof fn lemma_phase3_lower(s: Seq<u64>, k: int)
    requires
        0 <= k <= 4,
    ensures
        lm_phase3(s, k) == lm_lane_chain(s, 0, 4, k),
    decreases k,
{
    if k > 0 {
        lemma_phase3_lower(s, k - 1);
    }
}

/// The second half of the third dimension is another lane pair.
proof fn lemma_phase3_upper(s: Seq<u64>, k: int)
    requires
        4 <= k <= 8,
    ensures
        lm_phase3(s, k) == lm_lane_chain(lm_phase3(s, 4), 8, 12, k - 4),
    decreases k,
{
    if k > 4 {
        lemma_phase3_upper(s, k - 1);
    }
}

/// The first half of the fourth dimension is one lane pair.
proof fn lemma_phase4_lower(s: Seq<u64>, k: int)
    requires
        0 <= k <= 4,
    ensures
        lm_phase4(s, k) == lm_lane_chain(s, 0, 8, k),
    decreases k,
{
    if k > 0 {
        lemma_phase4_lower(s, k - 1);
    }
}

/// The second half of the fourth dimension is another lane pair.
proof fn lemma_phase4_upper(s: Seq<u64>, k: int)
    requires
        4 <= k <= 8,
    ensures
        lm_phase4(s, k) == lm_lane_chain(lm_phase4(s, 4), 4, 12, k - 4),
    decreases k,
{
    if k > 4 {
        lemma_phase4_upper(s, k - 1);
    }
}

/// The Lai-Massey layer over lanes: the first two dimensions stay inside
/// each lane; the last two are element-wise lane pairs.
fn lm_layer_lanes(state: &mut Vec<u64>)
    requires
        old(state)@.len() == 16,
    ensures
        final(state)@ == lm_layer(old(state)@),
{
    let ghost s0 = state@;
    lm_dim1_in_place(state);
    proof {
        lemma_lm_phase1_len(s0, 8);
    }
    let ghost s1 = state@;
    lm_dim2_in_place(state);
    proof {
        lemma_lm_phase2_len(s1, 4);
    }
    let ghost s2 = state@;
    lm_vec(state, 0, 4);
    lm_vec(state, 8, 12);
    proof {
        lemma_phase3_lower(s2, 4);
        lemma_phase3_upper(s2, 8);
    }
    let ghost s3 = state@;
    lm_vec(state, 0, 8);
    lm_vec(state, 4, 12);
    proof {
        lemma_phase4_lower(s3, 4);
        lemma_phase4_upper(s3, 8);
    }
}

/// The lane (vector-layout) back-end of the permutation.  Its contract is
/// the same as `permutation`'s: the two back-ends agree on every state,
/// variant and round count.
pub fn permutation_simd(state: &mut Vec<u64>, kind: PermutationKind, rounds: usize)
    requires
        old(state)@.len() == 16,
    ensures
        final(state)@ == permute(kind, old(state)@, rounds as int),
{
    let ghost s0 = state@;
    let mut r: usize = 0;
    while r < rounds
        invariant
            r <= rounds,
            s0.len() == 16,
            state@.len() == 16,
            state@ == permute(kind, s0, r as int),
        decreases rounds - r,
    {
        let ghost sr = state@;
        let v0 = state[0] ^ (r as u64);
        state[0] = v0;
        assert(state@ == inject_rc(sr, r as int));
        match kind {
            PermutationKind::Coupled => coupled_layer_lanes(state),
            PermutationKind::LaiMassey => lm_layer_lanes(state),
        }
        proof {
            lemma_lm_layer_len(inject_rc(sr, r as int));
        }
        linear_layer_in_place(state);
        r = r + 1;
    }
}

} // verus!
