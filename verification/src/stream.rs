//! The counter-mode stream core and the byte-level stream cipher over it.
//!
//! Initialization loads the key and nonce into the state and diffuses once
//! with the permutation.  Each 128-byte keystream block is produced by
//! tweak-then-permute over the immutable post-init state, so the generator
//! is random-access: seeking is O(1) and position-determined.

use vstd::prelude::*;
use crate::error::Error;
use crate::permutation::{permutation, permutation_simd, permute};
use crate::variant::Ysc2Variant;
use crate::wipe::wipe_words;
use crate::words::{
    copy_words, le_words, lemma_words_le_bytes_len, lemma_xor_cancel8, read_words, words_le_bytes,
    write_words,
};
use vstd::bytes::spec_u64_from_le_bytes;

verus! {

/// Word `i` of the little-endian key load; words past the key are zero.
pub open spec fn key_word(key: Seq<u8>, i: int) -> u64 {
    if 8 * i + 8 <= key.len() {
        spec_u64_from_le_bytes(key.subrange(8 * i, 8 * i + 8))
    } else {
        0u64
    }
}

/// Word `j` of the little-endian nonce load.
pub open spec fn nonce_word(nonce: Seq<u8>, j: int) -> u64 {
    spec_u64_from_le_bytes(nonce.subrange(8 * j, 8 * j + 8))
}

/// The state before diffusion: the key loaded little-endian from word 0,
/// the nonce folded into words 8 to 15.
pub open spec fn loaded_state(key: Seq<u8>, nonce: Seq<u8>) -> Seq<u64> {
    Seq::new(
        16,
        |i: int|
            if i < 8 {
                key_word(key, i)
            } else {
                key_word(key, i) ^ nonce_word(nonce, i - 8)
            },
    )
}

/// The initial mixed state: key/nonce load followed by one permutation.
pub open spec fn stream_init(v: Ysc2Variant, key: Seq<u8>, nonce: Seq<u8>) -> Seq<u64> {
    permute(v.kind, loaded_state(key, nonce), v.rounds as int)
}

/// The block counter advances by one per block, wrapping modulo 2^64.
pub open spec fn next_counter(c: u64) -> u64 {
    if c == u64::MAX {
        0u64
    } else {
        (c + 1) as u64
    }
}

/// The keystream block for counter value `c`: word 0 of the initial state
/// absorbs the counter, the state is permuted, and all sixteen words are
/// serialized little-endian.
pub open spec fn ks_block(v: Ysc2Variant, init: Seq<u64>, c: u64) -> Seq<u8> {
    words_le_bytes(permute(v.kind, init.update(0, init[0] ^ c), v.rounds as int), 16)
}

/// Byte `j` of the keystream: byte `j % 128` of the block whose counter
/// value is `j / 128 + 1` (the counter is advanced before each block).
pub open spec fn ks_byte(v: Ysc2Variant, init: Seq<u64>, j: int) -> u8 {
    ks_block(v, init, next_counter((j / 128) as u64))[j % 128]
}

/// `m` xored byte-wise against the keystream starting at byte `pos`.
pub open spec fn xor_keystream(v: Ysc2Variant, init: Seq<u64>, pos: int, m: Seq<u8>) -> Seq<u8> {
    Seq::new(m.len(), |i: int| m[i] ^ ks_byte(v, init, pos + i))
}

/// `len` bytes of raw keystream starting at byte `pos`.
pub open spec fn keystream_at(v: Ysc2Variant, init: Seq<u64>, pos: int, len: int) -> Seq<u8> {
    Seq::new(len as nat, |i: int| ks_byte(v, init, pos + i))
}

/// The block-level core: the immutable post-init state and the counter.
pub struct Ysc2StreamCore {
    state: Vec<u64>,
    counter: u64,
    variant: Ysc2Variant,
}

/// The root crate's stream core is the same type.
pub type Ysc2Core = Ysc2StreamCore;

/// The auxiliary family's stream core is the same type, run with a
/// Lai-Massey variant descriptor.
pub type AuxCryptCore = Ysc2StreamCore;

impl Ysc2StreamCore {
    /// A well-formed core: sixteen state words under a well-formed variant.
    pub closed spec fn wf(self) -> bool {
        self.state@.len() == 16 && self.variant.wf()
    }

    /// The immutable initial mixed state.
    pub closed spec fn state_view(self) -> Seq<u64> {
        self.state@
    }

    /// The current block counter.
    pub closed spec fn counter_view(self) -> u64 {
        self.counter
    }

    /// The variant the core was built with.
    pub closed spec fn variant_view(self) -> Ysc2Variant {
        self.variant
    }

    /// Builds a core from a key and nonce of the variant-declared sizes:
    /// the key is loaded little-endian from word 0, the nonce is folded
    /// into the upper eight words, and the permutation is applied once.
    /// A key of the wrong length is rejected as `InvalidKeyLength`, then a
    /// nonce of the wrong length as `InvalidNonceLength`.
    pub fn new(v: &Ysc2Variant, key: &[u8], nonce: &[u8]) -> (r: Result<Ysc2StreamCore, Error>)
        requires
            v.wf(),
        ensures
            match r {
                Ok(c) => {
                    &&& key@.len() == v.key_bytes
                    &&& nonce@.len() == v.nonce_bytes
                    &&& c.wf()
                    &&& c.variant_view() == *v
                    &&& c.counter_view() == 0
                    &&& c.state_view() == stream_init(*v, key@, nonce@)
                },
                Err(e) => {
                    if key@.len() != v.key_bytes {
                        e == Error::InvalidKeyLength
                    } else {
                        nonce@.len() != v.nonce_bytes && e == Error::InvalidNonceLength
                    }
                },
            },
    {
        if key.len() != v.key_bytes {
            return Err(Error::InvalidKeyLength);
        }
        if nonce.len() != v.nonce_bytes {
            return Err(Error::InvalidNonceLength);
        }
        let kw = v.key_bytes / 8;
        let mut state = read_words(key, kw);
        while state.len() < 16
            invariant
                kw <= state@.len() <= 16,
                state@.len() >= kw,
                forall|k: int| 0 <= k < kw ==> state@[k] == le_words(key@, kw as int)[k],
                forall|k: int| kw <= k < state@.len() ==> state@[k] == 0u64,
            decreases 16 - state@.len(),
        {
            state.push(0u64);
        }
        let nw = read_words(nonce, 8);
        let mut i: usize = 0;
        while i < 8
            invariant
                i <= 8,
                state@.len() == 16,
                nw@.len() == 8,
                nw@ == le_words(nonce@, 8),
                forall|k: int| 0 <= k < 8 ==> state@[k] == #[trigger] old_word(key@, kw as int, k),
                forall|k: int| 8 <= k < 8 + i ==> state@[k] == (old_word(key@, kw as int, k) ^ nw@[k - 8]),
                forall|k: int| 8 + i <= k < 16 ==> state@[k] == old_word(key@, kw as int, k),
            decreases 8 - i,
        {
            let x = state[8 + i] ^ nw[i];
            state[8 + i] = x;
            i = i + 1;
        }
        proof {
            assert forall|k: int| 0 <= k < 16 implies state@[k] == loaded_state(key@, nonce@)[k] by {
                assert(8 * kw == key@.len());
                if k < kw {
                    assert(old_word(key@, kw as int, k) == spec_u64_from_le_bytes(
                        key@.subrange(8 * k, 8 * k + 8),
                    ));
                    assert(key_word(key@, k) == spec_u64_from_le_bytes(
                        key@.subrange(8 * k, 8 * k + 8),
                    ));
                } else {
                    assert(old_word(key@, kw as int, k) == 0u64);
                    assert(key_word(key@, k) == 0u64);
                }
                if k < 8 {
                    assert(state@[k] == old_word(key@, kw as int, k));
                    assert(loaded_state(key@, nonce@)[k] == key_word(key@, k));
                } else {
                    assert(state@[k] == (old_word(key@, kw as int, k) ^ nw@[k - 8]));
                    assert(nw@[k - 8] == nonce_word(nonce@, k - 8));
                    assert(loaded_state(key@, nonce@)[k] == (key_word(key@, k) ^ nonce_word(
                        nonce@,
                        k - 8,
                    )));
                }
            }
            assert(state@ =~= loaded_state(key@, nonce@));
        }
        permutation(&mut state, v.kind, v.rounds);
        Ok(Ysc2StreamCore { state, counter: 0, variant: *v })
    }

    /// The keystream block the next request will produce, without
    /// advancing the counter.
    fn peek_block(&self) -> (out: Vec<u8>)
        requires
            self.wf(),
        ensures
            out@ == ks_block(self.variant_view(), self.state_view(), next_counter(self.counter_view())),
            out@.len() == 128,
    {
        let c = self.counter.wrapping_add(1);
        let mut tmp = copy_words(&self.state);
        let t0 = tmp[0] ^ c;
        tmp[0] = t0;
        permutation(&mut tmp, self.variant.kind, self.variant.rounds);
        let out = write_words(&tmp, 16);
        proof {
            lemma_words_le_bytes_len(tmp@, 16);
        }
        out
    }

    /// Produces the next 128-byte keystream block, advancing the counter
    /// by one (wrapping).  The initial state is never mutated.
    pub fn gen_ks_block(&mut self) -> (out: Vec<u8>)
        requires
            old(self).wf(),
        ensures
            final(self).wf(),
            final(self).state_view() == old(self).state_view(),
            final(self).variant_view() == old(self).variant_view(),
            final(self).counter_view() == next_counter(old(self).counter_view()),
            out@ == ks_block(old(self).variant_view(), old(self).state_view(), next_counter(old(self).counter_view())),
            out@.len() == 128,
    {
        let out = self.peek_block();
        self.counter = self.counter.wrapping_add(1);
        out
    }

    /// The same block, computed by the lane back-end.  Bit-identical to
    /// `gen_ks_block`: both meet the same contract.
    pub fn gen_ks_block_simd(&mut self) -> (out: Vec<u8>)
        requires
            old(self).wf(),
        ensures
            final(self).wf(),
            final(self).state_view() == old(self).state_view(),
            final(self).variant_view() == old(self).variant_view(),
            final(self).counter_view() == next_counter(old(self).counter_view()),
            out@ == ks_block(old(self).variant_view(), old(self).state_view(), next_counter(old(self).counter_view())),
            out@.len() == 128,
    {
        let c = self.counter.wrapping_add(1);
        self.counter = c;
        let mut tmp = copy_words(&self.state);
        let t0 = tmp[0] ^ c;
        tmp[0] = t0;
        permutation_simd(&mut tmp, self.variant.kind, self.variant.rounds);
        let out = write_words(&tmp, 16);
        proof {
            lemma_words_le_bytes_len(tmp@, 16);
        }
        out
    }

    /// The generator is unbounded: no block limit is ever reported.
    pub fn remaining_blocks(&self) -> (r: Option<usize>)
        ensures
            r is None,
    {
        None
    }

    /// The current block position.
    pub fn get_block_pos(&self) -> (p: u64)
        ensures
            p == self.counter_view(),
    {
        self.counter
    }

    /// Seeks to block position `pos` in O(1).
    pub fn set_block_pos(&mut self, pos: u64)
        requires
            old(self).wf(),
        ensures
            final(self).wf(),
            final(self).state_view() == old(self).state_view(),
            final(self).variant_view() == old(self).variant_view(),
            final(self).counter_view() == pos,
    {
        self.counter = pos;
    }

    /// Erases the keyed state: every state word is overwritten with zero
    /// through volatile writes, and the counter is reset.
    pub fn erase(&mut self)
        requires
            old(self).wf(),
        ensures
            final(self).wf(),
            final(self).variant_view() == old(self).variant_view(),
            final(self).counter_view() == 0,
            final(self).state_view() == Seq::new(16, |i: int| 0u64),
    {
        wipe_words(&mut self.state);
        self.counter = 0;
        proof {
            assert(self.state@ =~= Seq::new(16, |i: int| 0u64));
        }
    }
}

/// Word `k` of the state right after the key load, before the nonce is
/// folded in: a key word below `kw`, zero above.
pub open spec fn old_word(key: Seq<u8>, kw: int, k: int) -> u64 {
    if k < kw {
        le_words(key, kw)[k]
    } else {
        0u64
    }
}


/// The byte-level stream cipher: a core plus an offset into the current
/// 128-byte block.  Applying keystream advances the position; seeking is
/// O(1) and byte-granular.
pub struct Ysc2StreamCipher {
    core: Ysc2StreamCore,
    off: usize,
}

impl Ysc2StreamCipher {
    /// A well-formed cipher: a well-formed core, an in-block offset, and
    /// a byte position that fits in a 64-bit count.
    pub closed spec fn wf(self) -> bool {
        &&& self.core.wf()
        &&& self.off < 128
        &&& self.core.counter_view() * 128 + self.off <= u64::MAX
    }

    /// The immutable initial mixed state.
    pub closed spec fn init_view(self) -> Seq<u64> {
        self.core.state_view()
    }

    /// The variant the cipher was built with.
    pub closed spec fn variant_view(self) -> Ysc2Variant {
        self.core.variant_view()
    }

    /// The current byte position in the keystream.
    pub closed spec fn pos_view(self) -> int {
        self.core.counter_view() * 128 + self.off
    }

    /// Builds a cipher from a key and nonce of the variant-declared
    /// sizes, positioned at byte 0 of the keystream.
    pub fn new(v: &Ysc2Variant, key: &[u8], nonce: &[u8]) -> (r: Result<Ysc2StreamCipher, Error>)
        requires
            v.wf(),
        ensures
            match r {
                Ok(c) => {
                    &&& key@.len() == v.key_bytes
                    &&& nonce@.len() == v.nonce_bytes
                    &&& c.wf()
                    &&& c.variant_view() == *v
                    &&& c.pos_view() == 0
                    &&& c.init_view() == stream_init(*v, key@, nonce@)
                },
                Err(e) => {
                    if key@.len() != v.key_bytes {
                        e == Error::InvalidKeyLength
                    } else {
                        nonce@.len() != v.nonce_bytes && e == Error::InvalidNonceLength
                    }
                },
            },
    {
        let core = Ysc2StreamCore::new(v, key, nonce)?;
        Ok(Ysc2StreamCipher { core, off: 0 })
    }

    /// Xors the keystream into `buf` in place, starting at the current
    /// position and advancing it by the buffer length.  Decryption is the
    /// same operation at the same position.
    pub fn apply_keystream(&mut self, buf: &mut Vec<u8>)
        requires
            old(self).wf(),
            old(self).pos_view() + old(buf)@.len() <= u64::MAX,
        ensures
            final(self).wf(),
            final(self).init_view() == old(self).init_view(),
            final(self).variant_view() == old(self).variant_view(),
            final(self).pos_view() == old(self).pos_view() + old(buf)@.len(),
            final(buf)@ == xor_keystream(
                old(self).variant_view(),
                old(self).init_view(),
                old(self).pos_view(),
                old(buf)@,
            ),
    {
        let ghost v = self.core.variant_view();
        let ghost s = self.core.state_view();
        let ghost p0 = self.pos_view();
        let ghost m0 = buf@;
        let len = buf.len();
        let mut consumed: usize = 0;
        while consumed < len
            invariant
                self.core.wf(),
                self.core.state_view() == s,
                self.core.variant_view() == v,
                consumed <= len,
                len == buf@.len(),
                len == m0.len(),
                self.off < 128,
                self.core.counter_view() * 128 + self.off == p0 + consumed,
                0 <= p0,
                p0 + len <= u64::MAX,
                forall|i: int| 0 <= i < consumed ==> buf@[i] == (m0[i] ^ ks_byte(v, s, p0 + i)),
                forall|i: int| consumed <= i < len ==> buf@[i] == m0[i],
            decreases len - consumed,
        {
            let block = self.core.peek_block();
            let ghost c = self.core.counter_view();
            let avail = 128 - self.off;
            let rem = len - consumed;
            let take = if avail < rem {
                avail
            } else {
                rem
            };
            let base = consumed;
            let off = self.off;
            let mut j: usize = 0;
            while j < take
                invariant
                    j <= take,
                    1 <= take,
                    off + take <= 128,
                    base + take <= len,
                    len == buf@.len(),
                    len == m0.len(),
                    block@.len() == 128,
                    block@ == ks_block(v, s, next_counter(c)),
                    0 <= p0,
                    c * 128 + off == p0 + base,
                    forall|i: int| 0 <= i < base + j ==> buf@[i] == (m0[i] ^ ks_byte(v, s, p0 + i)),
                    forall|i: int| base + j <= i < len ==> buf@[i] == m0[i],
                decreases take - j,
            {
                let x = buf[base + j] ^ block[off + j];
                buf[base + j] = x;
                proof {
                    let r = off + j;
                    assert((c * 128 + r) / 128 == c && (c * 128 + r) % 128 == r)
                        by (nonlinear_arith)
                        requires
                            0 <= c,
                            0 <= r < 128,
                    ;
                    assert(ks_byte(v, s, p0 + base + j) == ks_block(v, s, next_counter(c))[r]);
                }
                j = j + 1;
            }
            self.off = self.off + take;
            consumed = consumed + take;
            if self.off == 128 {
                let c1 = self.core.get_block_pos();
                assert(c1 < u64::MAX) by {
                    assert(c1 * 128 + 128 == p0 + consumed);
                };
                self.core.set_block_pos(c1 + 1);
                self.off = 0;
            }
        }
        proof {
            assert(buf@ =~= xor_keystream(v, s, p0, m0));
        }
    }

    /// Seeks to byte position `pos` of the keystream in O(1).
    pub fn seek(&mut self, pos: u64)
        requires
            old(self).wf(),
        ensures
            final(self).wf(),
            final(self).init_view() == old(self).init_view(),
            final(self).variant_view() == old(self).variant_view(),
            final(self).pos_view() == pos,
    {
        self.core.set_block_pos(pos / 128);
        self.off = (pos % 128) as usize;
    }

    /// The current byte position.
    pub fn position(&self) -> (p: u64)
        requires
            self.wf(),
        ensures
            p == self.pos_view(),
    {
        self.core.get_block_pos() * 128 + (self.off as u64)
    }

    /// Erases the keyed state through volatile writes and resets the
    /// position.
    pub fn erase(&mut self)
        requires
            old(self).wf(),
        ensures
            final(self).wf(),
            final(self).variant_view() == old(self).variant_view(),
            final(self).pos_view() == 0,
            final(self).init_view() == Seq::new(16, |i: int| 0u64),
    {
        self.core.erase();
        self.off = 0;
    }
}

/// Stream round trip: applying the keystream twice at one position gives
/// back the original bytes, for every variant, initial state, position
/// and message.
pub proof fn lemma_stream_roundtrip(v: Ysc2Variant, init: Seq<u64>, pos: int, m: Seq<u8>)
    ensures
        xor_keystream(v, init, pos, xor_keystream(v, init, pos, m)) == m,
{
    let once = xor_keystream(v, init, pos, m);
    assert forall|i: int| 0 <= i < m.len() implies xor_keystream(v, init, pos, once)[i] == m[i] by {
        lemma_xor_cancel8(m[i], ks_byte(v, init, pos + i));
    }
    assert(xor_keystream(v, init, pos, once) =~= m);
}

/// Seek consistency: the keystream read after seeking to byte position
/// `p` equals the tail, from byte `p` on, of the keystream a fresh
/// instance produces from position 0.
pub proof fn lemma_seek_consistency(v: Ysc2Variant, init: Seq<u64>, p: int, len: int)
    requires
        0 <= p,
        0 <= len,
    ensures
        keystream_at(v, init, p, len) == keystream_at(v, init, 0, p + len).subrange(p, p + len),
{
    assert(keystream_at(v, init, p, len) =~= keystream_at(v, init, 0, p + len).subrange(p, p + len));
}

} // verus!
