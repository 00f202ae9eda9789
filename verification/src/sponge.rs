//! The duplex sponge over the shared permutation: a 64-byte rate and a
//! 64-byte capacity, serving as extendable-output function, fixed-length
//! hash, and keyed message-authentication code.
//!
//! Input is absorbed in rate-sized blocks with 10* padding (a `0x80` byte
//! at the data end of every partial block; a full trailing block forces an
//! extra padding-only block).  Squeezing permutes and emits the rate.

use vstd::prelude::*;
use crate::error::Error;
use crate::permutation::{permutation, permute};
use crate::variant::{spec_keyed_domain, keyed_domain, Ysc2Variant};
use crate::wipe::{wipe_bytes, wipe_words};
use crate::words::{
    copy_bytes, copy_words, ct_compare, le_words, lemma_words_le_bytes_len, read_words,
    words_le_bytes, write_words,
};
use vstd::bytes::spec_u64_from_le_bytes;

verus! {

/// The all-zero 16-word state.
pub open spec fn zero_state() -> Seq<u64> {
    Seq::new(16, |i: int| 0u64)
}

/// A rate-sized block xored word-wise, little-endian, into the first
/// eight words of the state.
pub open spec fn xor_rate(s: Seq<u64>, block: Seq<u8>) -> Seq<u64> {
    Seq::new(
        16,
        |i: int|
            if i < 8 {
                s[i] ^ spec_u64_from_le_bytes(block.subrange(8 * i, 8 * i + 8))
            } else {
                s[i]
            },
    )
}

/// Absorbing one full rate block: xor into the rate, then permute.
pub open spec fn absorb_block(v: Ysc2Variant, s: Seq<u64>, block: Seq<u8>) -> Seq<u64> {
    permute(v.kind, xor_rate(s, block), v.rounds as int)
}

/// 10* padding of a partial block: the data, one `0x80` byte at the data
/// length, zeros to the rate size.
pub open spec fn pad_block(data: Seq<u8>) -> Seq<u8> {
    Seq::new(
        64,
        |i: int|
            if i < data.len() {
                data[i]
            } else if i == data.len() {
                0x80u8
            } else {
                0u8
            },
    )
}

/// Absorbing a byte string with padding: full blocks raw, then the final
/// partial (possibly empty) block padded.  A string that is a multiple of
/// the rate gets an extra padding-only block.
pub open spec fn absorb_padded(v: Ysc2Variant, s: Seq<u64>, data: Seq<u8>) -> Seq<u64>
    decreases data.len(),
{
    if data.len() >= 64 {
        absorb_padded(v, absorb_block(v, s, data.take(64)), data.skip(64))
    } else {
        absorb_block(v, s, pad_block(data))
    }
}

/// Absorbing only the full rate blocks of `data`, without padding.
pub open spec fn absorb_blocks(v: Ysc2Variant, s: Seq<u64>, data: Seq<u8>) -> Seq<u64>
    decreases data.len(),
{
    if data.len() >= 64 {
        absorb_blocks(v, absorb_block(v, s, data.take(64)), data.skip(64))
    } else {
        s
    }
}

/// The state permuted `k` times.
pub open spec fn iter_permute(v: Ysc2Variant, s: Seq<u64>, k: int) -> Seq<u64>
    decreases k,
{
    if k <= 0 {
        s
    } else {
        permute(v.kind, iter_permute(v, s, k - 1), v.rounds as int)
    }
}

/// Squeeze block `i` of a finalized state: permute `i + 1` times, then
/// emit the rate little-endian.
pub open spec fn squeeze_block(v: Ysc2Variant, s: Seq<u64>, i: int) -> Seq<u8> {
    words_le_bytes(iter_permute(v, s, i + 1), 8)
}

/// Byte `j` of the squeeze output.
pub open spec fn xof_byte(v: Ysc2Variant, s: Seq<u64>, j: int) -> u8 {
    squeeze_block(v, s, j / 64)[j % 64]
}

/// `len` squeeze bytes starting at byte `pos`.
pub open spec fn xof_bytes(v: Ysc2Variant, s: Seq<u64>, pos: int, len: int) -> Seq<u8> {
    Seq::new(len as nat, |i: int| xof_byte(v, s, pos + i))
}

/// The length of the full-block part of an absorbed byte string.
pub open spec fn full_len(m: Seq<u8>) -> int {
    m.len() - (m.len() % 64)
}

/// The fixed-length digest: the first squeeze block over the padded
/// absorption of the message into the zero state.
pub open spec fn hash_spec(v: Ysc2Variant, m: Seq<u8>) -> Seq<u8> {
    squeeze_block(v, absorb_padded(v, zero_state(), m), 0)
}

/// The keyed initial state: the keyed-mode domain string absorbed into
/// the zero state as its own padded section, then the key as another,
/// each section closing with a padded block and a permutation.
pub open spec fn keyed_init(v: Ysc2Variant, key: Seq<u8>) -> Seq<u64> {
    absorb_padded(v, absorb_padded(v, zero_state(), spec_keyed_domain(v)), key)
}

/// The message-authentication tag: the first squeeze block over the
/// keyed initial state after absorbing the message.
pub open spec fn mac_spec(v: Ysc2Variant, key: Seq<u8>, m: Seq<u8>) -> Seq<u8> {
    squeeze_block(v, absorb_padded(v, keyed_init(v, key), m), 0)
}

/// Xors one rate block into the state and permutes.
pub fn absorb_block_in_place(v: &Ysc2Variant, state: &mut Vec<u64>, block: &[u8])
    requires
        old(state)@.len() == 16,
        block@.len() == 64,
        v.wf(),
    ensures
        final(state)@ == absorb_block(*v, old(state)@, block@),
        final(state)@.len() == 16,
{
    let ghost s0 = state@;
    let bw = read_words(block, 8);
    let mut i: usize = 0;
    while i < 8
        invariant
            i <= 8,
            s0.len() == 16,
            state@.len() == 16,
            bw@ == le_words(block@, 8),
            bw@.len() == 8,
            forall|k: int| 0 <= k < i ==> state@[k] == (s0[k] ^ bw@[k]),
            forall|k: int| i <= k < 16 ==> state@[k] == s0[k],
        decreases 8 - i,
    {
        let x = state[i] ^ bw[i];
        state[i] = x;
        i = i + 1;
    }
    proof {
        assert(state@ =~= xor_rate(s0, block@));
    }
    permutation(state, v.kind, v.rounds);
    proof {
        crate::permutation::lemma_permute_len(v.kind, xor_rate(s0, block@), v.rounds as int);
    }
}

/// Builds the 10*-padded final block of a partial chunk.
fn build_pad_block(data: &[u8], start: usize, end: usize) -> (out: Vec<u8>)
    requires
        start <= end <= data@.len(),
        end - start < 64,
    ensures
        out@ == pad_block(data@.subrange(start as int, end as int)),
        out@.len() == 64,
{
    let ghost chunk = data@.subrange(start as int, end as int);
    let mut out: Vec<u8> = Vec::new();
    let mut i: usize = start;
    while i < end
        invariant
            start <= i <= end <= data@.len(),
            out@.len() == i - start,
            forall|k: int| 0 <= k < i - start ==> out@[k] == data@[start + k],
        decreases end - i,
    {
        out.push(data[i]);
        i = i + 1;
    }
    out.push(0x80u8);
    while out.len() < 64
        invariant
            start <= end <= data@.len(),
            end - start < 64,
            end - start < out@.len() <= 64,
            forall|k: int| 0 <= k < end - start ==> out@[k] == data@[start + k],
            out@[end - start] == 0x80u8,
            forall|k: int| end - start < k < out@.len() ==> out@[k] == 0u8,
        decreases 64 - out@.len(),
    {
        let ghost prev = out@;
        out.push(0u8);
        proof {
            assert(out@ == prev.push(0u8));
            assert forall|k: int| 0 <= k < prev.len() implies out@[k] == prev[k] by {
            }
        }
    }
    proof {
        assert(out@ =~= pad_block(chunk));
    }
    out
}

/// Absorbs a byte string into the state with padding: full rate blocks
/// raw, then the padded final block; a block-aligned string gets an extra
/// padding-only block.
pub fn absorb_padded_data(v: &Ysc2Variant, state: &mut Vec<u64>, data: &[u8])
    requires
        old(state)@.len() == 16,
        v.wf(),
    ensures
        final(state)@ == absorb_padded(*v, old(state)@, data@),
        final(state)@.len() == 16,
{
    let ghost s0 = state@;
    let len = data.len();
    let mut done: usize = 0;
    proof {
        assert(data@.skip(0) =~= data@);
    }
    while len - done >= 64
        invariant
            v.wf(),
            done <= len,
            len == data@.len(),
            state@.len() == 16,
            absorb_padded(*v, s0, data@) == absorb_padded(*v, state@, data@.skip(done as int)),
        decreases len - done,
    {
        let block = vstd::slice::slice_subrange(data, done, done + 64);
        let ghost rest = data@.skip(done as int);
        absorb_block_in_place(v, state, block);
        proof {
            assert(block@ =~= rest.take(64));
            assert(data@.skip(done + 64) =~= rest.skip(64));
        }
        done = done + 64;
    }
    let ghost rest = data@.skip(done as int);
    let pad = build_pad_block(data, done, len);
    proof {
        assert(data@.subrange(done as int, len as int) =~= rest);
        assert(rest.len() < 64);
    }
    absorb_block_in_place(v, state, pad.as_slice());
}


/// Absorbing block-aligned data and then one more block is absorbing the
/// concatenation.
pub proof fn lemma_absorb_blocks_snoc(v: Ysc2Variant, init: Seq<u64>, fp: Seq<u8>, block: Seq<u8>)
    requires
        fp.len() % 64 == 0,
        block.len() == 64,
    ensures
        absorb_blocks(v, init, fp + block) == absorb_block(v, absorb_blocks(v, init, fp), block),
    decreases fp.len(),
{
    if fp.len() == 0 {
        assert((fp + block).take(64) =~= block);
        assert((fp + block).skip(64) =~= Seq::<u8>::empty());
        assert(absorb_blocks(v, init, fp + block) == absorb_blocks(
            v,
            absorb_block(v, init, block),
            Seq::<u8>::empty(),
        ));
        assert(absorb_blocks(v, absorb_block(v, init, block), Seq::<u8>::empty()) == absorb_block(
            v,
            init,
            block,
        ));
        assert(absorb_blocks(v, init, fp) == init);
    } else {
        assert(fp.len() >= 64);
        assert((fp + block).take(64) =~= fp.take(64));
        assert((fp + block).skip(64) =~= fp.skip(64) + block);
        assert(fp.skip(64).len() % 64 == 0);
        lemma_absorb_blocks_snoc(v, absorb_block(v, init, fp.take(64)), fp.skip(64), block);
        assert(absorb_blocks(v, init, fp + block) == absorb_blocks(
            v,
            absorb_block(v, init, fp.take(64)),
            fp.skip(64) + block,
        ));
        assert(absorb_blocks(v, init, fp) == absorb_blocks(
            v,
            absorb_block(v, init, fp.take(64)),
            fp.skip(64),
        ));
    }
}

/// Padded absorption splits into the full blocks followed by the padded
/// remainder.
pub proof fn lemma_absorb_padded_decompose(v: Ysc2Variant, init: Seq<u64>, m: Seq<u8>)
    ensures
        absorb_padded(v, init, m) == absorb_block(
            v,
            absorb_blocks(v, init, m.take(full_len(m))),
            pad_block(m.skip(full_len(m))),
        ),
    decreases m.len(),
{
    if m.len() < 64 {
        assert(full_len(m) == 0);
        assert(m.take(0) =~= Seq::<u8>::empty());
        assert(m.skip(0) =~= m);
    } else {
        let rest = m.skip(64);
        lemma_absorb_padded_decompose(v, absorb_block(v, init, m.take(64)), rest);
        assert(rest.len() % 64 == m.len() % 64);
        assert(full_len(m) == 64 + full_len(rest));
        assert(full_len(m) >= 64);
        assert(m.take(full_len(m)).take(64) =~= m.take(64));
        assert(m.take(full_len(m)).skip(64) =~= rest.take(full_len(rest)));
        assert(m.skip(full_len(m)) =~= rest.skip(full_len(rest)));
    }
}

/// The duplex sponge: the state, the buffered partial rate block, and
/// (in ghost form) the initial state and the bytes absorbed since.
pub struct Ysc2xCore {
    state: Vec<u64>,
    buf: Vec<u8>,
    variant: Ysc2Variant,
    init: Ghost<Seq<u64>>,
    msg: Ghost<Seq<u8>>,
}

impl Ysc2xCore {
    /// A well-formed sponge: the state reflects the full blocks of the
    /// absorbed message over the initial state; the buffer holds the
    /// remainder.
    pub closed spec fn wf(self) -> bool {
        &&& self.state@.len() == 16
        &&& self.variant.wf()
        &&& self.init@.len() == 16
        &&& self.buf@.len() < 64
        &&& self.buf@ == self.msg@.skip(full_len(self.msg@))
        &&& self.state@ == absorb_blocks(self.variant, self.init@, self.msg@.take(full_len(self.msg@)))
    }

    /// The state the sponge started from (zero, or key-derived).
    pub closed spec fn init_view(self) -> Seq<u64> {
        self.init@
    }

    /// The bytes absorbed since the initial state.
    pub closed spec fn msg_view(self) -> Seq<u8> {
        self.msg@
    }

    /// The variant the sponge was built with.
    pub closed spec fn variant_view(self) -> Ysc2Variant {
        self.variant
    }

    /// An empty unkeyed sponge over the zero state.
    pub fn new(v: &Ysc2Variant) -> (c: Ysc2xCore)
        requires
            v.wf(),
        ensures
            c.wf(),
            c.variant_view() == *v,
            c.init_view() == zero_state(),
            c.msg_view() == Seq::<u8>::empty(),
    {
        let mut state: Vec<u64> = Vec::new();
        while state.len() < 16
            invariant
                state@.len() <= 16,
                forall|k: int| 0 <= k < state@.len() ==> state@[k] == 0u64,
            decreases 16 - state@.len(),
        {
            state.push(0u64);
        }
        proof {
            assert(state@ =~= zero_state());
            let e = Seq::<u8>::empty();
            assert(e.take(full_len(e)) =~= e);
            assert(e.skip(full_len(e)) =~= e);
        }
        Ysc2xCore {
            state,
            buf: Vec::new(),
            variant: *v,
            init: Ghost(zero_state()),
            msg: Ghost(Seq::<u8>::empty()),
        }
    }

    /// A keyed sponge: the keyed-mode domain string is absorbed into the
    /// zero state as its own padded section, then the key as another, for
    /// domain separation between the modes.  A key whose length is not
    /// the variant's key size is rejected.
    pub fn new_keyed(v: &Ysc2Variant, key: &[u8]) -> (r: Result<Ysc2xCore, Error>)
        requires
            v.wf(),
        ensures
            match r {
                Ok(c) => {
                    &&& key@.len() == v.key_bytes
                    &&& c.wf()
                    &&& c.variant_view() == *v
                    &&& c.init_view() == keyed_init(*v, key@)
                    &&& c.msg_view() == Seq::<u8>::empty()
                },
                Err(e) => key@.len() != v.key_bytes && e == Error::InvalidKeyLength,
            },
    {
        if key.len() != v.key_bytes {
            return Err(Error::InvalidKeyLength);
        }
        let mut c = Self::new(v);
        let dom = keyed_domain(v);
        absorb_padded_data(v, &mut c.state, dom.as_slice());
        absorb_padded_data(v, &mut c.state, key);
        proof {
            let e = Seq::<u8>::empty();
            assert(e.take(full_len(e)) =~= e);
            assert(e.skip(full_len(e)) =~= e);
        }
        c.init = Ghost(keyed_init(*v, key@));
        Ok(c)
    }

    /// Absorbs `data`: the absorbed message grows by exactly these bytes.
    pub fn update(&mut self, data: &[u8])
        requires
            old(self).wf(),
        ensures
            final(self).wf(),
            final(self).variant_view() == old(self).variant_view(),
            final(self).init_view() == old(self).init_view(),
            final(self).msg_view() == old(self).msg_view() + data@,
    {
        let ghost v0 = self.variant;
        let ghost i0 = self.init@;
        let ghost m0 = self.msg@;
        let n = data.len();
        let mut j: usize = 0;
        proof {
            assert(m0 + data@.take(0) =~= m0);
        }
        while j < n
            invariant
                j <= n,
                n == data@.len(),
                self.wf(),
                self.variant_view() == v0,
                self.init_view() == i0,
                self.msg_view() == m0 + data@.take(j as int),
            decreases n - j,
        {
            let ghost m = self.msg@;
            let ghost b0 = self.buf@;
            let b = data[j];
            self.buf.push(b);
            self.msg = Ghost(self.msg@ + seq![b]);
            proof {
                let m1 = m + seq![b];
                assert(b0.len() == m.len() % 64);
                assert(self.buf@ =~= b0 + seq![b]);
                assert(m1 =~= m0 + data@.take(j + 1));
                if m.len() % 64 == 63 {
                    assert(m1.len() % 64 == 0);
                    assert(full_len(m1) == m1.len());
                    assert(m1.take(full_len(m1)) =~= m.take(full_len(m)) + self.buf@);
                    assert(m.take(full_len(m)).len() % 64 == 0);
                    lemma_absorb_blocks_snoc(v0, i0, m.take(full_len(m)), self.buf@);
                } else {
                    assert(m1.len() % 64 == m.len() % 64 + 1);
                    assert(full_len(m1) == full_len(m));
                    assert(m1.take(full_len(m1)) =~= m.take(full_len(m)));
                    assert(m1.skip(full_len(m1)) =~= m.skip(full_len(m)) + seq![b]);
                }
            }
            if self.buf.len() == 64 {
                let ghost bfull = self.buf@;
                let block = copy_bytes(&self.buf);
                self.buf = Vec::new();
                absorb_block_in_place(&self.variant, &mut self.state, block.as_slice());
                proof {
                    let m1 = self.msg@;
                    assert(m.len() % 64 == 63);
                    assert(self.state@ == absorb_block(
                        v0,
                        absorb_blocks(v0, i0, m.take(full_len(m))),
                        bfull,
                    ));
                    assert(self.state@ == absorb_blocks(v0, i0, m1.take(full_len(m1))));
                    assert(self.buf@ =~= m1.skip(full_len(m1)));
                }
            } else {
                proof {
                    let m1 = self.msg@;
                    assert(m.len() % 64 != 63);
                    assert(self.state@ == absorb_blocks(v0, i0, m1.take(full_len(m1))));
                    assert(self.buf@ == m1.skip(full_len(m1)));
                }
            }
            j = j + 1;
        }
        proof {
            assert(m0 + data@.take(n as int) =~= m0 + data@);
        }
    }

    /// Erases the keyed state: state words and buffered bytes are
    /// overwritten with zeros through volatile writes.
    pub fn erase(&mut self)
        requires
            old(self).wf(),
        ensures
            final(self).wf(),
            final(self).variant_view() == old(self).variant_view(),
            final(self).init_view() == zero_state(),
            final(self).msg_view() == Seq::<u8>::empty(),
    {
        wipe_words(&mut self.state);
        wipe_bytes(&mut self.buf);
        self.buf = Vec::new();
        self.init = Ghost(zero_state());
        self.msg = Ghost(Seq::<u8>::empty());
        proof {
            assert(self.state@ =~= zero_state());
            let e = Seq::<u8>::empty();
            assert(e.take(full_len(e)) =~= e);
            assert(e.skip(full_len(e)) =~= e);
        }
    }
}


impl Ysc2xCore {
    /// Snapshots the sponge into a squeeze-phase reader, absorbing the
    /// buffered partial block with padding.  The reader is a copy,
    /// independent of this sponge.
    pub fn finalize_xof(&self) -> (r: Reader)
        requires
            self.wf(),
        ensures
            r.wf(),
            r.variant_view() == self.variant_view(),
            r.emitted_view() == 0,
            r.base_view() == absorb_padded(self.variant_view(), self.init_view(), self.msg_view()),
    {
        let mut st = copy_words(&self.state);
        let pad = build_pad_block(self.buf.as_slice(), 0, self.buf.len());
        proof {
            assert(self.buf@.subrange(0, self.buf@.len() as int) =~= self.buf@);
        }
        absorb_block_in_place(&self.variant, &mut st, pad.as_slice());
        proof {
            lemma_absorb_padded_decompose(self.variant, self.init@, self.msg@);
        }
        Reader {
            state: st,
            blk: pad,
            off: 0,
            variant: self.variant,
            base: Ghost(absorb_padded(self.variant, self.init@, self.msg@)),
            emitted: Ghost(0int),
        }
    }

    /// The fixed-length digest: the first squeeze block, 64 bytes.
    pub fn finalize_fixed(&self) -> (out: Vec<u8>)
        requires
            self.wf(),
        ensures
            out@ == squeeze_block(
                self.variant_view(),
                absorb_padded(self.variant_view(), self.init_view(), self.msg_view()),
                0,
            ),
            out@.len() == 64,
    {
        let mut st = copy_words(&self.state);
        let pad = build_pad_block(self.buf.as_slice(), 0, self.buf.len());
        proof {
            assert(self.buf@.subrange(0, self.buf@.len() as int) =~= self.buf@);
        }
        absorb_block_in_place(&self.variant, &mut st, pad.as_slice());
        proof {
            lemma_absorb_padded_decompose(self.variant, self.init@, self.msg@);
        }
        let ghost fs = absorb_padded(self.variant, self.init@, self.msg@);
        permutation(&mut st, self.variant.kind, self.variant.rounds);
        proof {
            assert(iter_permute(self.variant, fs, 0) == fs);
            assert(st@ == iter_permute(self.variant, fs, 1));
        }
        let out = write_words(&st, 8);
        proof {
            lemma_words_le_bytes_len(st@, 8);
        }
        out
    }

    /// Recomputes the tag and compares in constant time.  Verification
    /// succeeds exactly when the offered tag equals the tag of the same
    /// key-derived state and message.
    pub fn verify(&self, tag: &[u8]) -> (r: bool)
        requires
            self.wf(),
        ensures
            r <==> tag@ == squeeze_block(
                self.variant_view(),
                absorb_padded(self.variant_view(), self.init_view(), self.msg_view()),
                0,
            ),
    {
        let t = self.finalize_fixed();
        ct_compare(t.as_slice(), tag)
    }
}

/// The squeeze-phase reader: a state snapshot, the serialized current
/// block, and the in-block offset.  Output of arbitrary length is read
/// from it; it never touches its originating sponge.
pub struct Reader {
    state: Vec<u64>,
    blk: Vec<u8>,
    off: usize,
    variant: Ysc2Variant,
    base: Ghost<Seq<u64>>,
    emitted: Ghost<int>,
}

impl Reader {
    /// A well-formed reader: the state is the finalized base permuted
    /// once per started block, and the serialized block is current while
    /// inside one.
    pub closed spec fn wf(self) -> bool {
        &&& self.state@.len() == 16
        &&& self.variant.wf()
        &&& self.base@.len() == 16
        &&& 0 <= self.emitted@
        &&& self.off < 64
        &&& self.off == self.emitted@ % 64
        &&& self.state@ == iter_permute(self.variant, self.base@, (self.emitted@ + 63) / 64)
        &&& self.blk@.len() == 64
        &&& (self.off != 0 ==> self.blk@ == words_le_bytes(self.state@, 8))
    }

    /// The finalized state this reader squeezes from.
    pub closed spec fn base_view(self) -> Seq<u64> {
        self.base@
    }

    /// How many bytes have been read so far.
    pub closed spec fn emitted_view(self) -> int {
        self.emitted@
    }

    /// The variant the reader was built with.
    pub closed spec fn variant_view(self) -> Ysc2Variant {
        self.variant
    }

    /// Reads the next `n` squeeze bytes.
    pub fn read(&mut self, n: usize) -> (out: Vec<u8>)
        requires
            old(self).wf(),
        ensures
            final(self).wf(),
            final(self).variant_view() == old(self).variant_view(),
            final(self).base_view() == old(self).base_view(),
            final(self).emitted_view() == old(self).emitted_view() + n,
            out@ == xof_bytes(old(self).variant_view(), old(self).base_view(), old(self).emitted_view(), n as int),
    {
        let ghost v = self.variant;
        let ghost base = self.base@;
        let ghost e0 = self.emitted@;
        let mut out: Vec<u8> = Vec::new();
        let mut i: usize = 0;
        while i < n
            invariant
                i <= n,
                self.wf(),
                self.variant_view() == v,
                self.base_view() == base,
                self.emitted_view() == e0 + i,
                out@.len() == i,
                forall|k: int| 0 <= k < i ==> out@[k] == xof_byte(v, base, e0 + k),
            decreases n - i,
        {
            let ghost e = self.emitted@;
            if self.off == 0 {
                proof {
                    assert(e % 64 == 0);
                    assert((e + 63) / 64 == e / 64) by (nonlinear_arith)
                        requires
                            0 <= e,
                            e % 64 == 0,
                    ;
                }
                permutation(&mut self.state, self.variant.kind, self.variant.rounds);
                proof {
                    assert(self.state@ == iter_permute(v, base, e / 64 + 1));
                }
                let nb = write_words(&self.state, 8);
                proof {
                    lemma_words_le_bytes_len(self.state@, 8);
                }
                self.blk = nb;
            } else {
                proof {
                    assert((e + 63) / 64 == e / 64 + 1) by (nonlinear_arith)
                        requires
                            0 <= e,
                            e % 64 != 0,
                    ;
                    assert(self.state@ == iter_permute(v, base, e / 64 + 1));
                }
            }
            let b = self.blk[self.off];
            out.push(b);
            proof {
                assert(self.blk@ == words_le_bytes(iter_permute(v, base, e / 64 + 1), 8));
                assert(squeeze_block(v, base, e / 64) == self.blk@);
                assert(b == xof_byte(v, base, e));
            }
            self.off = (self.off + 1) % 64;
            self.emitted = Ghost(e + 1);
            proof {
                assert(self.off == (e + 1) % 64) by (nonlinear_arith)
                    requires
                        0 <= e,
                        self.off == ((e % 64) + 1) % 64,
                ;
                if (e + 1) % 64 == 0 {
                    assert(e % 64 == 63) by (nonlinear_arith)
                        requires
                            0 <= e,
                            (e + 1) % 64 == 0,
                    ;
                    assert((e + 1 + 63) / 64 == e / 64 + 1) by (nonlinear_arith)
                        requires
                            0 <= e,
                            e % 64 == 63,
                    ;
                } else {
                    assert((e + 1 + 63) / 64 == e / 64 + 1) by (nonlinear_arith)
                        requires
                            0 <= e,
                            (e + 1) % 64 != 0,
                    ;
                }
            }
            i = i + 1;
        }
        proof {
            assert(out@ =~= xof_bytes(v, base, e0, n as int));
        }
        out
    }

    /// Reads one full 64-byte squeeze block.
    pub fn read_block(&mut self) -> (out: Vec<u8>)
        requires
            old(self).wf(),
        ensures
            final(self).wf(),
            final(self).variant_view() == old(self).variant_view(),
            final(self).base_view() == old(self).base_view(),
            final(self).emitted_view() == old(self).emitted_view() + 64,
            out@ == xof_bytes(old(self).variant_view(), old(self).base_view(), old(self).emitted_view(), 64),
    {
        self.read(64)
    }

    /// Erases the reader's state snapshot and its serialized block
    /// through volatile writes.
    pub fn erase(&mut self)
        requires
            old(self).wf(),
        ensures
            final(self).wf(),
            final(self).variant_view() == old(self).variant_view(),
            final(self).emitted_view() == 0,
            final(self).base_view() == zero_state(),
    {
        wipe_words(&mut self.state);
        wipe_bytes(&mut self.blk);
        self.off = 0;
        self.base = Ghost(zero_state());
        self.emitted = Ghost(0int);
        proof {
            assert(self.state@ =~= zero_state());
        }
    }
}


/// A fixed-output wrapper over the sponge core: the same absorption, but
/// output is always the 64-byte digest.
pub struct FixedOutputCoreWrapper {
    core: Ysc2xCore,
}

impl FixedOutputCoreWrapper {
    /// A well-formed wrapper holds a well-formed sponge.
    pub closed spec fn wf(self) -> bool {
        self.core.wf()
    }

    /// The state the sponge started from.
    pub closed spec fn init_view(self) -> Seq<u64> {
        self.core.init_view()
    }

    /// The bytes absorbed so far.
    pub closed spec fn msg_view(self) -> Seq<u8> {
        self.core.msg_view()
    }

    /// The variant the sponge was built with.
    pub closed spec fn variant_view(self) -> Ysc2Variant {
        self.core.variant_view()
    }

    /// An empty unkeyed fixed-output hasher.
    pub fn new(v: &Ysc2Variant) -> (c: FixedOutputCoreWrapper)
        requires
            v.wf(),
        ensures
            c.wf(),
            c.variant_view() == *v,
            c.init_view() == zero_state(),
            c.msg_view() == Seq::<u8>::empty(),
    {
        FixedOutputCoreWrapper { core: Ysc2xCore::new(v) }
    }

    /// A keyed fixed-output authenticator over the keyed initial state.
    pub fn new_keyed(v: &Ysc2Variant, key: &[u8]) -> (r: Result<FixedOutputCoreWrapper, Error>)
        requires
            v.wf(),
        ensures
            match r {
                Ok(c) => {
                    &&& key@.len() == v.key_bytes
                    &&& c.wf()
                    &&& c.variant_view() == *v
                    &&& c.init_view() == keyed_init(*v, key@)
                    &&& c.msg_view() == Seq::<u8>::empty()
                },
                Err(e) => key@.len() != v.key_bytes && e == Error::InvalidKeyLength,
            },
    {
        let core = Ysc2xCore::new_keyed(v, key)?;
        Ok(FixedOutputCoreWrapper { core })
    }

    /// Absorbs `data`.
    pub fn update(&mut self, data: &[u8])
        requires
            old(self).wf(),
        ensures
            final(self).wf(),
            final(self).variant_view() == old(self).variant_view(),
            final(self).init_view() == old(self).init_view(),
            final(self).msg_view() == old(self).msg_view() + data@,
    {
        self.core.update(data);
    }

    /// The 64-byte digest of everything absorbed.
    pub fn finalize_fixed(&self) -> (out: Vec<u8>)
        requires
            self.wf(),
        ensures
            out@ == squeeze_block(
                self.variant_view(),
                absorb_padded(self.variant_view(), self.init_view(), self.msg_view()),
                0,
            ),
            out@.len() == 64,
    {
        self.core.finalize_fixed()
    }
}

// ---------------------------------------------------------------------
// Laws of the sponge modes.
// ---------------------------------------------------------------------

/// Hash determinism: the digest is a function of the absorbed bytes
/// alone; equal inputs give equal digests on every run and back-end.
pub proof fn lemma_hash_deterministic(v: Ysc2Variant, m1: Seq<u8>, m2: Seq<u8>)
    requires
        m1 == m2,
    ensures
        hash_spec(v, m1) == hash_spec(v, m2),
{
}

/// XOF consistency: the first 64 bytes of the extendable output equal
/// the fixed-length digest of the same input.
pub proof fn lemma_xof_consistency(v: Ysc2Variant, m: Seq<u8>)
    ensures
        xof_bytes(v, absorb_padded(v, zero_state(), m), 0, 64) == hash_spec(v, m),
{
    let fs = absorb_padded(v, zero_state(), m);
    lemma_words_le_bytes_len(iter_permute(v, fs, 1), 8);
    assert forall|i: int| 0 <= i < 64 implies xof_bytes(v, fs, 0, 64)[i] == hash_spec(v, m)[i] by {
        assert(i / 64 == 0 && i % 64 == i);
        assert(xof_byte(v, fs, i) == squeeze_block(v, fs, 0)[i]);
    }
    assert(xof_bytes(v, fs, 0, 64) =~= hash_spec(v, m));
}

/// The half of the verification law that is a mathematical fact: with
/// the same key and the same message, the recomputed tag equals the
/// issued one, so verification of a genuine tag always succeeds.  That a
/// changed key or message yields a different tag is a cryptographic
/// property outside what can be proved; the test suite samples it.
pub proof fn lemma_mac_verification_completeness(v: Ysc2Variant, key1: Seq<u8>, m1: Seq<u8>, key2: Seq<u8>, m2: Seq<u8>)
    requires
        key1 == key2,
        m1 == m2,
    ensures
        mac_spec(v, key1, m1) == mac_spec(v, key2, m2),
{
}


pub proof fn lemma_absorb_block_len(v: Ysc2Variant, s: Seq<u64>, block: Seq<u8>)
    ensures
        absorb_block(v, s, block).len() == 16,
{
    crate::permutation::lemma_permute_len(v.kind, xor_rate(s, block), v.rounds as int);
}

pub proof fn lemma_absorb_padded_len(v: Ysc2Variant, s: Seq<u64>, data: Seq<u8>)
    ensures
        absorb_padded(v, s, data).len() == 16,
    decreases data.len(),
{
    if data.len() >= 64 {
        lemma_absorb_padded_len(v, absorb_block(v, s, data.take(64)), data.skip(64));
    } else {
        lemma_absorb_block_len(v, s, pad_block(data));
    }
}

} // verus!
