//! Authenticated encryption with associated data as a sponge duplex.
//!
//! The key schedule absorbs the key, then the authenticated-mode domain
//! string, into the zero state; the result is the immutable initial state.
//! Each operation copies it, absorbs the nonce and the associated data,
//! then interleaves rate-keystream extraction with ciphertext absorption,
//! and finally emits a 16-byte tag.  Both directions absorb the
//! ciphertext, so their states and tags agree.

use vstd::prelude::*;
use crate::error::Error;
use crate::permutation::{lemma_permute_len, permutation, permute};
use crate::sponge::{absorb_padded, absorb_padded_data, zero_state};
use crate::variant::{aead_domain, spec_aead_domain, Ysc2Variant};
use crate::wipe::{wipe_bytes, wipe_words};
use crate::words::{
    copy_words, ct_compare, lemma_words_le_bytes_len, lemma_xor_cancel8, words_le_bytes,
    write_words,
};

verus! {

/// The immutable initial state: key, then domain string, absorbed with
/// padding into the zero state.
pub open spec fn aead_init(v: Ysc2Variant, key: Seq<u8>) -> Seq<u64> {
    absorb_padded(v, absorb_padded(v, zero_state(), key), spec_aead_domain(v))
}

/// The per-message state after the nonce and the associated data have
/// been absorbed.
pub open spec fn aead_pre(v: Ysc2Variant, init: Seq<u64>, nonce: Seq<u8>, ad: Seq<u8>) -> Seq<u64> {
    absorb_padded(v, absorb_padded(v, init, nonce), ad)
}

/// Encrypting the plaintext chunk by chunk (up to 64 bytes each):
/// permute, serialize the rate as keystream, xor the chunk, absorb the
/// resulting ciphertext chunk with padding.  Yields the final state and
/// the ciphertext.
pub open spec fn aead_encrypt_blocks(v: Ysc2Variant, s: Seq<u64>, m: Seq<u8>) -> (Seq<u64>, Seq<u8>)
    decreases m.len(),
{
    if m.len() == 0 {
        (s, Seq::<u8>::empty())
    } else {
        let cl = if m.len() >= 64 {
            64int
        } else {
            m.len() as int
        };
        let s1 = permute(v.kind, s, v.rounds as int);
        let ks = words_le_bytes(s1, 8);
        let c = Seq::new(cl as nat, |i: int| m[i] ^ ks[i]);
        let r = aead_encrypt_blocks(v, absorb_padded(v, s1, c), m.skip(cl));
        (r.0, c + r.1)
    }
}

/// Decrypting chunk by chunk: permute, serialize the keystream, absorb
/// the ciphertext chunk (as on the encryption side), then xor.  Yields
/// the final state and the plaintext.
pub open spec fn aead_decrypt_blocks(v: Ysc2Variant, s: Seq<u64>, c: Seq<u8>) -> (Seq<u64>, Seq<u8>)
    decreases c.len(),
{
    if c.len() == 0 {
        (s, Seq::<u8>::empty())
    } else {
        let cl = if c.len() >= 64 {
            64int
        } else {
            c.len() as int
        };
        let s1 = permute(v.kind, s, v.rounds as int);
        let ks = words_le_bytes(s1, 8);
        let cc = c.take(cl);
        let m = Seq::new(cl as nat, |i: int| cc[i] ^ ks[i]);
        let r = aead_decrypt_blocks(v, absorb_padded(v, s1, cc), c.skip(cl));
        (r.0, m + r.1)
    }
}

/// The tag: one more permutation, then the first 16 bytes of the state.
pub open spec fn aead_tag(v: Ysc2Variant, s: Seq<u64>) -> Seq<u8> {
    words_le_bytes(permute(v.kind, s, v.rounds as int), 2)
}

/// The ciphertext and tag of an encryption.
pub open spec fn aead_encrypt_spec(
    v: Ysc2Variant,
    init: Seq<u64>,
    nonce: Seq<u8>,
    ad: Seq<u8>,
    m: Seq<u8>,
) -> (Seq<u8>, Seq<u8>) {
    let r = aead_encrypt_blocks(v, aead_pre(v, init, nonce, ad), m);
    (r.1, aead_tag(v, r.0))
}

/// The plaintext candidate of a decryption.
pub open spec fn aead_decrypt_plain(
    v: Ysc2Variant,
    init: Seq<u64>,
    nonce: Seq<u8>,
    ad: Seq<u8>,
    c: Seq<u8>,
) -> Seq<u8> {
    aead_decrypt_blocks(v, aead_pre(v, init, nonce, ad), c).1
}

/// The tag a decryption recomputes and checks the offered tag against.
pub open spec fn aead_decrypt_tag(
    v: Ysc2Variant,
    init: Seq<u64>,
    nonce: Seq<u8>,
    ad: Seq<u8>,
    c: Seq<u8>,
) -> Seq<u8> {
    aead_tag(v, aead_decrypt_blocks(v, aead_pre(v, init, nonce, ad), c).0)
}

pub proof fn lemma_aead_encrypt_blocks_len(v: Ysc2Variant, s: Seq<u64>, m: Seq<u8>)
    requires
        s.len() == 16,
    ensures
        aead_encrypt_blocks(v, s, m).0.len() == 16,
        aead_encrypt_blocks(v, s, m).1.len() == m.len(),
    decreases m.len(),
{
    if m.len() != 0 {
        let cl = if m.len() >= 64 {
            64int
        } else {
            m.len() as int
        };
        let s1 = permute(v.kind, s, v.rounds as int);
        lemma_permute_len(v.kind, s, v.rounds as int);
        let ks = words_le_bytes(s1, 8);
        let c = Seq::new(cl as nat, |i: int| m[i] ^ ks[i]);
        crate::sponge::lemma_absorb_padded_len(v, s1, c);
        lemma_aead_encrypt_blocks_len(v, absorb_padded(v, s1, c), m.skip(cl));
    }
}

pub proof fn lemma_aead_decrypt_blocks_len(v: Ysc2Variant, s: Seq<u64>, c: Seq<u8>)
    requires
        s.len() == 16,
    ensures
        aead_decrypt_blocks(v, s, c).0.len() == 16,
        aead_decrypt_blocks(v, s, c).1.len() == c.len(),
    decreases c.len(),
{
    if c.len() != 0 {
        let cl = if c.len() >= 64 {
            64int
        } else {
            c.len() as int
        };
        let s1 = permute(v.kind, s, v.rounds as int);
        lemma_permute_len(v.kind, s, v.rounds as int);
        crate::sponge::lemma_absorb_padded_len(v, s1, c.take(cl));
        lemma_aead_decrypt_blocks_len(v, absorb_padded(v, s1, c.take(cl)), c.skip(cl));
    }
}

/// Both directions absorb the ciphertext, so decrypting an encryption
/// with the same state walks the same state sequence and recovers the
/// plaintext.
pub proof fn lemma_aead_blocks_roundtrip(v: Ysc2Variant, s: Seq<u64>, m: Seq<u8>)
    requires
        s.len() == 16,
    ensures
        aead_decrypt_blocks(v, s, aead_encrypt_blocks(v, s, m).1).0 == aead_encrypt_blocks(v, s, m).0,
        aead_decrypt_blocks(v, s, aead_encrypt_blocks(v, s, m).1).1 == m,
    decreases m.len(),
{
    lemma_aead_encrypt_blocks_len(v, s, m);
    if m.len() == 0 {
        assert(aead_encrypt_blocks(v, s, m).1 =~= Seq::<u8>::empty());
        assert(aead_decrypt_blocks(v, s, Seq::<u8>::empty()).1 =~= m);
    } else {
        let cl = if m.len() >= 64 {
            64int
        } else {
            m.len() as int
        };
        let s1 = permute(v.kind, s, v.rounds as int);
        lemma_permute_len(v.kind, s, v.rounds as int);
        let ks = words_le_bytes(s1, 8);
        lemma_words_le_bytes_len(s1, 8);
        let c1 = Seq::new(cl as nat, |i: int| m[i] ^ ks[i]);
        let s2 = absorb_padded(v, s1, c1);
        crate::sponge::lemma_absorb_padded_len(v, s1, c1);
        let rest = aead_encrypt_blocks(v, s2, m.skip(cl));
        lemma_aead_encrypt_blocks_len(v, s2, m.skip(cl));
        let c = c1 + rest.1;
        assert(aead_encrypt_blocks(v, s, m).1 == c);
        assert(c.len() == m.len());
        assert(c.take(cl) =~= c1);
        assert(c.skip(cl) =~= rest.1);
        let p1 = Seq::new(cl as nat, |i: int| c1[i] ^ ks[i]);
        assert forall|i: int| 0 <= i < cl implies p1[i] == m[i] by {
            lemma_xor_cancel8(m[i], ks[i]);
        }
        lemma_aead_blocks_roundtrip(v, s2, m.skip(cl));
        assert(aead_decrypt_blocks(v, s, c).1 =~= m) by {
            assert(aead_decrypt_blocks(v, s, c).1 == p1 + m.skip(cl));
        }
    }
}

/// AEAD round trip: decrypting an encryption made with the same state,
/// nonce and associated data yields the original plaintext, and the
/// recomputed tag equals the issued one, so verification succeeds.
pub proof fn lemma_aead_roundtrip(
    v: Ysc2Variant,
    init: Seq<u64>,
    nonce: Seq<u8>,
    ad: Seq<u8>,
    m: Seq<u8>,
)
    requires
        init.len() == 16,
    ensures
        aead_decrypt_plain(v, init, nonce, ad, aead_encrypt_spec(v, init, nonce, ad, m).0) == m,
        aead_decrypt_tag(v, init, nonce, ad, aead_encrypt_spec(v, init, nonce, ad, m).0)
            == aead_encrypt_spec(v, init, nonce, ad, m).1,
{
    crate::sponge::lemma_absorb_padded_len(v, init, nonce);
    crate::sponge::lemma_absorb_padded_len(v, absorb_padded(v, init, nonce), ad);
    lemma_aead_blocks_roundtrip(v, aead_pre(v, init, nonce, ad), m);
}


/// The AEAD cipher: the immutable post-key-schedule state.  Each
/// operation runs on a fresh copy of it.
pub struct Ysc2Aead {
    initial_state: Vec<u64>,
    variant: Ysc2Variant,
}

impl Ysc2Aead {
    /// A well-formed cipher: sixteen state words under a well-formed
    /// variant.
    pub closed spec fn wf(self) -> bool {
        self.initial_state@.len() == 16 && self.variant.wf()
    }

    /// The immutable initial state.
    pub closed spec fn init_view(self) -> Seq<u64> {
        self.initial_state@
    }

    /// The variant the cipher was built with.
    pub closed spec fn variant_view(self) -> Ysc2Variant {
        self.variant
    }

    /// Key schedule: the key, then the authenticated-mode domain string,
    /// absorbed with padding into the zero state.  A key of the wrong
    /// length is rejected.
    pub fn new(v: &Ysc2Variant, key: &[u8]) -> (r: Result<Ysc2Aead, Error>)
        requires
            v.wf(),
        ensures
            match r {
                Ok(c) => {
                    &&& key@.len() == v.key_bytes
                    &&& c.wf()
                    &&& c.variant_view() == *v
                    &&& c.init_view() == aead_init(*v, key@)
                },
                Err(e) => key@.len() != v.key_bytes && e == Error::InvalidKeyLength,
            },
    {
        if key.len() != v.key_bytes {
            return Err(Error::InvalidKeyLength);
        }
        let mut state: Vec<u64> = Vec::new();
        while state.len() < 16
            invariant
                state@.len() <= 16,
                forall|k: int| 0 <= k < state@.len() ==> state@[k] == 0u64,
            decreases 16 - state@.len(),
        {
            state.push(0u64);
        }
        proof {
            assert(state@ =~= zero_state());
        }
        absorb_padded_data(v, &mut state, key);
        let dom = aead_domain(v);
        absorb_padded_data(v, &mut state, dom.as_slice());
        Ok(Ysc2Aead { initial_state: state, variant: *v })
    }

    /// Encrypts `buffer` in place and returns the 16-byte tag.  The
    /// nonce must have the variant's nonce size; associated data is
    /// authenticated but not encrypted.
    pub fn encrypt_in_place_detached(
        &self,
        nonce: &[u8],
        associated_data: &[u8],
        buffer: &mut Vec<u8>,
    ) -> (r: Result<Vec<u8>, Error>)
        requires
            self.wf(),
        ensures
            match r {
                Ok(tag) => {
                    &&& nonce@.len() == self.variant_view().nonce_bytes
                    &&& final(buffer)@ == aead_encrypt_spec(
                        self.variant_view(),
                        self.init_view(),
                        nonce@,
                        associated_data@,
                        old(buffer)@,
                    ).0
                    &&& tag@ == aead_encrypt_spec(
                        self.variant_view(),
                        self.init_view(),
                        nonce@,
                        associated_data@,
                        old(buffer)@,
                    ).1
                    &&& tag@.len() == 16
                    &&& final(buffer)@.len() == old(buffer)@.len()
                },
                Err(e) => {
                    &&& nonce@.len() != self.variant_view().nonce_bytes
                    &&& e == Error::InvalidNonceLength
                    &&& final(buffer)@ == old(buffer)@
                },
            },
    {
        let v = &self.variant;
        if nonce.len() != v.nonce_bytes {
            return Err(Error::InvalidNonceLength);
        }
        let ghost m0 = buffer@;
        let mut state = copy_words(&self.initial_state);
        absorb_padded_data(v, &mut state, nonce);
        absorb_padded_data(v, &mut state, associated_data);
        let ghost sp = state@;
        let len = buffer.len();
        let mut done: usize = 0;
        proof {
            assert(m0.skip(0) =~= m0);
            assert(buffer@.take(0) + aead_encrypt_blocks(*v, state@, m0.skip(0)).1
                =~= aead_encrypt_blocks(*v, sp, m0).1);
        }
        while done < len
            invariant
                v.wf(),
                v == self.variant,
                state@.len() == 16,
                done <= len,
                len == buffer@.len(),
                len == m0.len(),
                forall|i: int| done <= i < len ==> buffer@[i] == m0[i],
                aead_encrypt_blocks(*v, sp, m0).0 == aead_encrypt_blocks(*v, state@, m0.skip(done as int)).0,
                aead_encrypt_blocks(*v, sp, m0).1 == buffer@.take(done as int) + aead_encrypt_blocks(*v, state@, m0.skip(done as int)).1,
            decreases len - done,
        {
            let ghost st0 = state@;
            let ghost rest = m0.skip(done as int);
            let rem = len - done;
            let cl = if rem >= 64 {
                64usize
            } else {
                rem
            };
            permutation(&mut state, v.kind, v.rounds);
            proof {
                lemma_permute_len(v.kind, st0, v.rounds as int);
            }
            let ghost s1 = state@;
            let ks = write_words(&state, 8);
            proof {
                lemma_words_le_bytes_len(state@, 8);
            }
            let mut i: usize = 0;
            while i < cl
                invariant
                    i <= cl,
                    done + cl <= len,
                    len == buffer@.len(),
                    len == m0.len(),
                    ks@.len() == 64,
                    cl <= 64,
                    forall|k: int| 0 <= k < done ==> buffer@[k] == ciphertext_byte(*v, sp, m0, k),
                    forall|k: int| done <= k < done + i ==> buffer@[k] == (m0[k] ^ ks@[k - done]),
                    forall|k: int| done + i <= k < len ==> buffer@[k] == m0[k],
                decreases cl - i,
            {
                let x = buffer[done + i] ^ ks[i];
                buffer[done + i] = x;
                i = i + 1;
            }
            let chunk = vstd::slice::slice_subrange(buffer.as_slice(), done, done + cl);
            absorb_padded_data(v, &mut state, chunk);
            proof {
                let cseq = Seq::new(cl as nat, |k: int| rest[k] ^ words_le_bytes(s1, 8)[k]);
                assert(chunk@ =~= cseq);
                assert(rest.skip(cl as int) =~= m0.skip(done + cl));
                assert(aead_encrypt_blocks(*v, st0, rest).0 == aead_encrypt_blocks(*v, state@, m0.skip(done + cl)).0);
                assert(aead_encrypt_blocks(*v, st0, rest).1 == cseq + aead_encrypt_blocks(*v, state@, m0.skip(done + cl)).1);
                assert(buffer@.take(done + cl) =~= buffer@.take(done as int) + cseq);
                assert(buffer@.take(done + cl) + aead_encrypt_blocks(*v, state@, m0.skip(done + cl)).1
                    =~= buffer@.take(done as int) + aead_encrypt_blocks(*v, st0, rest).1);
            }
            done = done + cl;
        }
        proof {
            assert(m0.skip(len as int) =~= Seq::<u8>::empty());
            assert(aead_encrypt_blocks(*v, state@, Seq::<u8>::empty()).1 =~= Seq::<u8>::empty());
            assert(buffer@.take(len as int) =~= buffer@);
            assert(buffer@ == aead_encrypt_blocks(*v, sp, m0).1);
        }
        let ghost sf = state@;
        permutation(&mut state, v.kind, v.rounds);
        let tag = write_words(&state, 2);
        proof {
            lemma_words_le_bytes_len(state@, 2);
            assert(tag@ == aead_tag(*v, sf));
        }
        Ok(tag)
    }
}

/// Byte `k` of the ciphertext produced from state `s` and message `m`.
pub open spec fn ciphertext_byte(v: Ysc2Variant, s: Seq<u64>, m: Seq<u8>, k: int) -> u8 {
    aead_encrypt_blocks(v, s, m).1[k]
}


impl Ysc2Aead {
    /// Decrypts `buffer` in place after recomputing the tag over the
    /// absorbed ciphertext.  On tag mismatch the buffer is zeroed
    /// through volatile writes and `AuthenticationFailure` is returned:
    /// no plaintext is recoverable and the operation is fatal.
    pub fn decrypt_in_place_detached(
        &self,
        nonce: &[u8],
        associated_data: &[u8],
        buffer: &mut Vec<u8>,
        tag: &[u8],
    ) -> (r: Result<(), Error>)
        requires
            self.wf(),
        ensures
            match r {
                Ok(u) => {
                    &&& nonce@.len() == self.variant_view().nonce_bytes
                    &&& tag@ == aead_decrypt_tag(
                        self.variant_view(),
                        self.init_view(),
                        nonce@,
                        associated_data@,
                        old(buffer)@,
                    )
                    &&& final(buffer)@ == aead_decrypt_plain(
                        self.variant_view(),
                        self.init_view(),
                        nonce@,
                        associated_data@,
                        old(buffer)@,
                    )
                },
                Err(e) => {
                    if nonce@.len() != self.variant_view().nonce_bytes {
                        e == Error::InvalidNonceLength && final(buffer)@ == old(buffer)@
                    } else {
                        &&& e == Error::AuthenticationFailure
                        &&& tag@ != aead_decrypt_tag(
                            self.variant_view(),
                            self.init_view(),
                            nonce@,
                            associated_data@,
                            old(buffer)@,
                        )
                        &&& final(buffer)@.len() == old(buffer)@.len()
                        &&& forall|i: int|
                            0 <= i < final(buffer)@.len() ==> final(buffer)@[i] == 0u8
                    }
                },
            },
    {
        let v = &self.variant;
        if nonce.len() != v.nonce_bytes {
            return Err(Error::InvalidNonceLength);
        }
        let ghost c0 = buffer@;
        let mut state = copy_words(&self.initial_state);
        absorb_padded_data(v, &mut state, nonce);
        absorb_padded_data(v, &mut state, associated_data);
        let ghost sp = state@;
        let len = buffer.len();
        let mut done: usize = 0;
        proof {
            assert(c0.skip(0) =~= c0);
            assert(buffer@.take(0) + aead_decrypt_blocks(*v, state@, c0.skip(0)).1
                =~= aead_decrypt_blocks(*v, sp, c0).1);
        }
        while done < len
            invariant
                v.wf(),
                v == self.variant,
                state@.len() == 16,
                done <= len,
                len == buffer@.len(),
                len == c0.len(),
                forall|i: int| done <= i < len ==> buffer@[i] == c0[i],
                aead_decrypt_blocks(*v, sp, c0).0 == aead_decrypt_blocks(*v, state@, c0.skip(done as int)).0,
                aead_decrypt_blocks(*v, sp, c0).1 == buffer@.take(done as int) + aead_decrypt_blocks(*v, state@, c0.skip(done as int)).1,
            decreases len - done,
        {
            let ghost st0 = state@;
            let ghost rest = c0.skip(done as int);
            let rem = len - done;
            let cl = if rem >= 64 {
                64usize
            } else {
                rem
            };
            permutation(&mut state, v.kind, v.rounds);
            proof {
                lemma_permute_len(v.kind, st0, v.rounds as int);
            }
            let ghost s1 = state@;
            let ks = write_words(&state, 8);
            proof {
                lemma_words_le_bytes_len(state@, 8);
            }
            let chunk = vstd::slice::slice_subrange(buffer.as_slice(), done, done + cl);
            absorb_padded_data(v, &mut state, chunk);
            let ghost bpre = buffer@;
            let mut i: usize = 0;
            while i < cl
                invariant
                    i <= cl,
                    done + cl <= len,
                    len == buffer@.len(),
                    len == bpre.len(),
                    ks@.len() == 64,
                    cl <= 64,
                    forall|k: int| 0 <= k < done ==> buffer@[k] == bpre[k],
                    forall|k: int| done <= k < done + i ==> buffer@[k] == (bpre[k] ^ ks@[k - done]),
                    forall|k: int| done + i <= k < len ==> buffer@[k] == bpre[k],
                decreases cl - i,
            {
                let x = buffer[done + i] ^ ks[i];
                buffer[done + i] = x;
                i = i + 1;
            }
            proof {
                let cc = rest.take(cl as int);
                assert(chunk@ =~= cc);
                assert(rest.skip(cl as int) =~= c0.skip(done + cl));
                let mseq = Seq::new(cl as nat, |k: int| cc[k] ^ words_le_bytes(s1, 8)[k]);
                assert(aead_decrypt_blocks(*v, st0, rest).0 == aead_decrypt_blocks(*v, state@, c0.skip(done + cl)).0);
                assert(aead_decrypt_blocks(*v, st0, rest).1 == mseq + aead_decrypt_blocks(*v, state@, c0.skip(done + cl)).1);
                assert(buffer@.take(done + cl) =~= bpre.take(done as int) + mseq);
                assert(buffer@.take(done + cl) + aead_decrypt_blocks(*v, state@, c0.skip(done + cl)).1
                    =~= bpre.take(done as int) + aead_decrypt_blocks(*v, st0, rest).1);
            }
            done = done + cl;
        }
        proof {
            assert(c0.skip(len as int) =~= Seq::<u8>::empty());
            assert(aead_decrypt_blocks(*v, state@, Seq::<u8>::empty()).1 =~= Seq::<u8>::empty());
            assert(buffer@.take(len as int) =~= buffer@);
            assert(buffer@ == aead_decrypt_blocks(*v, sp, c0).1);
        }
        let ghost sf = state@;
        permutation(&mut state, v.kind, v.rounds);
        let cand = write_words(&state, 2);
        proof {
            lemma_words_le_bytes_len(state@, 2);
            assert(cand@ == aead_tag(*v, sf));
        }
        if ct_compare(cand.as_slice(), tag) {
            Ok(())
        } else {
            wipe_bytes(buffer);
            Err(Error::AuthenticationFailure)
        }
    }

    /// Erases the keyed initial state through volatile writes.
    pub fn erase(&mut self)
        requires
            old(self).wf(),
        ensures
            final(self).wf(),
            final(self).variant_view() == old(self).variant_view(),
            final(self).init_view() == Seq::new(16, |i: int| 0u64),
    {
        wipe_words(&mut self.initial_state);
        proof {
            assert(self.initial_state@ =~= Seq::new(16, |i: int| 0u64));
        }
    }
}

} // verus!
