//! Sponge tests: hash and extendable output, keyed authentication, and
//! the word maps of the permutation.

use ysc2::error::Error;
use ysc2::permutation::{f, g, permutation, permutation_simd, PermutationKind};
use ysc2::sponge::{FixedOutputCoreWrapper, Ysc2xCore};
use ysc2::variant::{Ysc2_1024, Ysc2_512};

#[test]
fn ysc2_512_hash_and_xof() {
    let v = Ysc2_512::variant();
    let mut hasher = Ysc2xCore::new(&v);
    hasher.update(b"hello");
    let mut reader = hasher.finalize_xof();

    let out1 = reader.read(32);
    let out2 = reader.read(32);
    assert_ne!(out1, out2, "XOF should produce different outputs on subsequent reads");

    let mut fixed_hasher = Ysc2xCore::new(&v);
    fixed_hasher.update(b"hello");
    let fixed_out = fixed_hasher.finalize_fixed();

    assert_eq!(&out1[..], &fixed_out[..32], "Fixed hash should match the first part of XOF output");
}

#[test]
fn ysc2_1024_mac_verification() {
    let v = Ysc2_1024::variant();
    let key = [0xAAu8; 128];
    let mut mac = Ysc2xCore::new_keyed(&v, &key).expect("MAC key init failed");
    mac.update(b"message to authenticate");
    let code_bytes = mac.finalize_fixed();

    let mut mac = Ysc2xCore::new_keyed(&v, &key).expect("MAC key init failed");
    mac.update(b"message to authenticate");
    assert!(
        mac.verify(&code_bytes),
        "MAC verification should succeed with correct key and message"
    );

    let wrong_key = [0xBBu8; 128];
    let mut mac = Ysc2xCore::new_keyed(&v, &wrong_key).expect("MAC key init failed");
    mac.update(b"message to authenticate");
    assert!(!mac.verify(&code_bytes), "MAC verification should fail with incorrect key");

    let mut mac = Ysc2xCore::new_keyed(&v, &key).expect("MAC key init failed");
    mac.update(b"different message");
    assert!(!mac.verify(&code_bytes), "MAC verification should fail with incorrect message");
}

#[test]
fn hash_is_deterministic_and_prefix_sensitive() {
    let v = Ysc2_512::variant();
    let mut h1 = Ysc2xCore::new(&v);
    h1.update(b"hello");
    let mut h2 = Ysc2xCore::new(&v);
    h2.update(b"hel");
    h2.update(b"lo");
    assert_eq!(
        h1.finalize_fixed(),
        h2.finalize_fixed(),
        "the digest depends only on the absorbed bytes"
    );

    let mut h3 = Ysc2xCore::new(&v);
    h3.update(b"hellp");
    let mut h4 = Ysc2xCore::new(&v);
    h4.update(b"hello");
    assert_ne!(h3.finalize_fixed(), h4.finalize_fixed());
}

#[test]
fn hash_block_boundary_inputs() {
    let v = Ysc2_512::variant();
    let empty = Ysc2xCore::new(&v).finalize_fixed();
    assert_eq!(empty.len(), 64);

    let mut one_block = Ysc2xCore::new(&v);
    one_block.update(&[0x5Au8; 64]);
    let d64 = one_block.finalize_fixed();

    let mut long = Ysc2xCore::new(&v);
    long.update(&[0x5Au8; 128]);
    let d128 = long.finalize_fixed();

    assert_ne!(empty, d64);
    assert_ne!(d64, d128);
}

#[test]
fn xof_long_read_matches_block_reads() {
    let v = Ysc2_1024::variant();
    let mut h = Ysc2xCore::new(&v);
    h.update(b"squeeze me");
    let mut r1 = h.finalize_xof();
    let mut r2 = h.finalize_xof();
    let long = r1.read(150);
    let mut parts = r2.read(1);
    parts.extend(r2.read(63));
    parts.extend(r2.read(86));
    assert_eq!(long, parts, "reads of any granularity give the same byte stream");
}

#[test]
fn fixed_output_wrapper_matches_core() {
    let v = Ysc2_512::variant();
    let mut w = FixedOutputCoreWrapper::new(&v);
    w.update(b"wrapped");
    let mut c = Ysc2xCore::new(&v);
    c.update(b"wrapped");
    assert_eq!(w.finalize_fixed(), c.finalize_fixed());
}

#[test]
fn keyed_sponge_rejects_bad_key_length() {
    let v = Ysc2_1024::variant();
    let r = Ysc2xCore::new_keyed(&v, &[0u8; 64]);
    assert!(matches!(r, Err(Error::InvalidKeyLength)));
    let r = FixedOutputCoreWrapper::new_keyed(&v, &[0u8; 16]);
    assert!(matches!(r, Err(Error::InvalidKeyLength)));
}

#[test]
fn word_maps_have_fixed_values() {
    assert_eq!(g(0), 0);
    assert_eq!(g(1), 1);
    assert_eq!(f(0), u64::MAX);
    assert_eq!(f(u64::MAX), 0);
}

#[test]
fn permutation_backends_agree_on_raw_states() {
    let mut s1: Vec<u64> = (0..16u64).collect();
    let mut s2 = s1.clone();
    permutation(&mut s1, PermutationKind::Coupled, 12);
    permutation_simd(&mut s2, PermutationKind::Coupled, 12);
    assert_eq!(s1, s2);

    let mut s3: Vec<u64> = (100..116u64).collect();
    let mut s4 = s3.clone();
    permutation(&mut s3, PermutationKind::LaiMassey, 20);
    permutation_simd(&mut s4, PermutationKind::LaiMassey, 20);
    assert_eq!(s3, s4);
}

#[test]
fn permutation_keeps_distinct_states_distinct() {
    let mut s1 = vec![0u64; 16];
    let mut s2 = vec![0u64; 16];
    s2[7] = 1;
    permutation(&mut s1, PermutationKind::Coupled, 12);
    permutation(&mut s2, PermutationKind::Coupled, 12);
    assert_ne!(s1, s2, "the permutation is a bijection");

    let mut s3 = vec![3u64; 16];
    let mut s4 = vec![3u64; 16];
    s4[15] = 4;
    permutation(&mut s3, PermutationKind::LaiMassey, 14);
    permutation(&mut s4, PermutationKind::LaiMassey, 14);
    assert_ne!(s3, s4);
}

#[test]
fn sponge_erase_wipes_key_material() {
    let v = Ysc2_512::variant();
    let mut a = Ysc2xCore::new_keyed(&v, &[0x21u8; 64]).unwrap();
    let mut b = Ysc2xCore::new_keyed(&v, &[0x22u8; 64]).unwrap();
    assert_ne!(a.finalize_fixed(), b.finalize_fixed());
    a.erase();
    b.erase();
    assert_eq!(a.finalize_fixed(), b.finalize_fixed());
}
