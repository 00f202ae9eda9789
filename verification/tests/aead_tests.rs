//! Authenticated-encryption tests: round trips, tamper detection, and
//! buffer zeroing on failure.

use rand_core::{RngCore, SeedableRng};
use rand_chacha::ChaCha8Rng;
use ysc2::aead::Ysc2Aead;
use ysc2::error::Error;
use ysc2::variant::{Ysc2_1024, Ysc2_512};

const PLAINTEXT: &[u8] = b"This is a reasonably long test message for the YSC2 cipher suite.";
const ASSOCIATED_DATA: &[u8] = b"Metadata that needs to be authenticated but not encrypted.";

#[test]
fn ysc2_512_aead_roundtrip() {
    let mut rng = ChaCha8Rng::from_seed([42; 32]);
    let mut key = [0u8; 64];
    rng.fill_bytes(&mut key);
    let v = Ysc2_512::variant();
    let cipher = Ysc2Aead::new(&v, &key).unwrap();
    let nonce = [0x42u8; 64];

    let mut buffer = PLAINTEXT.to_vec();
    let tag = cipher
        .encrypt_in_place_detached(&nonce, ASSOCIATED_DATA, &mut buffer)
        .expect("AEAD encryption failed");

    assert_ne!(buffer, PLAINTEXT, "AEAD ciphertext should not match plaintext");

    let cipher = Ysc2Aead::new(&v, &key).unwrap();
    cipher
        .decrypt_in_place_detached(&nonce, ASSOCIATED_DATA, &mut buffer, &tag)
        .expect("AEAD decryption should succeed with correct tag");

    assert_eq!(buffer, PLAINTEXT, "AEAD decrypted text should match original");
}

#[test]
fn ysc2_1024_aead_authentication_failure() {
    let mut rng = ChaCha8Rng::from_seed([24; 32]);
    let mut key = [0u8; 128];
    rng.fill_bytes(&mut key);
    let v = Ysc2_1024::variant();
    let cipher = Ysc2Aead::new(&v, &key).unwrap();
    let nonce = [0x24u8; 64];

    let mut buffer = PLAINTEXT.to_vec();
    let tag = cipher
        .encrypt_in_place_detached(&nonce, ASSOCIATED_DATA, &mut buffer)
        .expect("AEAD encryption failed");

    let mut tampered_buffer = buffer.clone();
    tampered_buffer[0] ^= 0xFF;
    let err = cipher
        .decrypt_in_place_detached(&nonce, ASSOCIATED_DATA, &mut tampered_buffer, &tag)
        .expect_err("Decryption should fail for tampered ciphertext");
    assert_eq!(err, Error::AuthenticationFailure, "Error should be authentication error");

    let tampered_ad = b"tampered metadata";
    let mut buffer2 = buffer.clone();
    let err = cipher
        .decrypt_in_place_detached(&nonce, tampered_ad, &mut buffer2, &tag)
        .expect_err("Decryption should fail for tampered AD");
    assert_eq!(err, Error::AuthenticationFailure, "Error should be authentication error");

    let mut invalid_tag = tag.clone();
    invalid_tag[0] ^= 0xFF;
    let mut buffer3 = buffer.clone();
    let err = cipher
        .decrypt_in_place_detached(&nonce, ASSOCIATED_DATA, &mut buffer3, &invalid_tag)
        .expect_err("Decryption should fail for invalid tag");
    assert_eq!(err, Error::AuthenticationFailure, "Error should be authentication error");
}

#[test]
fn aead_tamper_zeroes_buffer_and_nonce_matters() {
    let v = Ysc2_512::variant();
    let key = [0x9Cu8; 64];
    let cipher = Ysc2Aead::new(&v, &key).unwrap();
    let nonce = [0x42u8; 64];
    let ad = b"metadata";

    let mut buffer = b"Hello, AEAD.".to_vec();
    let tag = cipher.encrypt_in_place_detached(&nonce, ad, &mut buffer).unwrap();
    assert_eq!(tag.len(), 16);

    let mut wrong_nonce = nonce;
    wrong_nonce[0] ^= 0x01;
    let mut attempt = buffer.clone();
    let err = cipher
        .decrypt_in_place_detached(&wrong_nonce, ad, &mut attempt, &tag)
        .expect_err("a changed nonce must fail authentication");
    assert_eq!(err, Error::AuthenticationFailure);
    assert_eq!(attempt, vec![0u8; buffer.len()], "no plaintext may survive a failed decryption");
}

#[test]
fn aead_empty_and_block_aligned_messages() {
    let v = Ysc2_512::variant();
    let key = [0x31u8; 64];
    let cipher = Ysc2Aead::new(&v, &key).unwrap();
    let nonce = [0x07u8; 64];

    let mut empty: Vec<u8> = Vec::new();
    let tag = cipher.encrypt_in_place_detached(&nonce, b"", &mut empty).unwrap();
    assert!(empty.is_empty());
    cipher
        .decrypt_in_place_detached(&nonce, b"", &mut empty, &tag)
        .expect("an empty message round-trips");

    let mut aligned = vec![0xEEu8; 128];
    let tag = cipher.encrypt_in_place_detached(&nonce, b"", &mut aligned).unwrap();
    cipher
        .decrypt_in_place_detached(&nonce, b"", &mut aligned, &tag)
        .expect("a rate-aligned message round-trips");
    assert_eq!(aligned, vec![0xEEu8; 128]);
}

#[test]
fn aead_rejects_bad_key_and_nonce_lengths() {
    let v = Ysc2_512::variant();
    let r = Ysc2Aead::new(&v, &[0u8; 100]);
    assert!(matches!(r, Err(Error::InvalidKeyLength)));

    let cipher = Ysc2Aead::new(&v, &[0u8; 64]).unwrap();
    let mut buffer = b"data".to_vec();
    let r = cipher.encrypt_in_place_detached(&[0u8; 12], b"", &mut buffer);
    assert!(matches!(r, Err(Error::InvalidNonceLength)));
    assert_eq!(buffer, b"data".to_vec());
    let r = cipher.decrypt_in_place_detached(&[0u8; 12], b"", &mut buffer, &[0u8; 16]);
    assert!(matches!(r, Err(Error::InvalidNonceLength)));
}
