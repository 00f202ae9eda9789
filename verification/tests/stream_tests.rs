//! Stream-cipher tests: round trips, seek consistency, and agreement of
//! the two permutation back-ends.

use ysc2::error::Error;
use ysc2::stream::{AuxCryptCore, Ysc2StreamCipher, Ysc2StreamCore};
use ysc2::variant::{AuxCrypt1024, AuxCrypt512, Ysc2_1024, Ysc2_512};

const AUX_PLAINTEXT: &[u8] = b"Test message for the AuxCrypt auxiliary stream cipher.";
const YSC2_PLAINTEXT: &[u8] = b"This is a reasonably long test message for the YSC2 cipher suite.";
const CORE_PLAINTEXT: &[u8] = b"This is a test message for the YSC2 stream cipher implementation.";

#[test]
fn auxcrypt_512_stream_roundtrip() {
    let key = [0x11u8; 64];
    let nonce = [0x22u8; 64];
    let v = AuxCrypt512::variant();
    let mut buffer = AUX_PLAINTEXT.to_vec();

    let mut cipher = Ysc2StreamCipher::new(&v, &key, &nonce).unwrap();
    cipher.apply_keystream(&mut buffer);
    assert_ne!(buffer, AUX_PLAINTEXT, "Ciphertext should not match plaintext");

    let mut cipher = Ysc2StreamCipher::new(&v, &key, &nonce).unwrap();
    cipher.apply_keystream(&mut buffer);
    assert_eq!(buffer, AUX_PLAINTEXT, "Decrypted text should match original");
}

#[test]
fn auxcrypt_1024_stream_seek_consistency() {
    let key = [0x33u8; 128];
    let nonce = [0x44u8; 64];
    let v = AuxCrypt1024::variant();
    let mut buffer1 = vec![0u8; 256];

    let mut cipher1 = Ysc2StreamCipher::new(&v, &key, &nonce).unwrap();
    cipher1.apply_keystream(&mut buffer1);

    let mut cipher2 = Ysc2StreamCipher::new(&v, &key, &nonce).unwrap();
    cipher2.seek(128);
    let mut tail = vec![0u8; 128];
    cipher2.apply_keystream(&mut tail);

    assert_eq!(buffer1[128..], tail[..], "Keystream from sought position should match");
}

#[test]
fn auxcrypt_simd_vs_soft_consistency() {
    let key = [0xABu8; 64];
    let nonce = [0xCDu8; 64];
    let v = AuxCrypt512::variant();

    let mut soft_cipher = Ysc2StreamCipher::new(&v, &key, &nonce).unwrap();
    let mut soft_keystream = vec![0u8; 512];
    soft_cipher.apply_keystream(&mut soft_keystream);

    let mut simd_core = AuxCryptCore::new(&v, &key, &nonce).unwrap();
    let mut simd_keystream: Vec<u8> = Vec::new();
    for _ in 0..4 {
        let mut block = simd_core.gen_ks_block_simd();
        simd_keystream.append(&mut block);
    }

    assert_eq!(
        soft_keystream, simd_keystream,
        "SIMD and Soft backends must produce identical keystreams"
    );
}

#[test]
fn ysc2_512_encrypt_decrypt() {
    let key = [0x01u8; 64];
    let nonce = [0x02u8; 64];
    let v = Ysc2_512::variant();
    let mut buffer = CORE_PLAINTEXT.to_vec();

    let mut cipher = Ysc2StreamCipher::new(&v, &key, &nonce).unwrap();
    cipher.apply_keystream(&mut buffer);
    assert_ne!(buffer, CORE_PLAINTEXT, "Ciphertext should not be the same as plaintext");

    let mut cipher = Ysc2StreamCipher::new(&v, &key, &nonce).unwrap();
    cipher.apply_keystream(&mut buffer);
    assert_eq!(buffer, CORE_PLAINTEXT, "Decrypted text should match the original plaintext");
}

#[test]
fn ysc2_1024_seek_and_consistency() {
    let key = [0x03u8; 128];
    let nonce = [0x04u8; 64];
    let v = Ysc2_1024::variant();
    let mut buffer1 = vec![0u8; 128];

    let mut cipher1 = Ysc2StreamCipher::new(&v, &key, &nonce).unwrap();
    cipher1.apply_keystream(&mut buffer1);

    let mut cipher2 = Ysc2StreamCipher::new(&v, &key, &nonce).unwrap();
    cipher2.seek(64);
    let mut tail = vec![0u8; 64];
    cipher2.apply_keystream(&mut tail);

    assert_eq!(buffer1[64..], tail[..], "Keystream from sought position should match");
}

#[test]
fn ysc2_simd_vs_soft_consistency() {
    let key = [0xABu8; 64];
    let nonce = [0xCDu8; 64];
    let v = Ysc2_512::variant();

    let mut soft_cipher = Ysc2StreamCipher::new(&v, &key, &nonce).unwrap();
    let mut soft_keystream = vec![0u8; 256];
    soft_cipher.apply_keystream(&mut soft_keystream);

    let mut simd_core = Ysc2StreamCore::new(&v, &key, &nonce).unwrap();
    let mut simd_keystream: Vec<u8> = Vec::new();
    for _ in 0..2 {
        let mut block = simd_core.gen_ks_block_simd();
        simd_keystream.append(&mut block);
    }

    assert_eq!(
        soft_keystream, simd_keystream,
        "SIMD and Soft backends must produce identical keystreams"
    );
}

#[test]
fn ysc2_512_stream_roundtrip() {
    let key = [0x01u8; 64];
    let nonce = [0x02u8; 64];
    let v = Ysc2_512::variant();
    let mut buffer = YSC2_PLAINTEXT.to_vec();

    let mut cipher = Ysc2StreamCipher::new(&v, &key, &nonce).unwrap();
    cipher.apply_keystream(&mut buffer);
    assert_ne!(buffer, YSC2_PLAINTEXT, "Ciphertext should not match plaintext");

    let mut cipher = Ysc2StreamCipher::new(&v, &key, &nonce).unwrap();
    cipher.apply_keystream(&mut buffer);
    assert_eq!(buffer, YSC2_PLAINTEXT, "Decrypted text should match original");
}

#[test]
fn ysc2_1024_stream_seek_consistency() {
    let key = [0x03u8; 128];
    let nonce = [0x04u8; 64];
    let v = Ysc2_1024::variant();
    let mut buffer1 = vec![0u8; 128];

    let mut cipher1 = Ysc2StreamCipher::new(&v, &key, &nonce).unwrap();
    cipher1.apply_keystream(&mut buffer1);

    let mut cipher2 = Ysc2StreamCipher::new(&v, &key, &nonce).unwrap();
    cipher2.seek(64);
    let mut tail = vec![0u8; 64];
    cipher2.apply_keystream(&mut tail);

    assert_eq!(buffer1[64..], tail[..], "Keystream from sought position should match");
}

#[test]
fn stream_rejects_bad_key_length() {
    let v = Ysc2_512::variant();
    let key = [0u8; 32];
    let nonce = [0u8; 64];
    let r = Ysc2StreamCipher::new(&v, &key, &nonce);
    assert!(matches!(r, Err(Error::InvalidKeyLength)));
}

#[test]
fn stream_rejects_bad_nonce_length() {
    let v = Ysc2_512::variant();
    let key = [0u8; 64];
    let nonce = [0u8; 32];
    let r = Ysc2StreamCipher::new(&v, &key, &nonce);
    assert!(matches!(r, Err(Error::InvalidNonceLength)));
}

#[test]
fn stream_block_position_reports_seek() {
    let v = Ysc2_512::variant();
    let key = [0x07u8; 64];
    let nonce = [0x08u8; 64];
    let mut cipher = Ysc2StreamCipher::new(&v, &key, &nonce).unwrap();
    assert_eq!(cipher.position(), 0);
    cipher.seek(300);
    assert_eq!(cipher.position(), 300);
    let mut buf = vec![0u8; 29];
    cipher.apply_keystream(&mut buf);
    assert_eq!(cipher.position(), 329);
}

#[test]
fn stream_keystream_is_deterministic() {
    let v = Ysc2_1024::variant();
    let key = [0x55u8; 128];
    let nonce = [0x66u8; 64];
    let mut c1 = Ysc2StreamCore::new(&v, &key, &nonce).unwrap();
    let mut c2 = Ysc2StreamCore::new(&v, &key, &nonce).unwrap();
    assert_eq!(c1.gen_ks_block(), c2.gen_ks_block());
    assert_eq!(c1.gen_ks_block(), c2.gen_ks_block());
}

#[test]
fn stream_erase_wipes_key_material() {
    let v = Ysc2_512::variant();
    let nonce = [0x10u8; 64];
    let mut a = Ysc2StreamCore::new(&v, &[0x41u8; 64], &nonce).unwrap();
    let mut b = Ysc2StreamCore::new(&v, &[0x42u8; 64], &nonce).unwrap();
    assert_ne!(a.gen_ks_block(), b.gen_ks_block());
    a.erase();
    b.erase();
    assert_eq!(
        a.gen_ks_block(),
        b.gen_ks_block(),
        "after erasure no key-dependent state may remain"
    );
}

#[test]
fn stream_core_block_seek_matches_sequential() {
    let v = AuxCrypt1024::variant();
    let key = [0x77u8; 128];
    let nonce = [0x78u8; 64];
    let mut seq_core = AuxCryptCore::new(&v, &key, &nonce).unwrap();
    let _ = seq_core.gen_ks_block();
    let _ = seq_core.gen_ks_block();
    let third = seq_core.gen_ks_block();
    assert_eq!(seq_core.get_block_pos(), 3);

    let mut sought = AuxCryptCore::new(&v, &key, &nonce).unwrap();
    sought.set_block_pos(2);
    assert_eq!(sought.gen_ks_block(), third);
    assert!(sought.remaining_blocks().is_none());
}
