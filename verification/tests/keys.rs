//! Tests for key construction and the verification dispatcher, run
//! against the real cryptographic primitives.

use ring::rand::SystemRandom;
use ring::signature::EcdsaKeyPair;
use ring::signature::Ed25519KeyPair;
use ring::signature::KeyPair;
use ring::signature::ECDSA_P256_SHA256_ASN1_SIGNING;
use tough_keys::error::EncodingError;
use tough_keys::error::FormatError;
use tough_keys::hex;
use tough_keys::key::Key;
use tough_keys::pem;

fn text(v: Vec<u8>) -> String {
    String::from_utf8(v).unwrap()
}

/// A fresh Ed25519 keypair and the `Key` built from the hexadecimal
/// rendering of its public half.
fn ed25519_fixture() -> (Key, Ed25519KeyPair) {
    let rng = SystemRandom::new();
    let pkcs8 = Ed25519KeyPair::generate_pkcs8(&rng).unwrap();
    let keypair = Ed25519KeyPair::from_pkcs8(pkcs8.as_ref()).unwrap();
    let public_hex = text(hex::encode(keypair.public_key().as_ref()));
    assert_eq!(public_hex.len(), 64);
    let key = Key::from_record("ed25519", "ed25519", &public_hex).unwrap();
    (key, keypair)
}

/// A fresh ECDSA P-256 keypair and the `Key` built from the PEM
/// rendering of its public half (the uncompressed curve point).
fn ecdsa_fixture() -> (Key, EcdsaKeyPair) {
    let rng = SystemRandom::new();
    let pkcs8 = EcdsaKeyPair::generate_pkcs8(&ECDSA_P256_SHA256_ASN1_SIGNING, &rng).unwrap();
    let keypair =
        EcdsaKeyPair::from_pkcs8(&ECDSA_P256_SHA256_ASN1_SIGNING, pkcs8.as_ref(), &rng).unwrap();
    let public_pem = text(pem::encode(keypair.public_key().as_ref()));
    let key = Key::from_record("ecdsa", "ecdsa-sha2-nistp256", &public_pem).unwrap();
    (key, keypair)
}

#[test]
fn ed25519_genuine_signature_is_accepted() {
    let (key, keypair) = ed25519_fixture();
    let msg = b"hello";
    let signature = keypair.sign(msg);
    assert!(key.verify(msg, signature.as_ref()));
}

#[test]
fn ed25519_incremented_signature_is_rejected() {
    let (key, keypair) = ed25519_fixture();
    let msg = b"hello";
    let mut signature = keypair.sign(msg).as_ref().to_vec();
    let last = signature.len() - 1;
    signature[last] = signature[last].wrapping_add(1);
    assert!(!key.verify(msg, &signature));
}

#[test]
fn ed25519_any_flipped_signature_bit_is_rejected() {
    let (key, keypair) = ed25519_fixture();
    let msg = b"hello";
    let signature = keypair.sign(msg).as_ref().to_vec();
    for byte in 0..signature.len() {
        for bit in 0..8 {
            let mut tampered = signature.clone();
            tampered[byte] ^= 1u8 << bit;
            assert!(!key.verify(msg, &tampered));
        }
    }
}

#[test]
fn ed25519_any_flipped_message_bit_is_rejected() {
    let (key, keypair) = ed25519_fixture();
    let msg = b"hello";
    let signature = keypair.sign(msg);
    for byte in 0..msg.len() {
        for bit in 0..8 {
            let mut tampered = msg.to_vec();
            tampered[byte] ^= 1u8 << bit;
            assert!(!key.verify(&tampered, signature.as_ref()));
        }
    }
}

#[test]
fn ecdsa_genuine_signature_is_accepted() {
    let rng = SystemRandom::new();
    let (key, keypair) = ecdsa_fixture();
    let msg = b"hello";
    let signature = keypair.sign(&rng, msg).unwrap();
    assert!(key.verify(msg, signature.as_ref()));
    let mut tampered = signature.as_ref().to_vec();
    tampered[10] ^= 0x40;
    assert!(!key.verify(msg, &tampered));
}

#[test]
fn rsa_key_rejects_ecdsa_signature() {
    // an RSA key whose bytes are really an ECDSA public point, asked to
    // verify a signature made with the ECDSA key: uniformly false
    let rng = SystemRandom::new();
    let (_, keypair) = ecdsa_fixture();
    let public_pem = text(pem::encode(keypair.public_key().as_ref()));
    let rsa_key = Key::from_record("rsa", "rsassa-pss-sha256", &public_pem).unwrap();
    let msg = b"hello";
    let signature = keypair.sign(&rng, msg).unwrap();
    assert!(!rsa_key.verify(msg, signature.as_ref()));
}

#[test]
fn ed25519_key_rejects_ecdsa_signature() {
    let rng = SystemRandom::new();
    let (ed_key, _) = ed25519_fixture();
    let (_, ecdsa_keypair) = ecdsa_fixture();
    let msg = b"hello";
    let signature = ecdsa_keypair.sign(&rng, msg).unwrap();
    assert!(!ed_key.verify(msg, signature.as_ref()));
}

#[test]
fn verify_never_panics_on_garbage() {
    // a structurally valid key whose bytes fit no real public key
    let key = Key::from_record("ed25519", "ed25519", "0011").unwrap();
    assert!(!key.verify(b"", b""));
    assert!(!key.verify(b"message", &[0u8; 5000]));
    assert!(!key.verify(&[0xffu8; 4096], &[0xffu8; 64]));

    let garbage_pem = text(pem::encode(&[0x30, 0x01, 0x02, 0x03]));
    let rsa_key = Key::from_record("rsa", "rsassa-pss-sha256", &garbage_pem).unwrap();
    assert!(!rsa_key.verify(b"", b""));
    assert!(!rsa_key.verify(b"msg", &[7u8; 256]));

    let ecdsa_key = Key::from_record("ecdsa", "ecdsa-sha2-nistp256", &garbage_pem).unwrap();
    assert!(!ecdsa_key.verify(b"msg", &[9u8; 72]));
}

#[test]
fn verify_is_deterministic() {
    let (key, keypair) = ed25519_fixture();
    let msg = b"same input, same answer";
    let signature = keypair.sign(msg);
    let first = key.verify(msg, signature.as_ref());
    let second = key.verify(msg, signature.as_ref());
    assert_eq!(first, second);
    assert!(first);
}

#[test]
fn every_variant_resolves_to_a_handler() {
    // each (keytype, scheme) pair of the closed set constructs and
    // dispatches without a fallback branch being possible at all
    let pem_text = text(pem::encode(&[1, 2, 3]));
    let combos = [
        ("ecdsa", "ecdsa-sha2-nistp256", pem_text.clone()),
        ("ed25519", "ed25519", "00ff".to_string()),
        ("rsa", "rsassa-pss-sha256", pem_text),
    ];
    for (keytype, scheme, public) in combos.iter() {
        let key = Key::from_record(keytype, scheme, public).unwrap();
        assert!(!key.verify(b"m", b"s"));
    }
}

#[test]
fn unknown_keytype_is_rejected() {
    assert_eq!(
        Key::from_record("dsa", "ed25519", "00"),
        Err(FormatError::UnknownKeyType)
    );
    assert_eq!(
        Key::from_record("", "", ""),
        Err(FormatError::UnknownKeyType)
    );
    assert_eq!(
        Key::from_record("Ed25519", "ed25519", "00"),
        Err(FormatError::UnknownKeyType)
    );
}

#[test]
fn mismatched_scheme_is_rejected() {
    assert_eq!(
        Key::from_record("ecdsa", "ed25519", "00"),
        Err(FormatError::SchemeMismatch)
    );
    assert_eq!(
        Key::from_record("ed25519", "rsassa-pss-sha256", "00"),
        Err(FormatError::SchemeMismatch)
    );
    assert_eq!(
        Key::from_record("rsa", "ecdsa-sha2-nistp256", "00"),
        Err(FormatError::SchemeMismatch)
    );
}

#[test]
fn bad_hex_public_key_is_rejected() {
    assert_eq!(
        Key::from_record("ed25519", "ed25519", "abc"),
        Err(FormatError::Encoding(EncodingError::OddLength))
    );
    assert_eq!(
        Key::from_record("ed25519", "ed25519", "wxyz"),
        Err(FormatError::Encoding(EncodingError::BadHexDigit))
    );
}

#[test]
fn truncated_pem_public_key_is_rejected() {
    // the terminating END line is missing: construction fails before
    // verification can ever be reached
    let t = "-----BEGIN PUBLIC KEY-----\naGVsbG8=\n";
    assert_eq!(
        Key::from_record("rsa", "rsassa-pss-sha256", t),
        Err(FormatError::Encoding(EncodingError::BadArmor))
    );
    assert_eq!(
        Key::from_record("ecdsa", "ecdsa-sha2-nistp256", t),
        Err(FormatError::Encoding(EncodingError::BadArmor))
    );
}

#[test]
fn pem_public_key_with_bad_base64_is_rejected() {
    let t = "-----BEGIN PUBLIC KEY-----\n!!!!\n-----END PUBLIC KEY-----\n";
    assert_eq!(
        Key::from_record("rsa", "rsassa-pss-sha256", t),
        Err(FormatError::Encoding(EncodingError::BadBase64))
    );
}

#[test]
fn keys_compare_structurally() {
    let a = Key::from_record("ed25519", "ed25519", "00ff").unwrap();
    let b = Key::from_record("ed25519", "ed25519", "00ff").unwrap();
    let c = Key::from_record("ed25519", "ed25519", "00fe").unwrap();
    assert_eq!(a, b);
    assert_ne!(a, c);
    assert_eq!(a.clone(), b);
}
