//! The three signature-verification primitives, taken from ring.
//!
//! Each primitive's outcome is a pure function of the public-key,
//! message and signature bytes; those functions are given names here,
//! and the dispatcher's contract is stated over the names.  Malformed
//! keys or signatures make a primitive answer `false`, never panic.

use vstd::prelude::*;

verus! {

/// Whether `signature` is a valid ECDSA P-256 signature (SHA-256
/// digest, ASN.1 DER encoded) of `message` under `public_key`.
pub uninterp spec fn ecdsa_p256_sha256_asn1_verifies(
    public_key: Seq<u8>,
    message: Seq<u8>,
    signature: Seq<u8>,
) -> bool;

/// Whether `signature` is a valid Ed25519 signature (pure EdDSA, no
/// pre-hash) of `message` under `public_key`.
pub uninterp spec fn ed25519_verifies(
    public_key: Seq<u8>,
    message: Seq<u8>,
    signature: Seq<u8>,
) -> bool;

/// Whether `signature` is a valid RSASSA-PSS SHA-256 signature of
/// `message` under `public_key`, for a modulus of 2048 to 8192 bits.
pub uninterp spec fn rsa_pss_sha256_verifies(
    public_key: Seq<u8>,
    message: Seq<u8>,
    signature: Seq<u8>,
) -> bool;

/// Relies on `ring::signature::UnparsedPublicKey::verify` with the
/// `ECDSA_P256_SHA256_ASN1` algorithm: the outcome depends on the three
/// byte buffers alone, and the call returns a `Result` (`Err` for any
/// malformed key or signature) rather than panicking.
#[verifier::external_body]
pub(crate) fn verify_ecdsa_p256_sha256_asn1(
    public_key: &[u8],
    message: &[u8],
    signature: &[u8],
) -> (r: bool)
    ensures
        r == ecdsa_p256_sha256_asn1_verifies(public_key@, message@, signature@),
{
    ring::signature::UnparsedPublicKey::new(&ring::signature::ECDSA_P256_SHA256_ASN1, public_key)
        .verify(message, signature)
        .is_ok()
}

/// Relies on `ring::signature::UnparsedPublicKey::verify` with the
/// `ED25519` algorithm: the outcome depends on the three byte buffers
/// alone, and the call returns a `Result` (`Err` for any malformed key
/// or signature) rather than panicking.
#[verifier::external_body]
pub(crate) fn verify_ed25519(public_key: &[u8], message: &[u8], signature: &[u8]) -> (r: bool)
    ensures
        r == ed25519_verifies(public_key@, message@, signature@),
{
    ring::signature::UnparsedPublicKey::new(&ring::signature::ED25519, public_key)
        .verify(message, signature)
        .is_ok()
}

/// Relies on `ring::signature::UnparsedPublicKey::verify` with the
/// `RSA_PSS_2048_8192_SHA256` algorithm: the outcome depends on the
/// three byte buffers alone, and the call returns a `Result` (`Err`
/// for any malformed key or signature) rather than panicking.
#[verifier::external_body]
pub(crate) fn verify_rsa_pss_sha256(public_key: &[u8], message: &[u8], signature: &[u8]) -> (r:
    bool)
    ensures
        r == rsa_pss_sha256_verifies(public_key@, message@, signature@),
{
    ring::signature::UnparsedPublicKey::new(
        &ring::signature::RSA_PSS_2048_8192_SHA256,
        public_key,
    ).verify(message, signature).is_ok()
}

} // verus!
