//! The key model: a closed union of three signature algorithms, each
//! structurally paired with its scheme and its decoded public key.
//!
//! A `Key` is built from the wire record's three fields (key type,
//! scheme, encoded public key); construction decodes the key text and
//! fails loudly on malformed input.  Verification maps every key to
//! exactly one primitive and folds every failure into `false`.

use vstd::prelude::*;

verus! {

use vstd::string::StringSliceAdditionalSpecFns;

use crate::base64;
use crate::error::EncodingError;
use crate::error::FormatError;
use crate::hex;
use crate::pem;
use crate::sig;

/// The one scheme an ECDSA key can carry.
#[derive(Debug, Clone, PartialEq, Eq, Structural, Hash)]
pub enum EcdsaScheme {
    /// ECDSA over the NIST P-256 curve with a SHA-256 digest and an
    /// ASN.1 DER encoded signature.
    EcdsaSha2Nistp256,
}

/// The public half of an ECDSA keypair, decoded from PEM text.
#[derive(Debug, Clone, Eq, Hash)]
pub struct EcdsaKey {
    public: Vec<u8>,
}

/// The one scheme an Ed25519 key can carry.
#[derive(Debug, Clone, PartialEq, Eq, Structural, Hash)]
pub enum Ed25519Scheme {
    /// Pure EdDSA over Curve25519, without pre-hashing.
    Ed25519,
}

/// The public half of an Ed25519 keypair, decoded from hexadecimal text.
#[derive(Debug, Clone, Eq, Hash)]
pub struct Ed25519Key {
    public: Vec<u8>,
}

/// The one scheme an RSA key can carry.
#[derive(Debug, Clone, PartialEq, Eq, Structural, Hash)]
pub enum RsaScheme {
    /// RSASSA-PSS with a SHA-256 digest.
    RsassaPssSha256,
}

/// The public half of an RSA keypair, decoded from PEM text.
#[derive(Debug, Clone, Eq, Hash)]
pub struct RsaKey {
    public: Vec<u8>,
}

/// An asymmetric public key, tagged with its algorithm and scheme.
/// The pairing of variant and scheme is enforced by the type itself:
/// no representable key mixes one variant with another's scheme.
#[derive(Debug, Clone, Eq, Hash)]
pub enum Key {
    /// An ECDSA public key.
    Ecdsa { scheme: EcdsaScheme, keyval: EcdsaKey },
    /// An Ed25519 public key.
    Ed25519 { scheme: Ed25519Scheme, keyval: Ed25519Key },
    /// An RSA public key.
    Rsa { scheme: RsaScheme, keyval: RsaKey },
}

/// The UTF-8 bytes of the `ecdsa` key type discriminator.
pub open spec fn keytype_ecdsa() -> Seq<u8> {
    "ecdsa".spec_bytes()
}

/// The UTF-8 bytes of the `ed25519` key type discriminator.
pub open spec fn keytype_ed25519() -> Seq<u8> {
    "ed25519".spec_bytes()
}

/// The UTF-8 bytes of the `rsa` key type discriminator.
pub open spec fn keytype_rsa() -> Seq<u8> {
    "rsa".spec_bytes()
}

/// The UTF-8 bytes of the `ecdsa-sha2-nistp256` scheme discriminator.
pub open spec fn scheme_ecdsa() -> Seq<u8> {
    "ecdsa-sha2-nistp256".spec_bytes()
}

/// The UTF-8 bytes of the `ed25519` scheme discriminator.
pub open spec fn scheme_ed25519() -> Seq<u8> {
    "ed25519".spec_bytes()
}

/// The UTF-8 bytes of the `rsassa-pss-sha256` scheme discriminator.
pub open spec fn scheme_rsa() -> Seq<u8> {
    "rsassa-pss-sha256".spec_bytes()
}

/// The three key type discriminators are pairwise distinct texts
/// (their byte lengths already differ).
proof fn lemma_keytypes_distinct()
    ensures
        keytype_ecdsa() != keytype_ed25519(),
        keytype_ecdsa() != keytype_rsa(),
        keytype_ed25519() != keytype_rsa(),
{
    reveal_strlit("ecdsa");
    reveal_strlit("ed25519");
    reveal_strlit("rsa");
    assert(vstd::utf8::is_ascii_chars("ecdsa"@));
    assert(vstd::utf8::is_ascii_chars("ed25519"@));
    assert(vstd::utf8::is_ascii_chars("rsa"@));
    vstd::utf8::is_ascii_chars_encode_utf8("ecdsa"@);
    vstd::utf8::is_ascii_chars_encode_utf8("ed25519"@);
    vstd::utf8::is_ascii_chars_encode_utf8("rsa"@);
    assert(keytype_ecdsa().len() == 5);
    assert(keytype_ed25519().len() == 7);
    assert(keytype_rsa().len() == 3);
}

/// Whether two pieces of text are made of the same UTF-8 bytes.
fn text_eq(a: &str, b: &str) -> (r: bool)
    ensures
        r == (a.spec_bytes() == b.spec_bytes()),
{
    let x = a.as_bytes();
    let y = b.as_bytes();
    if x.len() != y.len() {
        return false;
    }
    let mut i: usize = 0;
    while i < x.len()
        invariant
            x@ == a.spec_bytes(),
            y@ == b.spec_bytes(),
            x@.len() == y@.len(),
            i <= x@.len(),
            forall|j: int| 0 <= j < i ==> x@[j] == y@[j],
        decreases x@.len() - i,
    {
        if x[i] != y[i] {
            return false;
        }
        i = i + 1;
    }
    proof {
        assert(x@ =~= y@);
    }
    true
}

impl PartialEq for EcdsaKey {
    /// Structural equality: the decoded public key bytes are equal.
    fn eq(&self, other: &EcdsaKey) -> (r: bool) {
        let r = self.public == other.public;
        proof {
            if r {
                assert(self.public@ =~= other.public@);
            }
        }
        r
    }
}

impl vstd::std_specs::cmp::PartialEqSpecImpl for EcdsaKey {
    open spec fn obeys_eq_spec() -> bool {
        true
    }

    open spec fn eq_spec(&self, other: &EcdsaKey) -> bool {
        self.bytes() == other.bytes()
    }
}

impl PartialEq for Ed25519Key {
    /// Structural equality: the decoded public key bytes are equal.
    fn eq(&self, other: &Ed25519Key) -> (r: bool) {
        let r = self.public == other.public;
        proof {
            if r {
                assert(self.public@ =~= other.public@);
            }
        }
        r
    }
}

impl vstd::std_specs::cmp::PartialEqSpecImpl for Ed25519Key {
    open spec fn obeys_eq_spec() -> bool {
        true
    }

    open spec fn eq_spec(&self, other: &Ed25519Key) -> bool {
        self.bytes() == other.bytes()
    }
}

impl PartialEq for RsaKey {
    /// Structural equality: the decoded public key bytes are equal.
    fn eq(&self, other: &RsaKey) -> (r: bool) {
        let r = self.public == other.public;
        proof {
            if r {
                assert(self.public@ =~= other.public@);
            }
        }
        r
    }
}

impl vstd::std_specs::cmp::PartialEqSpecImpl for RsaKey {
    open spec fn obeys_eq_spec() -> bool {
        true
    }

    open spec fn eq_spec(&self, other: &RsaKey) -> bool {
        self.bytes() == other.bytes()
    }
}

impl PartialEq for Key {
    /// Structural equality: the same variant (and so the same scheme)
    /// holding equal decoded public key bytes.
    fn eq(&self, other: &Key) -> (r: bool) {
        match (self, other) {
            (
                Key::Ecdsa { scheme: EcdsaScheme::EcdsaSha2Nistp256, keyval: a },
                Key::Ecdsa { scheme: EcdsaScheme::EcdsaSha2Nistp256, keyval: b },
            ) => a == b,
            (
                Key::Ed25519 { scheme: Ed25519Scheme::Ed25519, keyval: a },
                Key::Ed25519 { scheme: Ed25519Scheme::Ed25519, keyval: b },
            ) => a == b,
            (
                Key::Rsa { scheme: RsaScheme::RsassaPssSha256, keyval: a },
                Key::Rsa { scheme: RsaScheme::RsassaPssSha256, keyval: b },
            ) => a == b,
            _ => false,
        }
    }
}

impl vstd::std_specs::cmp::PartialEqSpecImpl for Key {
    open spec fn obeys_eq_spec() -> bool {
        true
    }

    open spec fn eq_spec(&self, other: &Key) -> bool {
        match (self, other) {
            (
                Key::Ecdsa { scheme: EcdsaScheme::EcdsaSha2Nistp256, keyval: a },
                Key::Ecdsa { scheme: EcdsaScheme::EcdsaSha2Nistp256, keyval: b },
            ) => a.bytes() == b.bytes(),
            (
                Key::Ed25519 { scheme: Ed25519Scheme::Ed25519, keyval: a },
                Key::Ed25519 { scheme: Ed25519Scheme::Ed25519, keyval: b },
            ) => a.bytes() == b.bytes(),
            (
                Key::Rsa { scheme: RsaScheme::RsassaPssSha256, keyval: a },
                Key::Rsa { scheme: RsaScheme::RsassaPssSha256, keyval: b },
            ) => a.bytes() == b.bytes(),
            _ => false,
        }
    }
}

impl EcdsaKey {
    /// The decoded public key bytes.
    pub closed spec fn bytes(&self) -> Seq<u8> {
        self.public@
    }

    /// The decoded public key, as raw bytes.
    pub fn as_bytes(&self) -> (b: &[u8])
        ensures
            b@ == self.bytes(),
    {
        self.public.as_slice()
    }

    /// Build an ECDSA public key from PEM text.
    pub fn from_pem(text: &str) -> (r: Result<EcdsaKey, EncodingError>)
        ensures
            pem::spec_valid(text.spec_bytes()) ==> (r matches Ok(k) && k.bytes()
                == pem::spec_decode(text.spec_bytes())),
            !pem::spec_armored(text.spec_bytes()) ==> r == Err::<EcdsaKey, EncodingError>(
                EncodingError::BadArmor,
            ),
            pem::spec_armored(text.spec_bytes()) && !base64::spec_valid(
                pem::spec_strip(pem::spec_body(text.spec_bytes())),
            ) ==> r == Err::<EcdsaKey, EncodingError>(EncodingError::BadBase64),
    {
        match pem::decode(text.as_bytes()) {
            Ok(public) => Ok(EcdsaKey { public }),
            Err(e) => Err(e),
        }
    }
}

impl Ed25519Key {
    /// The decoded public key bytes.
    pub closed spec fn bytes(&self) -> Seq<u8> {
        self.public@
    }

    /// The decoded public key, as raw bytes.
    pub fn as_bytes(&self) -> (b: &[u8])
        ensures
            b@ == self.bytes(),
    {
        self.public.as_slice()
    }

    /// Build an Ed25519 public key from hexadecimal text.
    pub fn from_hex(text: &str) -> (r: Result<Ed25519Key, EncodingError>)
        ensures
            hex::spec_valid(text.spec_bytes()) ==> (r matches Ok(k) && k.bytes()
                == hex::spec_decode(text.spec_bytes())),
            text.spec_bytes().len() % 2 != 0 ==> r == Err::<Ed25519Key, EncodingError>(
                EncodingError::OddLength,
            ),
            text.spec_bytes().len() % 2 == 0 && !hex::spec_valid(text.spec_bytes()) ==> r
                == Err::<Ed25519Key, EncodingError>(EncodingError::BadHexDigit),
    {
        match hex::decode(text.as_bytes()) {
            Ok(public) => Ok(Ed25519Key { public }),
            Err(e) => Err(e),
        }
    }
}

impl RsaKey {
    /// The decoded public key bytes.
    pub closed spec fn bytes(&self) -> Seq<u8> {
        self.public@
    }

    /// The decoded public key, as raw bytes.
    pub fn as_bytes(&self) -> (b: &[u8])
        ensures
            b@ == self.bytes(),
    {
        self.public.as_slice()
    }

    /// Build an RSA public key from PEM text.
    pub fn from_pem(text: &str) -> (r: Result<RsaKey, EncodingError>)
        ensures
            pem::spec_valid(text.spec_bytes()) ==> (r matches Ok(k) && k.bytes()
                == pem::spec_decode(text.spec_bytes())),
            !pem::spec_armored(text.spec_bytes()) ==> r == Err::<RsaKey, EncodingError>(
                EncodingError::BadArmor,
            ),
            pem::spec_armored(text.spec_bytes()) && !base64::spec_valid(
                pem::spec_strip(pem::spec_body(text.spec_bytes())),
            ) ==> r == Err::<RsaKey, EncodingError>(EncodingError::BadBase64),
    {
        match pem::decode(text.as_bytes()) {
            Ok(public) => Ok(RsaKey { public }),
            Err(e) => Err(e),
        }
    }
}

impl Key {
    /// Whether `signature` is a valid signature of `message` under
    /// this key's algorithm, scheme and decoded public key.  The match
    /// is exhaustive over the closed set of (variant, scheme) pairs,
    /// with no default branch: every representable key maps to exactly
    /// one primitive.
    pub open spec fn verifies(self, message: Seq<u8>, signature: Seq<u8>) -> bool {
        match self {
            Key::Ecdsa { scheme: EcdsaScheme::EcdsaSha2Nistp256, keyval } => {
                sig::ecdsa_p256_sha256_asn1_verifies(keyval.bytes(), message, signature)
            },
            Key::Ed25519 { scheme: Ed25519Scheme::Ed25519, keyval } => {
                sig::ed25519_verifies(keyval.bytes(), message, signature)
            },
            Key::Rsa { scheme: RsaScheme::RsassaPssSha256, keyval } => {
                sig::rsa_pss_sha256_verifies(keyval.bytes(), message, signature)
            },
        }
    }

    /// Verify a signature of `msg` made with this key.  Every failure
    /// - malformed key bytes, malformed signature, wrong algorithm, a
    /// tampered message - folds into `false`; the call never panics
    /// and surfaces no error.
    pub fn verify(&self, msg: &[u8], signature: &[u8]) -> (r: bool)
        ensures
            r == self.verifies(msg@, signature@),
    {
        match self {
            Key::Ecdsa { scheme: EcdsaScheme::EcdsaSha2Nistp256, keyval } => {
                sig::verify_ecdsa_p256_sha256_asn1(keyval.public.as_slice(), msg, signature)
            },
            Key::Ed25519 { scheme: Ed25519Scheme::Ed25519, keyval } => {
                sig::verify_ed25519(keyval.public.as_slice(), msg, signature)
            },
            Key::Rsa { scheme: RsaScheme::RsassaPssSha256, keyval } => {
                sig::verify_rsa_pss_sha256(keyval.public.as_slice(), msg, signature)
            },
        }
    }

    /// Assemble a validated `Key` from the wire record's fields: the
    /// key type discriminator, the scheme discriminator and the
    /// encoded public key.  The key type is tested against `ecdsa`,
    /// `ed25519` and `rsa` in that order; the scheme must be the one
    /// paired with the key type, and the public key text must decode
    /// under the variant's encoding (PEM for ECDSA and RSA,
    /// hexadecimal for Ed25519).
    pub fn from_record(keytype: &str, scheme: &str, public: &str) -> (r: Result<Key, FormatError>)
        ensures
            keytype.spec_bytes() == keytype_ecdsa() ==> {
                &&& scheme.spec_bytes() != scheme_ecdsa() ==> r == Err::<Key, FormatError>(
                    FormatError::SchemeMismatch,
                )
                &&& scheme.spec_bytes() == scheme_ecdsa() && pem::spec_valid(public.spec_bytes())
                    ==> (r matches Ok(
                    Key::Ecdsa { scheme: EcdsaScheme::EcdsaSha2Nistp256, keyval },
                ) && keyval.bytes() == pem::spec_decode(public.spec_bytes()))
                &&& scheme.spec_bytes() == scheme_ecdsa() && !pem::spec_armored(
                    public.spec_bytes(),
                ) ==> r == Err::<Key, FormatError>(
                    FormatError::Encoding(EncodingError::BadArmor),
                )
                &&& scheme.spec_bytes() == scheme_ecdsa() && pem::spec_armored(public.spec_bytes())
                    && !base64::spec_valid(pem::spec_strip(pem::spec_body(public.spec_bytes())))
                    ==> r == Err::<Key, FormatError>(FormatError::Encoding(EncodingError::BadBase64))
            },
            keytype.spec_bytes() == keytype_ed25519() ==> {
                &&& scheme.spec_bytes() != scheme_ed25519() ==> r == Err::<Key, FormatError>(
                    FormatError::SchemeMismatch,
                )
                &&& scheme.spec_bytes() == scheme_ed25519() && hex::spec_valid(public.spec_bytes())
                    ==> (r matches Ok(Key::Ed25519 { scheme: Ed25519Scheme::Ed25519, keyval })
                    && keyval.bytes() == hex::spec_decode(public.spec_bytes()))
                &&& scheme.spec_bytes() == scheme_ed25519() && public.spec_bytes().len() % 2 != 0
                    ==> r == Err::<Key, FormatError>(
                    FormatError::Encoding(EncodingError::OddLength),
                )
                &&& scheme.spec_bytes() == scheme_ed25519() && public.spec_bytes().len() % 2 == 0
                    && !hex::spec_valid(public.spec_bytes()) ==> r == Err::<Key, FormatError>(
                    FormatError::Encoding(EncodingError::BadHexDigit),
                )
            },
            keytype.spec_bytes() == keytype_rsa() ==> {
                &&& scheme.spec_bytes() != scheme_rsa() ==> r == Err::<Key, FormatError>(
                    FormatError::SchemeMismatch,
                )
                &&& scheme.spec_bytes() == scheme_rsa() && pem::spec_valid(public.spec_bytes())
                    ==> (r matches Ok(Key::Rsa { scheme: RsaScheme::RsassaPssSha256, keyval })
                    && keyval.bytes() == pem::spec_decode(public.spec_bytes()))
                &&& scheme.spec_bytes() == scheme_rsa() && !pem::spec_armored(public.spec_bytes())
                    ==> r == Err::<Key, FormatError>(
                    FormatError::Encoding(EncodingError::BadArmor),
                )
                &&& scheme.spec_bytes() == scheme_rsa() && pem::spec_armored(public.spec_bytes())
                    && !base64::spec_valid(pem::spec_strip(pem::spec_body(public.spec_bytes())))
                    ==> r == Err::<Key, FormatError>(FormatError::Encoding(EncodingError::BadBase64))
            },
            keytype.spec_bytes() != keytype_ecdsa() && keytype.spec_bytes() != keytype_ed25519()
                && keytype.spec_bytes() != keytype_rsa() ==> r == Err::<Key, FormatError>(
                FormatError::UnknownKeyType,
            ),
    {
        proof {
            lemma_keytypes_distinct();
        }
        if text_eq(keytype, "ecdsa") {
            if !text_eq(scheme, "ecdsa-sha2-nistp256") {
                return Err(FormatError::SchemeMismatch);
            }
            match EcdsaKey::from_pem(public) {
                Ok(keyval) => Ok(Key::Ecdsa { scheme: EcdsaScheme::EcdsaSha2Nistp256, keyval }),
                Err(e) => Err(FormatError::Encoding(e)),
            }
        } else if text_eq(keytype, "ed25519") {
            if !text_eq(scheme, "ed25519") {
                return Err(FormatError::SchemeMismatch);
            }
            match Ed25519Key::from_hex(public) {
                Ok(keyval) => Ok(Key::Ed25519 { scheme: Ed25519Scheme::Ed25519, keyval }),
                Err(e) => Err(FormatError::Encoding(e)),
            }
        } else if text_eq(keytype, "rsa") {
            if !text_eq(scheme, "rsassa-pss-sha256") {
                return Err(FormatError::SchemeMismatch);
            }
            match RsaKey::from_pem(public) {
                Ok(keyval) => Ok(Key::Rsa { scheme: RsaScheme::RsassaPssSha256, keyval }),
                Err(e) => Err(FormatError::Encoding(e)),
            }
        } else {
            Err(FormatError::UnknownKeyType)
        }
    }
}

} // verus!
