//! Error types for key decoding and key construction.
//!
//! Encoding failures are reported at `Key` construction time only; the
//! verification boundary itself never surfaces an error.

use vstd::prelude::*;

verus! {

/// Why a piece of textual key material could not be decoded.
#[derive(Debug, Clone, Copy, PartialEq, Eq, Hash)]
pub enum EncodingError {
    /// Hexadecimal text whose length is odd.
    OddLength,
    /// Hexadecimal text holding a byte that is no hex digit.
    BadHexDigit,
    /// PEM text without its `-----BEGIN/END PUBLIC KEY-----` armor.
    BadArmor,
    /// PEM text whose body is not valid base64.
    BadBase64,
}

/// Why a wire record could not be assembled into a `Key`.
#[derive(Debug, Clone, Copy, PartialEq, Eq, Hash)]
pub enum FormatError {
    /// The key type discriminator names none of the closed set of variants.
    UnknownKeyType,
    /// The scheme discriminator is not the one paired with the key type.
    SchemeMismatch,
    /// The public key field could not be decoded.
    Encoding(EncodingError),
}

} // verus!
