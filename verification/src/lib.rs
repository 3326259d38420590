//! Algorithm-polymorphic public keys for signature verification.
//!
//! A [`key::Key`] pairs one of three signature algorithms with a decoded
//! public key; [`key::Key::verify`] maps every representable key to exactly
//! one verification primitive and folds every failure into `false`.  The
//! textual wire encodings of public keys (hexadecimal and PEM) are decoded
//! and encoded by the [`hex`] and [`pem`] modules, whose round trips are
//! proved.  Throughout, a piece of text is reasoned about as its UTF-8
//! bytes; every encoding here produces and consumes ASCII.

pub mod base64;
pub mod error;
pub mod hex;
pub mod key;
pub mod pem;
pub mod sig;

