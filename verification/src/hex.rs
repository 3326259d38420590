//! Hexadecimal transcoding of byte buffers.
//!
//! `encode` renders a buffer as lowercase hex text (as ASCII bytes);
//! `decode` accepts upper- or lowercase digits and rejects everything
//! else.  `lemma_round_trip` proves `decode(encode(b)) == b` for every
//! buffer `b`.

use vstd::prelude::*;

verus! {

use crate::error::EncodingError;

/// True when `c` is the ASCII code of a hexadecimal digit
/// (`0-9`, `a-f` or `A-F`).
pub open spec fn is_hex_digit(c: u8) -> bool {
    (48 <= c && c <= 57) || (65 <= c && c <= 70) || (97 <= c && c <= 102)
}

/// ASCII code of the lowercase hexadecimal digit for a value `v < 16`.
pub open spec fn hex_digit(v: u8) -> u8
    recommends
        v < 16,
{
    if v < 10 {
        (48 + v) as u8
    } else {
        (87 + v) as u8
    }
}

/// Numeric value of a hexadecimal digit's ASCII code.
pub open spec fn hex_val(c: u8) -> u8
    recommends
        is_hex_digit(c),
{
    if 48 <= c && c <= 57 {
        (c - 48) as u8
    } else if 65 <= c && c <= 70 {
        (c - 55) as u8
    } else {
        (c - 87) as u8
    }
}

/// The lowercase hexadecimal text (as ASCII bytes) for a byte buffer:
/// two digits per byte, high nibble first.
pub open spec fn spec_encode(b: Seq<u8>) -> Seq<u8>
    decreases b.len(),
{
    if b.len() == 0 {
        Seq::empty()
    } else {
        seq![hex_digit(b[0] / 16), hex_digit(b[0] % 16)] + spec_encode(b.skip(1))
    }
}

/// True when `t` is well-formed hexadecimal text: even length, every
/// byte a hex digit.
pub open spec fn spec_valid(t: Seq<u8>) -> bool {
    t.len() % 2 == 0 && (forall|i: int| 0 <= i < t.len() ==> is_hex_digit(#[trigger] t[i]))
}

/// The byte buffer denoted by hexadecimal text, one byte per digit pair.
pub open spec fn spec_decode(t: Seq<u8>) -> Seq<u8>
    recommends
        spec_valid(t),
    decreases t.len(),
{
    if t.len() < 2 {
        Seq::empty()
    } else {
        seq![(hex_val(t[0]) * 16 + hex_val(t[1])) as u8] + spec_decode(t.skip(2))
    }
}

/// Render a byte buffer as lowercase hexadecimal text.
pub fn encode(b: &[u8]) -> (t: Vec<u8>)
    ensures
        t@ == spec_encode(b@),
        spec_valid(t@),
{
    let mut t: Vec<u8> = Vec::new();
    let mut i: usize = 0;
    proof {
        assert(b@.skip(0) =~= b@);
        assert(t@ + spec_encode(b@) =~= spec_encode(b@));
    }
    while i < b.len()
        invariant
            i <= b.len(),
            spec_encode(b@) == t@ + spec_encode(b@.skip(i as int)),
            t@.len() == 2 * i,
            forall|j: int| 0 <= j < t@.len() ==> is_hex_digit(#[trigger] t@[j]),
        decreases b.len() - i,
    {
        let x = b[i];
        let hi = x / 16;
        let lo = x % 16;
        t.push(if hi < 10 { 48 + hi } else { 87 + hi });
        t.push(if lo < 10 { 48 + lo } else { 87 + lo });
        proof {
            assert(b@.skip(i as int)[0] == x);
            assert(b@.skip(i as int).skip(1) =~= b@.skip(i + 1));
        }
        i = i + 1;
    }
    proof {
        assert(b@.skip(b@.len() as int) =~= Seq::<u8>::empty());
        assert(t@ =~= spec_encode(b@));
    }
    t
}

/// Decode hexadecimal text into the byte buffer it denotes.  Succeeds
/// exactly on well-formed hexadecimal text; odd length and foreign
/// bytes are told apart in the error.
pub fn decode(t: &[u8]) -> (r: Result<Vec<u8>, EncodingError>)
    ensures
        spec_valid(t@) ==> (r matches Ok(v) && v@ == spec_decode(t@)),
        t@.len() % 2 != 0 ==> r == Err::<Vec<u8>, EncodingError>(EncodingError::OddLength),
        t@.len() % 2 == 0 && !spec_valid(t@) ==> r == Err::<Vec<u8>, EncodingError>(
            EncodingError::BadHexDigit,
        ),
{
    if t.len() % 2 != 0 {
        return Err(EncodingError::OddLength);
    }
    let mut out: Vec<u8> = Vec::new();
    let mut i: usize = 0;
    proof {
        assert(t@.skip(0) =~= t@);
        assert(out@ + spec_decode(t@) =~= spec_decode(t@));
    }
    while t.len() - i >= 2
        invariant
            i <= t@.len(),
            i % 2 == 0,
            t@.len() % 2 == 0,
            forall|j: int| 0 <= j < i ==> is_hex_digit(#[trigger] t@[j]),
            spec_decode(t@) == out@ + spec_decode(t@.skip(i as int)),
        decreases t@.len() - i,
    {
        let c0 = t[i];
        let c1 = t[i + 1];
        let v0: u8 = if 48 <= c0 && c0 <= 57 {
            c0 - 48
        } else if 65 <= c0 && c0 <= 70 {
            c0 - 55
        } else if 97 <= c0 && c0 <= 102 {
            c0 - 87
        } else {
            return Err(EncodingError::BadHexDigit);
        };
        let v1: u8 = if 48 <= c1 && c1 <= 57 {
            c1 - 48
        } else if 65 <= c1 && c1 <= 70 {
            c1 - 55
        } else if 97 <= c1 && c1 <= 102 {
            c1 - 87
        } else {
            return Err(EncodingError::BadHexDigit);
        };
        out.push(v0 * 16 + v1);
        proof {
            assert(t@.skip(i as int)[0] == c0);
            assert(t@.skip(i as int)[1] == c1);
            assert(t@.skip(i as int).skip(2) =~= t@.skip(i + 2));
        }
        i = i + 2;
    }
    proof {
        assert(i == t@.len());
        assert(t@.skip(i as int) =~= Seq::<u8>::empty());
        assert(spec_valid(t@));
        assert(out@ =~= spec_decode(t@));
    }
    Ok(out)
}

/// Round trip: decoding the hexadecimal encoding of any byte buffer,
/// the empty one included, gives back that buffer, and the encoding is
/// always well-formed hexadecimal text.
pub proof fn lemma_round_trip(b: Seq<u8>)
    ensures
        spec_valid(spec_encode(b)),
        spec_decode(spec_encode(b)) == b,
    decreases b.len(),
{
    if b.len() == 0 {
        assert(spec_decode(spec_encode(b)) =~= b);
    } else {
        lemma_round_trip(b.skip(1));
        let e = spec_encode(b);
        let rest = spec_encode(b.skip(1));
        let d1 = hex_digit(b[0] / 16);
        let d2 = hex_digit(b[0] % 16);
        assert(e =~= seq![d1, d2] + rest);
        assert forall|i: int| 0 <= i < e.len() implies is_hex_digit(#[trigger] e[i]) by {
            if i >= 2 {
                assert(e[i] == rest[i - 2]);
            }
        }
        assert(hex_val(d1) == b[0] / 16 && hex_val(d2) == b[0] % 16);
        assert(hex_val(d1) * 16 + hex_val(d2) == b[0]);
        assert(e.skip(2) =~= rest);
        assert(spec_decode(e) =~= seq![b[0]] + spec_decode(rest));
        assert(spec_decode(spec_encode(b)) =~= b);
    }
}

} // verus!
