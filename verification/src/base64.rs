//! Base64 transcoding of byte buffers, as used inside PEM bodies.
//!
//! The standard alphabet `A-Z a-z 0-9 + /` with `=` padding is used.
//! `encode` emits the canonical four-character groups; `decode` accepts
//! exactly that shape and rejects everything else.  `lemma_round_trip`
//! proves `decode(encode(b)) == b` for every buffer `b`.

use vstd::prelude::*;

verus! {

use crate::error::EncodingError;

/// ASCII code of `=`, the base64 padding character.
pub open spec fn pad_char() -> u8 {
    61
}

/// True when `c` is the ASCII code of a character of the base64
/// alphabet (padding excluded).
pub open spec fn is_b64_char(c: u8) -> bool {
    (65 <= c && c <= 90) || (97 <= c && c <= 122) || (48 <= c && c <= 57) || c == 43 || c == 47
}

/// ASCII code of the base64 character for a six-bit value `v < 64`.
pub open spec fn b64_char(v: u8) -> u8
    recommends
        v < 64,
{
    if v < 26 {
        (65 + v) as u8
    } else if v < 52 {
        (71 + v) as u8
    } else if v < 62 {
        (v - 4) as u8
    } else if v == 62 {
        43
    } else {
        47
    }
}

/// Six-bit value of a base64 character's ASCII code.
pub open spec fn b64_val(c: u8) -> u8
    recommends
        is_b64_char(c),
{
    if 65 <= c && c <= 90 {
        (c - 65) as u8
    } else if 97 <= c && c <= 122 {
        (c - 71) as u8
    } else if 48 <= c && c <= 57 {
        (c + 4) as u8
    } else if c == 43 {
        62
    } else {
        63
    }
}

/// First decoded byte of a group: all of the first six-bit value and
/// the top two bits of the second.
pub open spec fn group_byte_1(c0: u8, c1: u8) -> u8 {
    (b64_val(c0) * 4 + b64_val(c1) / 16) as u8
}

/// Second decoded byte of a group: the low four bits of the second
/// six-bit value and the top four of the third.
pub open spec fn group_byte_2(c1: u8, c2: u8) -> u8 {
    ((b64_val(c1) % 16) * 16 + b64_val(c2) / 4) as u8
}

/// Third decoded byte of a group: the low two bits of the third
/// six-bit value and all of the fourth.
pub open spec fn group_byte_3(c2: u8, c3: u8) -> u8 {
    ((b64_val(c2) % 4) * 64 + b64_val(c3)) as u8
}

/// The base64 text (as ASCII bytes) for a byte buffer: three bytes at
/// a time become four characters, a final byte or pair becomes a
/// padded group.
pub open spec fn spec_encode(b: Seq<u8>) -> Seq<u8>
    decreases b.len(),
{
    if b.len() == 0 {
        Seq::empty()
    } else if b.len() == 1 {
        seq![
            b64_char(b[0] / 4),
            b64_char(((b[0] % 4) * 16) as u8),
            pad_char(),
            pad_char(),
        ]
    } else if b.len() == 2 {
        seq![
            b64_char(b[0] / 4),
            b64_char(((b[0] % 4) * 16 + b[1] / 16) as u8),
            b64_char(((b[1] % 16) * 4) as u8),
            pad_char(),
        ]
    } else {
        seq![
            b64_char(b[0] / 4),
            b64_char(((b[0] % 4) * 16 + b[1] / 16) as u8),
            b64_char(((b[1] % 16) * 4 + b[2] / 64) as u8),
            b64_char(b[2] % 64),
        ] + spec_encode(b.skip(3))
    }
}

/// True when `t` is well-formed base64 text: groups of four alphabet
/// characters, with padding allowed only at the end of the last group.
pub open spec fn spec_valid(t: Seq<u8>) -> bool
    decreases t.len(),
{
    if t.len() == 0 {
        true
    } else if t.len() < 4 {
        false
    } else if t.len() == 4 {
        is_b64_char(t[0]) && is_b64_char(t[1]) && ((t[2] == pad_char() && t[3] == pad_char()) || (
        is_b64_char(t[2]) && t[3] == pad_char()) || (is_b64_char(t[2]) && is_b64_char(t[3])))
    } else {
        is_b64_char(t[0]) && is_b64_char(t[1]) && is_b64_char(t[2]) && is_b64_char(t[3])
            && spec_valid(t.skip(4))
    }
}

/// The byte buffer denoted by base64 text: three bytes per full group,
/// fewer for a padded final group.
pub open spec fn spec_decode(t: Seq<u8>) -> Seq<u8>
    recommends
        spec_valid(t),
    decreases t.len(),
{
    if t.len() < 4 {
        Seq::empty()
    } else if t.len() == 4 {
        if t[2] == pad_char() && t[3] == pad_char() {
            seq![group_byte_1(t[0], t[1])]
        } else if t[3] == pad_char() {
            seq![group_byte_1(t[0], t[1]), group_byte_2(t[1], t[2])]
        } else {
            seq![group_byte_1(t[0], t[1]), group_byte_2(t[1], t[2]), group_byte_3(t[2], t[3])]
        }
    } else {
        seq![group_byte_1(t[0], t[1]), group_byte_2(t[1], t[2]), group_byte_3(t[2], t[3])]
            + spec_decode(t.skip(4))
    }
}

/// The base64 character for a six-bit value.
fn char64(v: u8) -> (c: u8)
    requires
        v < 64,
    ensures
        c == b64_char(v),
{
    if v < 26 {
        65 + v
    } else if v < 52 {
        71 + v
    } else if v < 62 {
        v - 4
    } else if v == 62 {
        43
    } else {
        47
    }
}

/// The six-bit value of a base64 character, or `None` for any byte
/// outside the alphabet (padding included).
fn val64(c: u8) -> (r: Option<u8>)
    ensures
        r matches Some(v) ==> is_b64_char(c) && v == b64_val(c) && v < 64,
        r is None ==> !is_b64_char(c),
{
    if 65 <= c && c <= 90 {
        Some(c - 65)
    } else if 97 <= c && c <= 122 {
        Some(c - 71)
    } else if 48 <= c && c <= 57 {
        Some(c + 4)
    } else if c == 43 {
        Some(62)
    } else if c == 47 {
        Some(63)
    } else {
        None
    }
}

/// Render a byte buffer as base64 text.
pub fn encode(b: &[u8]) -> (t: Vec<u8>)
    ensures
        t@ == spec_encode(b@),
{
    let mut t: Vec<u8> = Vec::new();
    let mut i: usize = 0;
    proof {
        assert(b@.skip(0) =~= b@);
        assert(t@ + spec_encode(b@) =~= spec_encode(b@));
    }
    while b.len() - i >= 3
        invariant
            i <= b@.len(),
            spec_encode(b@) == t@ + spec_encode(b@.skip(i as int)),
        decreases b@.len() - i,
    {
        let x0 = b[i];
        let x1 = b[i + 1];
        let x2 = b[i + 2];
        t.push(char64(x0 / 4));
        t.push(char64((x0 % 4) * 16 + x1 / 16));
        t.push(char64((x1 % 16) * 4 + x2 / 64));
        t.push(char64(x2 % 64));
        proof {
            assert(b@.skip(i as int)[0] == x0);
            assert(b@.skip(i as int)[1] == x1);
            assert(b@.skip(i as int)[2] == x2);
            assert(b@.skip(i as int).skip(3) =~= b@.skip(i + 3));
        }
        i = i + 3;
    }
    if b.len() - i == 1 {
        let x0 = b[i];
        t.push(char64(x0 / 4));
        t.push(char64((x0 % 4) * 16));
        t.push(61);
        t.push(61);
        proof {
            assert(b@.skip(i as int)[0] == x0);
        }
    } else if b.len() - i == 2 {
        let x0 = b[i];
        let x1 = b[i + 1];
        t.push(char64(x0 / 4));
        t.push(char64((x0 % 4) * 16 + x1 / 16));
        t.push(char64((x1 % 16) * 4));
        t.push(61);
        proof {
            assert(b@.skip(i as int)[0] == x0);
            assert(b@.skip(i as int)[1] == x1);
        }
    } else {
        proof {
            assert(b@.skip(i as int) =~= Seq::<u8>::empty());
        }
    }
    proof {
        assert(t@ =~= spec_encode(b@));
    }
    t
}

/// Well-formed base64 text has a length that is a multiple of four.
pub proof fn lemma_valid_len(t: Seq<u8>)
    requires
        spec_valid(t),
    ensures
        t.len() % 4 == 0,
    decreases t.len(),
{
    if t.len() > 4 {
        lemma_valid_len(t.skip(4));
    }
}

/// Decode base64 text into the byte buffer it denotes.  Succeeds
/// exactly on well-formed base64 text.
pub fn decode(t: &[u8]) -> (r: Result<Vec<u8>, EncodingError>)
    ensures
        spec_valid(t@) ==> (r matches Ok(v) && v@ == spec_decode(t@)),
        !spec_valid(t@) ==> r == Err::<Vec<u8>, EncodingError>(EncodingError::BadBase64),
{
    if t.len() % 4 != 0 {
        proof {
            if spec_valid(t@) {
                lemma_valid_len(t@);
            }
        }
        return Err(EncodingError::BadBase64);
    }
    if t.len() == 0 {
        proof {
            assert(spec_decode(t@) =~= Seq::<u8>::empty());
        }
        return Ok(Vec::new());
    }
    let mut out: Vec<u8> = Vec::new();
    let mut i: usize = 0;
    proof {
        assert(t@.skip(0) =~= t@);
        assert(out@ + spec_decode(t@) =~= spec_decode(t@));
    }
    while t.len() - i > 4
        invariant
            i + 4 <= t@.len(),
            i % 4 == 0,
            t@.len() % 4 == 0,
            spec_valid(t@) == spec_valid(t@.skip(i as int)),
            spec_decode(t@) == out@ + spec_decode(t@.skip(i as int)),
        decreases t@.len() - i,
    {
        let c0 = t[i];
        let c1 = t[i + 1];
        let c2 = t[i + 2];
        let c3 = t[i + 3];
        proof {
            assert(t@.skip(i as int)[0] == c0);
            assert(t@.skip(i as int)[1] == c1);
            assert(t@.skip(i as int)[2] == c2);
            assert(t@.skip(i as int)[3] == c3);
            assert(t@.skip(i as int).skip(4) =~= t@.skip(i + 4));
        }
        let v0 = match val64(c0) {
            Some(v) => v,
            None => {
                return Err(EncodingError::BadBase64);
            },
        };
        let v1 = match val64(c1) {
            Some(v) => v,
            None => {
                return Err(EncodingError::BadBase64);
            },
        };
        let v2 = match val64(c2) {
            Some(v) => v,
            None => {
                return Err(EncodingError::BadBase64);
            },
        };
        let v3 = match val64(c3) {
            Some(v) => v,
            None => {
                return Err(EncodingError::BadBase64);
            },
        };
        out.push(v0 * 4 + v1 / 16);
        out.push((v1 % 16) * 16 + v2 / 4);
        out.push((v2 % 4) * 64 + v3);
        i = i + 4;
    }
    let c0 = t[i];
    let c1 = t[i + 1];
    let c2 = t[i + 2];
    let c3 = t[i + 3];
    proof {
        assert(t@.len() - i == 4);
        assert(t@.skip(i as int)[0] == c0);
        assert(t@.skip(i as int)[1] == c1);
        assert(t@.skip(i as int)[2] == c2);
        assert(t@.skip(i as int)[3] == c3);
        assert(t@.skip(i as int).len() == 4);
    }
    let v0 = match val64(c0) {
        Some(v) => v,
        None => {
            return Err(EncodingError::BadBase64);
        },
    };
    let v1 = match val64(c1) {
        Some(v) => v,
        None => {
            return Err(EncodingError::BadBase64);
        },
    };
    if c2 == 61 && c3 == 61 {
        out.push(v0 * 4 + v1 / 16);
        proof {
            assert(spec_decode(t@) =~= out@);
        }
        Ok(out)
    } else if c3 == 61 {
        let v2 = match val64(c2) {
            Some(v) => v,
            None => {
                return Err(EncodingError::BadBase64);
            },
        };
        out.push(v0 * 4 + v1 / 16);
        out.push((v1 % 16) * 16 + v2 / 4);
        proof {
            assert(spec_decode(t@) =~= out@);
        }
        Ok(out)
    } else {
        let v2 = match val64(c2) {
            Some(v) => v,
            None => {
                return Err(EncodingError::BadBase64);
            },
        };
        let v3 = match val64(c3) {
            Some(v) => v,
            None => {
                return Err(EncodingError::BadBase64);
            },
        };
        out.push(v0 * 4 + v1 / 16);
        out.push((v1 % 16) * 16 + v2 / 4);
        out.push((v2 % 4) * 64 + v3);
        proof {
            assert(spec_decode(t@) =~= out@);
        }
        Ok(out)
    }
}

/// A base64 character and a six-bit value determine one another.
proof fn lemma_char_val(v: u8)
    requires
        v < 64,
    ensures
        is_b64_char(b64_char(v)),
        b64_val(b64_char(v)) == v,
        b64_char(v) != pad_char(),
{
}

/// Round trip: decoding the base64 encoding of any byte buffer, the
/// empty one included, gives back that buffer; the encoding is always
/// well-formed base64 text; and every byte of the encoding belongs to
/// the base64 alphabet or is padding.
pub proof fn lemma_round_trip(b: Seq<u8>)
    ensures
        spec_valid(spec_encode(b)),
        spec_decode(spec_encode(b)) == b,
        forall|i: int|
            0 <= i < spec_encode(b).len() ==> (is_b64_char(#[trigger] spec_encode(b)[i])
                || spec_encode(b)[i] == pad_char()),
    decreases b.len(),
{
    let e = spec_encode(b);
    if b.len() == 0 {
        assert(spec_decode(e) =~= b);
    } else if b.len() == 1 {
        lemma_char_val(b[0] / 4);
        lemma_char_val(((b[0] % 4) * 16) as u8);
        assert(spec_decode(e) =~= seq![group_byte_1(e[0], e[1])]);
        assert(group_byte_1(e[0], e[1]) == b[0]);
        assert(spec_decode(e) =~= b);
    } else if b.len() == 2 {
        lemma_char_val(b[0] / 4);
        lemma_char_val(((b[0] % 4) * 16 + b[1] / 16) as u8);
        lemma_char_val(((b[1] % 16) * 4) as u8);
        assert(group_byte_1(e[0], e[1]) == b[0]);
        assert(group_byte_2(e[1], e[2]) == b[1]);
        assert(spec_decode(e) =~= b);
    } else {
        lemma_round_trip(b.skip(3));
        let rest = spec_encode(b.skip(3));
        lemma_char_val(b[0] / 4);
        lemma_char_val(((b[0] % 4) * 16 + b[1] / 16) as u8);
        lemma_char_val(((b[1] % 16) * 4 + b[2] / 64) as u8);
        lemma_char_val(b[2] % 64);
        assert(e.skip(4) =~= rest);
        if b.len() == 3 {
            assert(rest =~= Seq::<u8>::empty());
            assert(e.len() == 4);
            assert(spec_valid(e));
            assert(group_byte_1(e[0], e[1]) == b[0]);
            assert(group_byte_2(e[1], e[2]) == b[1]);
            assert(group_byte_3(e[2], e[3]) == b[2]);
            assert(spec_decode(e) =~= b);
        } else {
            if rest.len() < 4 {
                assert(rest.len() == 0);
                assert(b.skip(3).len() == 0);
            }
            assert(rest.len() >= 4);
            assert(e.len() > 4);
            assert(spec_valid(e));
            assert(group_byte_1(e[0], e[1]) == b[0]);
            assert(group_byte_2(e[1], e[2]) == b[1]);
            assert(group_byte_3(e[2], e[3]) == b[2]);
            assert(spec_decode(e) =~= seq![b[0], b[1], b[2]] + spec_decode(rest));
            assert(spec_decode(e) =~= b);
        }
        assert forall|i: int| 0 <= i < e.len() implies (is_b64_char(#[trigger] e[i]) || e[i]
            == pad_char()) by {
            if i >= 4 {
                assert(e[i] == rest[i - 4]);
            }
        }
    }
}

} // verus!
