//! PEM transcoding of public-key buffers.
//!
//! A PEM block is the byte buffer rendered as base64, wrapped into
//! lines of at most 64 characters between `-----BEGIN PUBLIC KEY-----`
//! and `-----END PUBLIC KEY-----` lines.  `decode` insists on both
//! armor lines and a well-formed base64 body, but accepts any line
//! lengths inside the body.  `lemma_round_trip` proves
//! `decode(encode(b)) == b` for every buffer `b`.

use vstd::prelude::*;

verus! {

use crate::base64;
use crate::error::EncodingError;

/// ASCII code of the line feed that ends every PEM line.
pub open spec fn newline() -> u8 {
    10
}

/// The bytes of the `-----BEGIN PUBLIC KEY-----` line, line feed included.
pub open spec fn spec_begin() -> Seq<u8> {
    seq![
        45u8,
        45,
        45,
        45,
        45,
        66,
        69,
        71,
        73,
        78,
        32,
        80,
        85,
        66,
        76,
        73,
        67,
        32,
        75,
        69,
        89,
        45,
        45,
        45,
        45,
        45,
        10,
    ]
}

/// The bytes of the `-----END PUBLIC KEY-----` line, line feed included.
pub open spec fn spec_end() -> Seq<u8> {
    seq![
        45u8,
        45,
        45,
        45,
        45,
        69,
        78,
        68,
        32,
        80,
        85,
        66,
        76,
        73,
        67,
        32,
        75,
        69,
        89,
        45,
        45,
        45,
        45,
        45,
        10,
    ]
}

/// Base64 text broken into lines of 64 characters, each line (a final
/// short one included) ended by a line feed; empty text gives no line.
pub open spec fn spec_wrap(s: Seq<u8>) -> Seq<u8>
    decreases s.len(),
{
    if s.len() == 0 {
        Seq::empty()
    } else if s.len() <= 64 {
        s + seq![newline()]
    } else {
        s.take(64) + seq![newline()] + spec_wrap(s.skip(64))
    }
}

/// The text with every line feed removed.
pub open spec fn spec_strip(s: Seq<u8>) -> Seq<u8>
    decreases s.len(),
{
    if s.len() == 0 {
        Seq::empty()
    } else if s[0] == newline() {
        spec_strip(s.skip(1))
    } else {
        seq![s[0]] + spec_strip(s.skip(1))
    }
}

/// The canonical PEM text for a byte buffer.
pub open spec fn spec_encode(b: Seq<u8>) -> Seq<u8> {
    spec_begin() + spec_wrap(base64::spec_encode(b)) + spec_end()
}

/// The body of a PEM text: what stands between the armor lines.
pub open spec fn spec_body(t: Seq<u8>) -> Seq<u8> {
    t.subrange(spec_begin().len() as int, t.len() - spec_end().len())
}

/// True when the text begins with the BEGIN line and ends with the END line.
pub open spec fn spec_armored(t: Seq<u8>) -> bool {
    t.len() >= spec_begin().len() + spec_end().len() && t.take(spec_begin().len() as int)
        == spec_begin() && t.skip(t.len() - spec_end().len()) == spec_end()
}

/// True when `t` is a well-formed PEM block: armored, and its body a
/// well-formed base64 text once line feeds are removed.
pub open spec fn spec_valid(t: Seq<u8>) -> bool {
    spec_armored(t) && base64::spec_valid(spec_strip(spec_body(t)))
}

/// The byte buffer denoted by a PEM block.
pub open spec fn spec_decode(t: Seq<u8>) -> Seq<u8>
    recommends
        spec_valid(t),
{
    base64::spec_decode(spec_strip(spec_body(t)))
}

/// Append the BEGIN line to a buffer of text under construction.
fn push_begin(v: &mut Vec<u8>)
    ensures
        final(v)@ == old(v)@ + spec_begin(),
{
    v.push(45);
    v.push(45);
    v.push(45);
    v.push(45);
    v.push(45);
    v.push(66);
    v.push(69);
    v.push(71);
    v.push(73);
    v.push(78);
    v.push(32);
    v.push(80);
    v.push(85);
    v.push(66);
    v.push(76);
    v.push(73);
    v.push(67);
    v.push(32);
    v.push(75);
    v.push(69);
    v.push(89);
    v.push(45);
    v.push(45);
    v.push(45);
    v.push(45);
    v.push(45);
    v.push(10);
    proof {
        assert(v@ =~= old(v)@ + spec_begin());
    }
}

/// Append the END line to a buffer of text under construction.
fn push_end(v: &mut Vec<u8>)
    ensures
        final(v)@ == old(v)@ + spec_end(),
{
    v.push(45);
    v.push(45);
    v.push(45);
    v.push(45);
    v.push(45);
    v.push(69);
    v.push(78);
    v.push(68);
    v.push(32);
    v.push(80);
    v.push(85);
    v.push(66);
    v.push(76);
    v.push(73);
    v.push(67);
    v.push(32);
    v.push(75);
    v.push(69);
    v.push(89);
    v.push(45);
    v.push(45);
    v.push(45);
    v.push(45);
    v.push(45);
    v.push(10);
    proof {
        assert(v@ =~= old(v)@ + spec_end());
    }
}

/// Render a byte buffer as a PEM block.
pub fn encode(b: &[u8]) -> (t: Vec<u8>)
    ensures
        t@ == spec_encode(b@),
{
    let body = base64::encode(b);
    let mut t: Vec<u8> = Vec::new();
    push_begin(&mut t);
    let mut k: usize = 0;
    proof {
        assert(body@.skip(0) =~= body@);
    }
    while body.len() - k > 64
        invariant
            k <= body@.len(),
            spec_begin() + spec_wrap(body@) == t@ + spec_wrap(body@.skip(k as int)),
        decreases body@.len() - k,
    {
        let ghost t_start = t@;
        let mut j: usize = 0;
        while j < 64
            invariant
                j <= 64,
                k + 64 < body@.len(),
                body@.len() <= usize::MAX,
                t@ == t_start + body@.subrange(k as int, k + j),
            decreases 64 - j,
        {
            t.push(body[k + j]);
            proof {
                assert(t@ =~= t_start + body@.subrange(k as int, k + j + 1));
            }
            j = j + 1;
        }
        t.push(10);
        proof {
            assert(body@.skip(k as int).take(64) =~= body@.subrange(k as int, k + 64));
            assert(body@.skip(k as int).skip(64) =~= body@.skip(k + 64));
            assert(t@ =~= t_start + (body@.skip(k as int).take(64) + seq![newline()]));
            assert(spec_wrap(body@.skip(k as int)) == (body@.skip(k as int).take(64) + seq![
                newline(),
            ]) + spec_wrap(body@.skip(k + 64)));
            assert(spec_begin() + spec_wrap(body@) =~= t@ + spec_wrap(body@.skip(k + 64)));
        }
        k = k + 64;
    }
    if body.len() - k > 0 {
        let ghost t_start = t@;
        let rem = body.len() - k;
        let mut j: usize = 0;
        while j < rem
            invariant
                j <= rem,
                rem == body@.len() - k,
                k + rem == body@.len(),
                body@.len() <= usize::MAX,
                t@ == t_start + body@.subrange(k as int, k + j),
            decreases rem - j,
        {
            t.push(body[k + j]);
            proof {
                assert(t@ =~= t_start + body@.subrange(k as int, k + j + 1));
            }
            j = j + 1;
        }
        t.push(10);
        proof {
            assert(body@.skip(k as int) =~= body@.subrange(k as int, k + rem));
            assert(t@ =~= t_start + (body@.skip(k as int) + seq![newline()]));
            assert(spec_wrap(body@.skip(k as int)) == body@.skip(k as int) + seq![newline()]);
            assert(t@ =~= spec_begin() + spec_wrap(body@));
        }
    } else {
        proof {
            assert(body@.skip(k as int) =~= Seq::<u8>::empty());
            assert(spec_wrap(body@.skip(k as int)) =~= Seq::<u8>::empty());
            assert(t@ =~= spec_begin() + spec_wrap(body@));
        }
    }
    push_end(&mut t);
    proof {
        assert(t@ =~= spec_encode(b@));
    }
    t
}

/// Decode a PEM block into the byte buffer it denotes.  Succeeds
/// exactly on well-formed PEM blocks; a broken armor and a broken
/// base64 body are told apart in the error.
pub fn decode(t: &[u8]) -> (r: Result<Vec<u8>, EncodingError>)
    ensures
        spec_valid(t@) ==> (r matches Ok(v) && v@ == spec_decode(t@)),
        !spec_armored(t@) ==> r == Err::<Vec<u8>, EncodingError>(EncodingError::BadArmor),
        spec_armored(t@) && !base64::spec_valid(spec_strip(spec_body(t@))) ==> r == Err::<
            Vec<u8>,
            EncodingError,
        >(EncodingError::BadBase64),
{
    if t.len() < 52 {
        return Err(EncodingError::BadArmor);
    }
    let mut marker: Vec<u8> = Vec::new();
    push_begin(&mut marker);
    let mut j: usize = 0;
    while j < 27
        invariant
            j <= 27,
            t@.len() >= 52,
            marker@ == spec_begin(),
            forall|q: int| 0 <= q < j ==> t@[q] == spec_begin()[q],
        decreases 27 - j,
    {
        if t[j] != marker[j] {
            proof {
                assert(t@.take(27) != spec_begin());
            }
            return Err(EncodingError::BadArmor);
        }
        j = j + 1;
    }
    proof {
        assert(t@.take(27) =~= spec_begin());
    }
    let base = t.len() - 25;
    let mut marker: Vec<u8> = Vec::new();
    push_end(&mut marker);
    let mut j: usize = 0;
    while j < 25
        invariant
            j <= 25,
            t@.len() >= 52,
            base == t@.len() - 25,
            base + 25 <= usize::MAX,
            marker@ == spec_end(),
            forall|q: int| 0 <= q < j ==> t@[base + q] == spec_end()[q],
        decreases 25 - j,
    {
        if t[base + j] != marker[j] {
            proof {
                assert(t@.skip(base as int)[j as int] != spec_end()[j as int]);
            }
            return Err(EncodingError::BadArmor);
        }
        j = j + 1;
    }
    proof {
        assert(t@.skip(base as int) =~= spec_end());
        assert(spec_armored(t@));
    }
    let mut body: Vec<u8> = Vec::new();
    let mut j: usize = 27;
    proof {
        assert(spec_body(t@).skip(0) =~= spec_body(t@));
        assert(spec_strip(spec_body(t@)) =~= body@ + spec_strip(
            spec_body(t@).skip(j - 27),
        ));
    }
    while j < base
        invariant
            27 <= j <= base,
            base == t@.len() - 25,
            t@.len() >= 52,
            spec_strip(spec_body(t@)) == body@ + spec_strip(spec_body(t@).skip(j - 27)),
        decreases base - j,
    {
        let c = t[j];
        proof {
            assert(spec_body(t@).skip(j - 27)[0] == c);
            assert(spec_body(t@).skip(j - 27).skip(1) =~= spec_body(t@).skip(j + 1 - 27));
        }
        if c != 10 {
            body.push(c);
        }
        j = j + 1;
    }
    proof {
        assert(spec_body(t@).skip(j - 27) =~= Seq::<u8>::empty());
        assert(spec_strip(spec_body(t@)) =~= body@);
    }
    match base64::decode(body.as_slice()) {
        Ok(v) => Ok(v),
        Err(_) => Err(EncodingError::BadBase64),
    }
}

/// Removing the line feed from a line feed alone leaves nothing.
proof fn lemma_strip_newline()
    ensures
        spec_strip(seq![newline()]) == Seq::<u8>::empty(),
{
    assert(seq![newline()].skip(1) =~= Seq::<u8>::empty());
    assert(spec_strip(seq![newline()]) == spec_strip(seq![newline()].skip(1)));
    assert(spec_strip(Seq::<u8>::empty()) == Seq::<u8>::empty());
}

/// Removing line feeds distributes over concatenation.
proof fn lemma_strip_concat(a: Seq<u8>, b: Seq<u8>)
    ensures
        spec_strip(a + b) == spec_strip(a) + spec_strip(b),
    decreases a.len(),
{
    if a.len() == 0 {
        assert(a + b =~= b);
        assert(spec_strip(a) + spec_strip(b) =~= spec_strip(b));
    } else {
        lemma_strip_concat(a.skip(1), b);
        assert((a + b).skip(1) =~= a.skip(1) + b);
        if a[0] == newline() {
            assert(spec_strip(a + b) =~= spec_strip(a) + spec_strip(b));
        } else {
            assert(spec_strip(a + b) =~= spec_strip(a) + spec_strip(b));
        }
    }
}

/// Removing line feeds from text that holds none leaves it unchanged.
proof fn lemma_strip_clean(s: Seq<u8>)
    requires
        forall|i: int| 0 <= i < s.len() ==> s[i] != newline(),
    ensures
        spec_strip(s) == s,
    decreases s.len(),
{
    if s.len() > 0 {
        lemma_strip_clean(s.skip(1));
        assert(spec_strip(s) =~= s);
    }
}

/// Removing line feeds undoes line wrapping, for text without line feeds.
proof fn lemma_strip_wrap(s: Seq<u8>)
    requires
        forall|i: int| 0 <= i < s.len() ==> s[i] != newline(),
    ensures
        spec_strip(spec_wrap(s)) == s,
    decreases s.len(),
{
    if s.len() == 0 {
        assert(spec_strip(spec_wrap(s)) =~= s);
    } else if s.len() <= 64 {
        lemma_strip_concat(s, seq![newline()]);
        lemma_strip_clean(s);
        lemma_strip_newline();
        assert(spec_strip(spec_wrap(s)) =~= s);
    } else {
        assert forall|i: int| 0 <= i < s.skip(64).len() implies s.skip(64)[i] != newline() by {
            assert(s.skip(64)[i] == s[i + 64]);
        }
        lemma_strip_wrap(s.skip(64));
        lemma_strip_concat(s.take(64) + seq![newline()], spec_wrap(s.skip(64)));
        lemma_strip_concat(s.take(64), seq![newline()]);
        lemma_strip_clean(s.take(64));
        lemma_strip_newline();
        assert(spec_strip(spec_wrap(s)) =~= s.take(64) + s.skip(64));
        assert(s.take(64) + s.skip(64) =~= s);
    }
}

/// Round trip: decoding the PEM encoding of any byte buffer, the empty
/// one included, gives back that buffer, and the encoding is always a
/// well-formed PEM block.
pub proof fn lemma_round_trip(b: Seq<u8>)
    ensures
        spec_valid(spec_encode(b)),
        spec_decode(spec_encode(b)) == b,
{
    let body = base64::spec_encode(b);
    let e = spec_encode(b);
    base64::lemma_round_trip(b);
    assert forall|i: int| 0 <= i < body.len() implies body[i] != newline() by {
        assert(base64::is_b64_char(body[i]) || body[i] == base64::pad_char());
    }
    lemma_strip_wrap(body);
    assert(e.take(27) =~= spec_begin());
    assert(e.skip(e.len() - 25) =~= spec_end());
    assert(spec_body(e) =~= spec_wrap(body));
}

} // verus!
