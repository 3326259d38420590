//! Tests for the hexadecimal, base64 and PEM transcoders.

use tough_keys::base64;
use tough_keys::error::EncodingError;
use tough_keys::hex;
use tough_keys::pem;

fn text(v: Vec<u8>) -> String {
    String::from_utf8(v).unwrap()
}

#[test]
fn hex_encode_empty() {
    assert_eq!(text(hex::encode(&[])), "");
    assert_eq!(hex::decode(b""), Ok(vec![]));
}

#[test]
fn hex_encode_is_lowercase_pairs() {
    assert_eq!(text(hex::encode(&[0x00, 0xff, 0x10, 0xab])), "00ff10ab");
    assert_eq!(text(hex::encode(&[0x01])), "01");
    assert_eq!(text(hex::encode(&[0xde, 0xad, 0xbe, 0xef])), "deadbeef");
}

#[test]
fn hex_decode_accepts_both_cases() {
    assert_eq!(hex::decode(b"00FF10ab"), Ok(vec![0x00, 0xff, 0x10, 0xab]));
    assert_eq!(hex::decode(b"DeAdBeEf"), Ok(vec![0xde, 0xad, 0xbe, 0xef]));
}

#[test]
fn hex_decode_odd_length() {
    assert_eq!(hex::decode(b"abc"), Err(EncodingError::OddLength));
    assert_eq!(hex::decode(b"0"), Err(EncodingError::OddLength));
}

#[test]
fn hex_decode_bad_digit() {
    assert_eq!(hex::decode(b"0g"), Err(EncodingError::BadHexDigit));
    assert_eq!(hex::decode(b"zz"), Err(EncodingError::BadHexDigit));
    assert_eq!(hex::decode(b"00 1"), Err(EncodingError::BadHexDigit));
}

#[test]
fn hex_round_trip_every_byte_value() {
    let mut b: Vec<u8> = Vec::new();
    for i in 0..=255u8 {
        b.push(i);
    }
    let t = hex::encode(&b);
    assert_eq!(t.len(), 512);
    assert_eq!(hex::decode(&t), Ok(b));
}

#[test]
fn base64_known_vectors() {
    assert_eq!(text(base64::encode(b"")), "");
    assert_eq!(text(base64::encode(b"f")), "Zg==");
    assert_eq!(text(base64::encode(b"fo")), "Zm8=");
    assert_eq!(text(base64::encode(b"foo")), "Zm9v");
    assert_eq!(text(base64::encode(b"foob")), "Zm9vYg==");
    assert_eq!(text(base64::encode(b"fooba")), "Zm9vYmE=");
    assert_eq!(text(base64::encode(b"foobar")), "Zm9vYmFy");
}

#[test]
fn base64_decode_known_vectors() {
    assert_eq!(base64::decode(b""), Ok(b"".to_vec()));
    assert_eq!(base64::decode(b"Zg=="), Ok(b"f".to_vec()));
    assert_eq!(base64::decode(b"Zm8="), Ok(b"fo".to_vec()));
    assert_eq!(base64::decode(b"Zm9v"), Ok(b"foo".to_vec()));
    assert_eq!(base64::decode(b"Zm9vYmFy"), Ok(b"foobar".to_vec()));
}

#[test]
fn base64_decode_rejects_malformed() {
    // not a multiple of four characters
    assert_eq!(base64::decode(b"Zg="), Err(EncodingError::BadBase64));
    assert_eq!(base64::decode(b"A"), Err(EncodingError::BadBase64));
    // padding in the middle
    assert_eq!(base64::decode(b"Zg==Zm8="), Err(EncodingError::BadBase64));
    // padding where a character is owed
    assert_eq!(base64::decode(b"===="), Err(EncodingError::BadBase64));
    assert_eq!(base64::decode(b"Z==="), Err(EncodingError::BadBase64));
    // a byte outside the alphabet
    assert_eq!(base64::decode(b"Zm9#"), Err(EncodingError::BadBase64));
}

#[test]
fn base64_round_trip_many_lengths() {
    for n in 0..60usize {
        let b: Vec<u8> = (0..n).map(|i| (i * 7 + 3) as u8).collect();
        let t = base64::encode(&b);
        assert_eq!(base64::decode(&t), Ok(b));
    }
}

#[test]
fn pem_encode_empty() {
    assert_eq!(
        text(pem::encode(b"")),
        "-----BEGIN PUBLIC KEY-----\n-----END PUBLIC KEY-----\n"
    );
}

#[test]
fn pem_encode_short_body() {
    assert_eq!(
        text(pem::encode(b"hello")),
        "-----BEGIN PUBLIC KEY-----\naGVsbG8=\n-----END PUBLIC KEY-----\n"
    );
}

#[test]
fn pem_encode_wraps_at_64_characters() {
    // 60 bytes make 80 base64 characters: one full line and one short one
    let b: Vec<u8> = (0..60).map(|i| i as u8).collect();
    let t = text(pem::encode(&b));
    let lines: Vec<&str> = t.lines().collect();
    assert_eq!(lines.first(), Some(&"-----BEGIN PUBLIC KEY-----"));
    assert_eq!(lines.last(), Some(&"-----END PUBLIC KEY-----"));
    assert_eq!(lines.len(), 4);
    assert_eq!(lines[1].len(), 64);
    assert_eq!(lines[2].len(), 16);
}

#[test]
fn pem_round_trip_many_lengths() {
    for n in 0..100usize {
        let b: Vec<u8> = (0..n).map(|i| (i * 13 + 1) as u8).collect();
        let t = pem::encode(&b);
        assert_eq!(pem::decode(&t), Ok(b));
    }
}

#[test]
fn pem_decode_accepts_other_line_widths() {
    let t = "-----BEGIN PUBLIC KEY-----\naG\nVsbG8=\n-----END PUBLIC KEY-----\n";
    assert_eq!(pem::decode(t.as_bytes()), Ok(b"hello".to_vec()));
}

#[test]
fn pem_decode_missing_end_armor() {
    let t = "-----BEGIN PUBLIC KEY-----\naGVsbG8=\n";
    assert_eq!(pem::decode(t.as_bytes()), Err(EncodingError::BadArmor));
}

#[test]
fn pem_decode_missing_begin_armor() {
    let t = "aGVsbG8=\n-----END PUBLIC KEY-----\n";
    assert_eq!(pem::decode(t.as_bytes()), Err(EncodingError::BadArmor));
    assert_eq!(pem::decode(b""), Err(EncodingError::BadArmor));
}

#[test]
fn pem_decode_bad_body() {
    let t = "-----BEGIN PUBLIC KEY-----\na!b$c%d^\n-----END PUBLIC KEY-----\n";
    assert_eq!(pem::decode(t.as_bytes()), Err(EncodingError::BadBase64));
    let t2 = "-----BEGIN PUBLIC KEY-----\nabc\n-----END PUBLIC KEY-----\n";
    assert_eq!(pem::decode(t2.as_bytes()), Err(EncodingError::BadBase64));
}
