use vstd::prelude::*;
use vstd::arithmetic::div_mod::lemma_fundamental_div_mod;
use vstd::utf8::{decode_utf8, encode_utf8, encode_utf8_decode_utf8, encode_utf8_valid_utf8,
    valid_utf8};
use crate::err::EdError;

verus! {

/// The 16-bit value encoded little-endian by two bytes.
pub open spec fn le16_val(b0: u8, b1: u8) -> u16 {
    (b0 + 256 * b1) as u16
}

/// The 32-bit value encoded little-endian by four bytes.
pub open spec fn le32_val(b0: u8, b1: u8, b2: u8, b3: u8) -> u32 {
    (b0 + 256 * b1 + 65536 * b2 + 16777216 * b3) as u32
}

/// The two-byte little-endian encoding of a 16-bit value.
pub open spec fn le16_bytes(v: u16) -> Seq<u8> {
    seq![(v % 256) as u8, (v / 256) as u8]
}

/// The four-byte little-endian encoding of a 32-bit value.
pub open spec fn le32_bytes(v: u32) -> Seq<u8> {
    seq![
        (v % 256) as u8,
        ((v / 256) % 256) as u8,
        ((v / 65536) % 256) as u8,
        (v / 16777216) as u8,
    ]
}

/// Encode a 16-bit value as two little-endian bytes.
pub fn encode_u16(v: u16) -> (r: Vec<u8>)
    ensures
        r@ == le16_bytes(v),
{
    let mut out: Vec<u8> = Vec::new();
    out.push((v % 256) as u8);
    out.push((v / 256) as u8);
    proof {
        assert(out@ =~= le16_bytes(v));
    }
    out
}

/// Encode a 32-bit value as four little-endian bytes.
pub fn encode_u32(v: u32) -> (r: Vec<u8>)
    ensures
        r@ == le32_bytes(v),
{
    let mut out: Vec<u8> = Vec::new();
    out.push((v % 256) as u8);
    out.push(((v / 256) % 256) as u8);
    out.push(((v / 65536) % 256) as u8);
    out.push((v / 16777216) as u8);
    proof {
        assert(out@ =~= le32_bytes(v));
    }
    out
}

/// Decode a 16-bit value from two little-endian bytes.
pub fn decode_u16(b0: u8, b1: u8) -> (r: u16)
    ensures
        r == le16_val(b0, b1),
{
    b0 as u16 + (b1 as u16) * 256
}

/// Decode a 32-bit value from four little-endian bytes.
pub fn decode_u32(b0: u8, b1: u8, b2: u8, b3: u8) -> (r: u32)
    ensures
        r == le32_val(b0, b1, b2, b3),
{
    b0 as u32 + (b1 as u32) * 256 + (b2 as u32) * 65536 + (b3 as u32) * 16777216
}

proof fn lemma_le16_round_trip(v: u16)
    ensures
        le16_val((v % 256) as u8, (v / 256) as u8) == v,
{
    lemma_fundamental_div_mod(v as int, 256);
}

/// Whether a status-query response word reports a responsive device:
/// its high byte must be the sentinel 0xA5; the low byte is unused detail.
pub open spec fn status_healthy(w: u16) -> bool {
    w & 0xFF00 == 0xA500
}

/// Decode a status word: healthy exactly when the high byte is 0xA5.
pub fn is_status_healthy(w: u16) -> (r: bool)
    ensures
        r == status_healthy(w),
{
    (w & 0xFF00) == 0xA500
}

/// Value of a BCD-encoded byte: ten times the high nibble plus the low nibble.
pub open spec fn bcd_value(v: u8) -> u8 {
    (10 * (v / 16) + v % 16) as u8
}

/// Decode one BCD byte, as the real-time clock reports its fields.
pub fn hex2dec(val: u8) -> (r: u8)
    ensures
        r == bcd_value(val),
{
    proof {
        assert((val >> 4) & 0xF == val / 16) by (bit_vector);
        assert(val & 0xF == val % 16) by (bit_vector);
    }
    ((val >> 4) & 0xF) * 10 + (val & 0xF)
}

/// The wire encoding of text: a 16-bit little-endian byte-length prefix
/// followed by the UTF-8 bytes (none when the length is zero).
pub open spec fn string_encoding(s: Seq<char>) -> Seq<u8> {
    le16_bytes(encode_utf8(s).len() as u16) + encode_utf8(s)
}

/// The text a byte stream starts with, under the length-prefixed encoding:
/// `None` when the prefix or payload is incomplete or the payload is not
/// valid UTF-8.
pub open spec fn string_decoding(b: Seq<u8>) -> Option<Seq<char>> {
    if b.len() < 2 {
        None
    } else {
        let n = le16_val(b[0], b[1]) as int;
        if b.len() < 2 + n {
            None
        } else if valid_utf8(b.subrange(2, 2 + n)) {
            Some(decode_utf8(b.subrange(2, 2 + n)))
        } else {
            None
        }
    }
}

/// How many bytes of a stream the length-prefixed text occupies: the two
/// prefix bytes plus the byte length they announce.
pub open spec fn string_encoding_len(b: Seq<u8>) -> int
    recommends
        b.len() >= 2,
{
    2 + le16_val(b[0], b[1])
}

/// Relies on String::from_utf8: succeeds exactly on valid UTF-8 input, and
/// the returned text is the one those bytes encode.
#[verifier::external_body]
pub(crate) fn string_from_utf8(bytes: Vec<u8>) -> (r: Option<String>)
    ensures
        r is Some <==> valid_utf8(bytes@),
        r matches Some(s) ==> s@ == decode_utf8(bytes@),
{
    String::from_utf8(bytes).ok()
}

/// Encode text for the wire: length prefix, then UTF-8 bytes. Fails with
/// `TooLong` exactly when the UTF-8 encoding exceeds 65535 bytes.
pub fn encode_str(s: &str) -> (r: Result<Vec<u8>, EdError>)
    ensures
        encode_utf8(s@).len() <= 0xFFFF ==> (r matches Ok(b) && b@ == string_encoding(s@)),
        encode_utf8(s@).len() > 0xFFFF ==> r == Err::<Vec<u8>, EdError>(EdError::TooLong),
{
    let mut bytes = s.as_bytes_vec();
    if bytes.len() > 0xFFFF {
        return Err(EdError::TooLong);
    }
    let mut out = encode_u16(bytes.len() as u16);
    out.append(&mut bytes);
    proof {
        assert(out@ =~= string_encoding(s@));
    }
    Ok(out)
}

/// Law: encoding text of UTF-8 length 0..=65535 and then decoding the result
/// yields the original text, whatever bytes follow the encoding; exactly the
/// encoded bytes are consumed, none after them. A zero-length text encodes to
/// the two prefix bytes alone.
pub proof fn lemma_string_round_trip(s: Seq<char>, tail: Seq<u8>)
    requires
        encode_utf8(s).len() <= 0xFFFF,
    ensures
        string_decoding(string_encoding(s) + tail) == Some(s),
        string_encoding_len(string_encoding(s) + tail) == string_encoding(s).len(),
        s.len() == 0 ==> string_encoding(s).len() == 2,
{
    let n = encode_utf8(s).len() as u16;
    let enc = string_encoding(s);
    let b = enc + tail;
    lemma_le16_round_trip(n);
    assert(b[0] == (n % 256) as u8 && b[1] == (n / 256) as u8);
    assert(b.subrange(2, 2 + n as int) =~= encode_utf8(s));
    encode_utf8_valid_utf8(s);
    encode_utf8_decode_utf8(s);
    if s.len() == 0 {
        assert(encode_utf8(s).len() == 0);
    }
}

} // verus!
