use vstd::prelude::*;

use crate::text::digit_char;
use base64::Engine;
use rand::Rng;
use std::io::Write;

verus! {

/// A lower-case hexadecimal digit.
pub open spec fn hex_digit(d: nat) -> char {
    if d < 10 {
        digit_char(d)
    } else {
        ((d + 87) as u8) as char
    }
}

/// Each byte as two lower-case hexadecimal digits.
pub open spec fn hex_lower(b: Seq<u8>) -> Seq<char>
    decreases b.len(),
{
    if b.len() == 0 {
        Seq::empty()
    } else {
        hex_lower(b.drop_last()) + seq![hex_digit(b.last() as nat / 16), hex_digit(b.last() as nat % 16)]
    }
}

/// How a JSON string literal writes one character.
pub open spec fn json_escape_char(c: char) -> Seq<char> {
    if c == '"' {
        seq!['\\', '"']
    } else if c == '\\' {
        seq!['\\', '\\']
    } else if c == '\x08' {
        seq!['\\', 'b']
    } else if c == '\x0C' {
        seq!['\\', 'f']
    } else if c == '\n' {
        seq!['\\', 'n']
    } else if c == '\r' {
        seq!['\\', 'r']
    } else if c == '\t' {
        seq!['\\', 't']
    } else if (c as u32) < 0x20 {
        seq!['\\', 'u', '0', '0', hex_digit(c as u32 as nat / 16), hex_digit(c as u32 as nat % 16)]
    } else {
        seq![c]
    }
}

pub open spec fn json_escape(s: Seq<char>) -> Seq<char>
    decreases s.len(),
{
    if s.len() == 0 {
        Seq::empty()
    } else {
        json_escape(s.drop_last()) + json_escape_char(s.last())
    }
}

/// A text written as a JSON string literal.
pub open spec fn json_quoted(s: Seq<char>) -> Seq<char> {
    seq!['"'] + json_escape(s) + seq!['"']
}

/// What the standard base64 alphabet, with padding, decodes a text to.
pub uninterp spec fn base64_decoded(s: Seq<char>) -> Option<Seq<u8>>;

/// What `String::from_utf8_lossy` makes of a byte sequence.
pub uninterp spec fn utf8_lossy_text(b: Seq<u8>) -> Seq<char>;

/// What `str::to_lowercase` makes of a text.
pub uninterp spec fn lowercase_of(s: Seq<char>) -> Seq<char>;

/// The gzip stream that flate2 writes at its default level.
pub uninterp spec fn gzip_of(b: Seq<u8>) -> Seq<u8>;

/// The raw deflate stream that flate2 writes at its default level.
pub uninterp spec fn deflate_of(b: Seq<u8>) -> Seq<u8>;

/// The brotli stream written at quality 6 with a 22-bit window.
pub uninterp spec fn brotli_of(b: Seq<u8>) -> Seq<u8>;

#[verifier::external_type_specification]
#[verifier::external_body]
pub struct ExDecodeError(base64::DecodeError);

/// Relies on `serde_json::to_string` for a `&str`: the text as a JSON string
/// literal, quotes and escapes as in its escape table. Writing a `&str` into a
/// `Vec` does not fail.
#[verifier::external_body]
pub(crate) fn json_quote(s: &str) -> (r: String)
    ensures
        r@ == json_quoted(s@),
{
    serde_json::to_string(s).unwrap_or_default()
}

/// Decodes standard base64 with padding.
/// Relies on `base64::engine::general_purpose::STANDARD.decode`.
#[verifier::external_body]
pub fn decode_base64(s: &str) -> (r: Result<Vec<u8>, base64::DecodeError>)
    ensures
        match r {
            Ok(v) => base64_decoded(s@) == Some(v@),
            Err(_) => base64_decoded(s@).is_none(),
        },
{
    base64::engine::general_purpose::STANDARD.decode(s)
}

/// `n` bytes from the thread-local generator.
/// Relies on `rand::Rng::fill` on `rand::thread_rng()`: it fills the whole slice.
#[verifier::external_body]
pub fn random_bytes(n: usize) -> (r: Vec<u8>)
    ensures
        r@.len() == n,
{
    let mut v = vec![0u8; n];
    rand::thread_rng().fill(&mut v[..]);
    v
}

/// Relies on `hex::encode`: two lower-case digits for each byte.
#[verifier::external_body]
pub(crate) fn hex_encode(b: &[u8]) -> (r: String)
    ensures
        r@ == hex_lower(b@),
{
    hex::encode(b)
}

/// The hyphenated text of a version 4 UUID: 36 characters, hyphens at
/// positions 8, 13, 18 and 23, lower-case hexadecimal digits elsewhere, the
/// version digit `4` at position 14.
pub open spec fn is_uuid_v4_text(u: Seq<char>) -> bool {
    &&& u.len() == 36
    &&& u[8] == '-' && u[13] == '-' && u[18] == '-' && u[23] == '-'
    &&& forall|i: int|
        0 <= i < 36 && i != 8 && i != 13 && i != 18 && i != 23 ==> ('0' <= #[trigger] u[i] <= '9'
            || 'a' <= u[i] <= 'f')
    &&& u[14] == '4'
}

/// A fresh random (version 4) UUID in its hyphenated text form.
/// Relies on `uuid::Uuid::new_v4` and its `Display`, which writes the
/// hyphenated form in lower case.
#[verifier::external_body]
pub(crate) fn uuid_v4_text() -> (r: String)
    ensures
        is_uuid_v4_text(r@),
{
    uuid::Uuid::new_v4().to_string()
}

/// Relies on `str::to_lowercase`: Unicode lower case, character by character
/// with context for final sigma; the result depends on the text alone.
#[verifier::external_body]
pub(crate) fn to_lower(s: &str) -> (r: String)
    ensures
        r@ == lowercase_of(s@),
{
    s.to_lowercase()
}

/// Relies on `String::from_utf8_lossy`: invalid sequences become U+FFFD.
#[verifier::external_body]
pub(crate) fn lossy_text(b: &[u8]) -> (r: String)
    ensures
        r@ == utf8_lossy_text(b@),
{
    String::from_utf8_lossy(b).into_owned()
}

/// Relies on `flate2::write::GzEncoder` at `Compression::default()`, writing
/// into a `Vec`, which does not fail.
#[verifier::external_body]
pub(crate) fn gzip_compress(b: &[u8]) -> (r: Vec<u8>)
    ensures
        r@ == gzip_of(b@),
{
    let mut e = flate2::write::GzEncoder::new(Vec::new(), flate2::Compression::default());
    e.write_all(b).unwrap_or_default();
    e.finish().unwrap_or_default()
}

/// Relies on `flate2::write::DeflateEncoder` at `Compression::default()`,
/// writing into a `Vec`, which does not fail.
#[verifier::external_body]
pub(crate) fn deflate_compress(b: &[u8]) -> (r: Vec<u8>)
    ensures
        r@ == deflate_of(b@),
{
    let mut e = flate2::write::DeflateEncoder::new(Vec::new(), flate2::Compression::default());
    e.write_all(b).unwrap_or_default();
    e.finish().unwrap_or_default()
}

/// Relies on `brotli::CompressorWriter` (4096-byte buffer, quality 6, window
/// 22), which writes its last block when dropped.
#[verifier::external_body]
pub(crate) fn brotli_compress(b: &[u8]) -> (r: Vec<u8>)
    ensures
        r@ == brotli_of(b@),
{
    let mut out = Vec::new();
    let mut w = brotli::CompressorWriter::new(&mut out, 4096, 6, 22);
    w.write_all(b).unwrap_or_default();
    drop(w);
    out
}

} // verus!
