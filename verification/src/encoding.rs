//! Base64 (RFC 4648), in its standard and its URL-safe alphabet.

use base64::Engine;
use vstd::prelude::*;

verus! {

/// The byte at a place, zero past the end.
pub open spec fn byte_or_zero(bytes: Seq<u8>, i: int) -> int {
    if i < bytes.len() {
        bytes[i] as int
    } else {
        0
    }
}

/// The six bits that character `i` of the encoding stands for: each group of three
/// bytes gives four characters, the highest bits first.
pub open spec fn sextet(bytes: Seq<u8>, i: int) -> int {
    let at = i / 4 * 3;
    let group = byte_or_zero(bytes, at) * 65536 + byte_or_zero(bytes, at + 1) * 256 + byte_or_zero(
        bytes,
        at + 2,
    );
    if i % 4 == 0 {
        group / 262144
    } else if i % 4 == 1 {
        group / 4096 % 64
    } else if i % 4 == 2 {
        group / 64 % 64
    } else {
        group % 64
    }
}

/// The character for six bits. The two alphabets differ in the last two.
pub open spec fn base64_char(v: int, url: bool) -> char {
    if v < 26 {
        ((65 + v) as u8) as char
    } else if v < 52 {
        ((97 + (v - 26)) as u8) as char
    } else if v < 62 {
        ((48 + (v - 52)) as u8) as char
    } else if v == 62 {
        if url {
            '-'
        } else {
            '+'
        }
    } else {
        if url {
            '_'
        } else {
            '/'
        }
    }
}

/// The encoding of the bytes without padding: as many characters as it takes to
/// hold all bits.
pub open spec fn base64_chars(bytes: Seq<u8>, url: bool) -> Seq<char> {
    Seq::new(
        ((4 * bytes.len() + 2) / 3) as nat,
        |i: int| base64_char(sextet(bytes, i), url),
    )
}

/// The standard encoding: padded with `=` to a multiple of four characters.
pub open spec fn base64_standard(bytes: Seq<u8>) -> Seq<char> {
    base64_chars(bytes, false) + Seq::new((2 * bytes.len() % 3) as nat, |i: int| '=')
}

/// The URL-safe encoding, which has no padding.
pub open spec fn base64_url(bytes: Seq<u8>) -> Seq<char> {
    base64_chars(bytes, true)
}

/// `base64::Engine::encode` of the engine `STANDARD`: the standard encoding.
#[verifier::external_body]
pub(crate) fn base64_standard_text(bytes: &[u8]) -> (r: String)
    ensures
        r@ == base64_standard(bytes@),
{
    base64::engine::general_purpose::STANDARD.encode(bytes)
}

/// `base64::Engine::encode` of the engine `URL_SAFE_NO_PAD`: the URL-safe encoding.
#[verifier::external_body]
pub(crate) fn base64_url_text(bytes: &[u8]) -> (r: String)
    ensures
        r@ == base64_url(bytes@),
{
    base64::engine::general_purpose::URL_SAFE_NO_PAD.encode(bytes)
}

} // verus!
