//! Cryptographic digests and the textual encodings of byte strings.
//!
//! The digests themselves are computed by the `sha2` and `ripemd` crates and
//! are known to the proofs only by name; the hexadecimal encoding is stated in
//! full.

use vstd::prelude::*;
use vstd::utf8::{encode_utf8, is_ascii_chars, is_ascii_chars_encode_utf8};

verus! {

/// The SHA-256 digest of a byte string.
pub uninterp spec fn sha256(data: Seq<u8>) -> Seq<u8>;

/// The RIPEMD-160 digest of a byte string.
pub uninterp spec fn ripemd160(data: Seq<u8>) -> Seq<u8>;

/// The base58 text of a byte string.
pub uninterp spec fn base58(data: Seq<u8>) -> Seq<char>;

/// The lower-case hexadecimal digit for a value below sixteen.
pub open spec fn hex_digit(nibble: int) -> char {
    seq!['0', '1', '2', '3', '4', '5', '6', '7', '8', '9', 'a', 'b', 'c', 'd', 'e', 'f'][nibble]
}

/// The lower-case hexadecimal text of a byte string: two digits for each
/// byte, the high half first.
pub open spec fn hex_text(data: Seq<u8>) -> Seq<char> {
    Seq::new(
        2 * data.len(),
        |i: int|
            if i % 2 == 0 {
                hex_digit(data[i / 2] as int / 16)
            } else {
                hex_digit(data[i / 2] as int % 16)
            },
    )
}

/// The value of one hexadecimal digit given as an ASCII byte, in either case.
pub open spec fn hex_value(digit: u8) -> Option<int> {
    if 0x30 <= digit <= 0x39 {
        Some(digit - 0x30)
    } else if 0x61 <= digit <= 0x66 {
        Some(digit - 0x61 + 10)
    } else if 0x41 <= digit <= 0x46 {
        Some(digit - 0x41 + 10)
    } else {
        None
    }
}

/// Whether a byte string is hexadecimal text: an even number of digits.
pub open spec fn is_hex(text: Seq<u8>) -> bool {
    &&& text.len() % 2 == 0
    &&& forall|i: int| 0 <= i < text.len() ==> (#[trigger] hex_value(text[i])) is Some
}

/// The bytes that hexadecimal text stands for.
pub open spec fn hex_bytes(text: Seq<u8>) -> Seq<u8> {
    Seq::new(
        text.len() / 2,
        |i: int| (hex_value(text[2 * i]).unwrap() * 16 + hex_value(text[2 * i + 1]).unwrap()) as u8,
    )
}

/// A hexadecimal digit stands for the value it was written for.
pub proof fn lemma_hex_digit_value(nibble: int)
    requires
        0 <= nibble < 16,
    ensures
        '\0' <= hex_digit(nibble) <= '\u{7f}',
        hex_value(hex_digit(nibble) as u8) == Some(nibble),
{
}

/// The hexadecimal text of bytes is hexadecimal text, and stands for those
/// bytes.
pub proof fn lemma_hex_round_trip(data: Seq<u8>)
    ensures
        is_hex(encode_utf8(hex_text(data))),
        hex_bytes(encode_utf8(hex_text(data))) == data,
{
    let text = hex_text(data);
    assert forall|i: int| 0 <= i < text.len() implies '\0' <= #[trigger] text[i] <= '\u{7f}' by {
        lemma_hex_digit_value(data[i / 2] as int / 16);
        lemma_hex_digit_value(data[i / 2] as int % 16);
    }
    assert(is_ascii_chars(text));
    is_ascii_chars_encode_utf8(text);
    let bytes = encode_utf8(text);
    assert forall|i: int| 0 <= i < bytes.len() implies (#[trigger] hex_value(bytes[i])) is Some by {
        lemma_hex_digit_value(data[i / 2] as int / 16);
        lemma_hex_digit_value(data[i / 2] as int % 16);
        assert(bytes[i] == text[i] as u8);
    }
    assert forall|i: int| 0 <= i < data.len() implies #[trigger] hex_bytes(bytes)[i] == data[i] by {
        lemma_hex_digit_value(data[i] as int / 16);
        lemma_hex_digit_value(data[i] as int % 16);
        assert(bytes[2 * i] == text[2 * i] as u8);
        assert(bytes[2 * i + 1] == text[2 * i + 1] as u8);
    }
    assert(hex_bytes(bytes) =~= data);
}

/// Computes SHA-256 with `sha2::Sha256::digest`.
///
/// Trusted: the result is the digest named [`sha256`], and it is 32 bytes
/// long.
#[verifier::external_body]
pub(crate) fn sha256_digest(data: &[u8]) -> (out: Vec<u8>)
    ensures
        out@ == sha256(data@),
        out@.len() == 32,
{
    <sha2::Sha256 as sha2::Digest>::digest(data).to_vec()
}

/// Computes RIPEMD-160 with `ripemd::Ripemd160::digest`.
///
/// Trusted: the result is the digest named [`ripemd160`], and it is 20 bytes
/// long.
#[verifier::external_body]
pub(crate) fn ripemd160_digest(data: &[u8]) -> (out: Vec<u8>)
    ensures
        out@ == ripemd160(data@),
        out@.len() == 20,
{
    <ripemd::Ripemd160 as ripemd::Digest>::digest(data).to_vec()
}

/// Encodes bytes with `base58::ToBase58::to_base58`.
///
/// Trusted: the result is the text named [`base58`]. The encoder is only
/// asked for inputs of at most 128 bytes.
#[verifier::external_body]
pub(crate) fn base58_encode(data: &[u8]) -> (out: String)
    requires
        data@.len() <= 128,
    ensures
        out@ == base58(data@),
{
    base58::ToBase58::to_base58(data)
}

/// Encodes bytes with `hex::encode`.
///
/// Trusted: the result has two lower-case digits for each byte, the high half
/// first.
#[verifier::external_body]
pub(crate) fn hex_encode(data: &[u8]) -> (out: String)
    ensures
        out@ == hex_text(data@),
{
    hex::encode(data)
}

/// Decodes hexadecimal text with `hex::decode`.
///
/// Trusted: the call succeeds exactly on an even number of hexadecimal
/// digits, of either case, and then yields the bytes they stand for.
#[verifier::external_body]
pub(crate) fn hex_decode(text: &str) -> (out: Option<Vec<u8>>)
    ensures
        out is Some <==> is_hex(encode_utf8(text@)),
        out is Some ==> out.unwrap()@ == hex_bytes(encode_utf8(text@)),
{
    hex::decode(text).ok()
}

/// The hexadecimal text of the SHA-256 digest of `data`.
pub fn sha256_hex(data: &[u8]) -> (out: String)
    ensures
        out@ == hex_text(sha256(data@)),
        out@.len() == 64,
{
    let digest = sha256_digest(data);
    hex_encode(digest.as_slice())
}

} // verus!
