//! Trusted bindings to outside code: UTF-8 decoding from std, base64
//! encoding and decimal-literal validation from outside crates. Each
//! wrapper's contract is what the rest of the library builds on.

use vstd::prelude::*;

use base64::Engine;

verus! {

/// The base64 text (standard alphabet, padded) of a byte sequence.
pub uninterp spec fn base64_of(bytes: Seq<u8>) -> Seq<char>;

/// Whether a text is a decimal number literal that the JSON number
/// parser accepts.
pub uninterp spec fn is_json_number(text: Seq<char>) -> bool;

/// How many leading bytes std's UTF-8 validator accepts before the
/// first invalid position.
pub uninterp spec fn utf8_valid_prefix(bytes: Seq<u8>) -> nat;

/// Relies on `String::from_utf8`: returns the decoded string exactly
/// when the bytes are valid UTF-8 (vstd's `valid_utf8`/`decode_utf8`).
/// Otherwise, via `FromUtf8Error::into_bytes`, the untouched input,
/// and, via `Utf8Error::valid_up_to`, an index into the input up to
/// which valid UTF-8 was verified.
#[verifier::external_body]
pub fn bytes_to_text(bytes: Vec<u8>) -> (r: Result<String, (Vec<u8>, usize)>)
    ensures
        r matches Ok(s) ==> vstd::utf8::valid_utf8(bytes@) && s@ == vstd::utf8::decode_utf8(
            bytes@,
        ),
        r matches Err(p) ==> !vstd::utf8::valid_utf8(bytes@) && p.0@ == bytes@ && p.1 as nat
            == utf8_valid_prefix(bytes@) && p.1 <= bytes@.len(),
{
    String::from_utf8(bytes).map_err(|e| {
        let valid_up_to = e.utf8_error().valid_up_to();
        (e.into_bytes(), valid_up_to)
    })
}

/// Relies on `base64::engine::general_purpose::STANDARD.encode`: the
/// output depends on the input bytes alone.
#[verifier::external_body]
pub fn encode_base64(bytes: &Vec<u8>) -> (r: String)
    ensures
        r@ == base64_of(bytes@),
{
    base64::engine::general_purpose::STANDARD.encode(bytes.as_slice())
}

/// Relies on `serde_json::Number`'s `FromStr`: whether it accepts a
/// literal depends on the characters alone.
#[verifier::external_body]
pub fn is_number_literal(text: &str) -> (r: bool)
    ensures
        r == is_json_number(text@),
{
    text.parse::<serde_json::Number>().is_ok()
}

} // verus!
