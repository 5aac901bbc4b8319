//! Bytes as text: the two alphabets of base64 that tokens and headers use.

use vstd::prelude::*;
use vstd::string::*;

verus! {

/// What the URL-safe alphabet of base64 makes of some bytes, without padding.
pub uninterp spec fn url_safe_text(bytes: Seq<u8>) -> Seq<char>;

/// The bytes that a text in the URL-safe alphabet stands for, or why it stands for none.
pub uninterp spec fn url_safe_bytes(text: Seq<char>) -> Result<Seq<u8>, Seq<char>>;

/// What the standard alphabet of base64 makes of some bytes, with padding.
pub uninterp spec fn standard_text(bytes: Seq<u8>) -> Seq<char>;

/// The bytes that a text in the standard alphabet stands for; nothing where it stands for none.
pub uninterp spec fn standard_bytes(text: Seq<char>) -> Option<Seq<u8>>;

/// A character of the URL-safe alphabet.
pub open spec fn url_safe_char(c: char) -> bool {
    'A' <= c <= 'Z' || 'a' <= c <= 'z' || '0' <= c <= '9' || c == '-' || c == '_'
}

/// A character of the standard alphabet, or of its padding.
pub open spec fn standard_char(c: char) -> bool {
    'A' <= c <= 'Z' || 'a' <= c <= 'z' || '0' <= c <= '9' || c == '+' || c == '/' || c == '='
}

/// What decodes to some bytes.
pub open spec fn decoded(bytes: Seq<u8>) -> Result<Seq<u8>, Seq<char>> {
    Ok(bytes)
}

/// Whether a text is made of the characters of the URL-safe alphabet.
pub open spec fn in_url_safe_alphabet(text: Seq<char>) -> bool {
    forall|i: int| 0 <= i < text.len() ==> url_safe_char(#[trigger] text[i])
}

/// Whether a text is made of the characters of the standard alphabet and its padding.
pub open spec fn in_standard_alphabet(text: Seq<char>) -> bool {
    forall|i: int| 0 <= i < text.len() ==> standard_char(#[trigger] text[i])
}

pub open spec fn decoded_view(result: Result<Vec<u8>, String>) -> Result<Seq<u8>, Seq<char>> {
    match result {
        Ok(bytes) => Ok(bytes@),
        Err(text) => Err(text@),
    }
}

/// `base64::engine::general_purpose::URL_SAFE_NO_PAD.encode`: its result is named, decoding it
/// gives the bytes back, and it is made of the characters of the alphabet.
#[verifier::external_body]
pub(crate) fn url_safe_encode(bytes: &[u8]) -> (text: String)
    ensures
        text@ == url_safe_text(bytes@),
        url_safe_bytes(text@) == decoded(bytes@),
        in_url_safe_alphabet(text@),
{
    base64::Engine::encode(&base64::engine::general_purpose::URL_SAFE_NO_PAD, bytes)
}

/// `base64::engine::general_purpose::URL_SAFE_NO_PAD.decode`: its result is named, an error by its
/// message.
#[verifier::external_body]
pub(crate) fn url_safe_decode(text: &str) -> (result: Result<Vec<u8>, String>)
    ensures
        decoded_view(result) == url_safe_bytes(text@),
{
    base64::Engine::decode(&base64::engine::general_purpose::URL_SAFE_NO_PAD, text)
        .map_err(|error| error.to_string())
}

/// `base64::engine::general_purpose::STANDARD.encode`: its result is named, decoding it gives the
/// bytes back, and it is made of the characters of the alphabet and its padding.
#[verifier::external_body]
pub(crate) fn standard_encode(bytes: &[u8]) -> (text: String)
    ensures
        text@ == standard_text(bytes@),
        standard_bytes(text@) == Some(bytes@),
        in_standard_alphabet(text@),
{
    base64::Engine::encode(&base64::engine::general_purpose::STANDARD, bytes)
}

/// `base64::engine::general_purpose::STANDARD.decode`: its result is named, without its error.
#[verifier::external_body]
pub(crate) fn standard_decode(text: &str) -> (bytes: Option<Vec<u8>>)
    ensures
        crate::text::bytes_view(bytes) == standard_bytes(text@),
{
    base64::Engine::decode(&base64::engine::general_purpose::STANDARD, text).ok()
}

} // verus!
