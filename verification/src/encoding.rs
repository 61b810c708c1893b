//! Trusted byte-to-text codecs: base64 decoding and UTF-8 validation.

use base64::Engine;
use vstd::prelude::*;

verus! {

/// What base64 decoding with the standard alphabet returns for `input`:
/// the decoded bytes, or `None` when `input` is not valid base64.
pub uninterp spec fn b64_decode_of(input: Seq<u8>) -> Option<Seq<u8>>;

/// Relies on base64's `Engine::decode` with the `STANDARD` engine: the result
/// is a function of the input bytes alone, and invalid input is reported as an
/// error, never a panic.
#[verifier::external_body]
pub(crate) fn b64_decode(input: &[u8]) -> (r: Option<Vec<u8>>)
    ensures
        match r {
            Some(v) => b64_decode_of(input@) == Some(v@),
            None => b64_decode_of(input@) is None,
        },
{
    base64::engine::general_purpose::STANDARD.decode(input).ok()
}

/// What UTF-8 decoding returns for `bytes`: the character sequence, or `None`
/// when `bytes` is not valid UTF-8.
pub uninterp spec fn utf8_of(bytes: Seq<u8>) -> Option<Seq<char>>;

/// Relies on std's `String::from_utf8`: the result is a function of the bytes
/// alone, and invalid UTF-8 is reported as an error, never a panic.
#[verifier::external_body]
pub(crate) fn utf8_string(bytes: Vec<u8>) -> (r: Option<String>)
    ensures
        match r {
            Some(s) => utf8_of(bytes@) == Some(s@),
            None => utf8_of(bytes@) is None,
        },
{
    String::from_utf8(bytes).ok()
}

} // verus!
