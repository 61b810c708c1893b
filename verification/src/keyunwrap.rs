//! The Key Unwrapper: from a variant's state-file text to its raw master
//! key, through the platform protected store.

use crate::encoding::{b64_decode, b64_decode_of};
use crate::errors::ExtractError;
use crate::protect::ProtectedStore;
use vstd::prelude::*;
use vstd::slice::slice_subrange;

verus! {

/// What extracting the nested wrapped-key string field from a JSON state file
/// returns: the field's bytes, or `None` when the text is not JSON or the
/// field is absent or not a string.
pub uninterp spec fn json_encrypted_key_of(content: Seq<char>) -> Option<Seq<u8>>;

/// Relies on serde_json's `from_str`, `Value::get` and `Value::as_str`: reads
/// the `os_crypt.encrypted_key` string field of a JSON document. The result is
/// a function of the text alone; malformed JSON is an error, never a panic.
#[verifier::external_body]
pub(crate) fn encrypted_key_field(content: &str) -> (r: Option<Vec<u8>>)
    ensures
        match r {
            Some(f) => json_encrypted_key_of(content@) == Some(f@),
            None => json_encrypted_key_of(content@) is None,
        },
{
    let value: serde_json::Value = match serde_json::from_str(content) {
        Ok(v) => v,
        Err(_) => return None,
    };
    let outer = match value.get("os_crypt") {
        Some(o) => o,
        None => return None,
    };
    let field = match outer.get("encrypted_key") {
        Some(k) => k,
        None => return None,
    };
    field.as_str().map(|s| s.as_bytes().to_vec())
}

/// True when `decoded` begins with the fixed five-byte ASCII marker `DPAPI`
/// that precedes the platform-protected blob.
pub open spec fn has_dpapi_marker(decoded: Seq<u8>) -> bool {
    &&& decoded.len() >= 5
    &&& decoded[0] == ('D' as u8)
    &&& decoded[1] == ('P' as u8)
    &&& decoded[2] == ('A' as u8)
    &&& decoded[3] == ('P' as u8)
    &&& decoded[4] == ('I' as u8)
}

/// The Key Unwrapper's result on an already-extracted wrapped-key field:
/// base64-decode it, require and strip the five-byte marker, and hand the
/// remaining blob to the protected store.
pub open spec fn spec_unwrap_field<S: ProtectedStore>(store: &S, field: Seq<u8>) -> Result<
    Seq<u8>,
    ExtractError,
> {
    match b64_decode_of(field) {
        None => Err(ExtractError::FormatError),
        Some(decoded) => if !has_dpapi_marker(decoded) {
            Err(ExtractError::FormatError)
        } else {
            store.spec_unwrap(decoded.skip(5))
        },
    }
}

/// The Key Unwrapper's result on the full text of a variant's state file.
pub open spec fn spec_unwrap_master_key<S: ProtectedStore>(store: &S, content: Seq<char>) -> Result<
    Seq<u8>,
    ExtractError,
> {
    match json_encrypted_key_of(content) {
        None => Err(ExtractError::FormatError),
        Some(field) => spec_unwrap_field(store, field),
    }
}

/// Unwraps an already-extracted wrapped-key field through the store.
pub fn unwrap_wrapped_key<S: ProtectedStore>(store: &S, field: &[u8]) -> (r: Result<
    Vec<u8>,
    ExtractError,
>)
    ensures
        match r {
            Ok(k) => spec_unwrap_field(store, field@) == Ok::<Seq<u8>, ExtractError>(k@),
            Err(e) => spec_unwrap_field(store, field@) == Err::<Seq<u8>, ExtractError>(e),
        },
{
    let decoded = match b64_decode(field) {
        Some(d) => d,
        None => return Err(ExtractError::FormatError),
    };
    if decoded.len() < 5 {
        return Err(ExtractError::FormatError);
    }
    let marker_ok = decoded[0] == ('D' as u8) && decoded[1] == ('P' as u8) && decoded[2] == (
    'A' as u8) && decoded[3] == ('P' as u8) && decoded[4] == ('I' as u8);
    if !marker_ok {
        return Err(ExtractError::FormatError);
    }
    let blob = slice_subrange(decoded.as_slice(), 5, decoded.len());
    assert(blob@ =~= decoded@.skip(5));
    store.unwrap_protected(blob)
}

/// The Key Unwrapper: reads the wrapped-key field out of the state-file text,
/// base64-decodes it, strips the marker, and unwraps the blob into the
/// variant's raw master key through the platform protected store.
pub fn unwrap_master_key<S: ProtectedStore>(store: &S, local_state: &str) -> (r: Result<
    Vec<u8>,
    ExtractError,
>)
    ensures
        match r {
            Ok(k) => spec_unwrap_master_key(store, local_state@) == Ok::<Seq<u8>, ExtractError>(
                k@,
            ),
            Err(e) => spec_unwrap_master_key(store, local_state@) == Err::<Seq<u8>, ExtractError>(
                e,
            ),
        },
{
    let field = match encrypted_key_field(local_state) {
        Some(f) => f,
        None => return Err(ExtractError::FormatError),
    };
    unwrap_wrapped_key(store, field.as_slice())
}

/// Round-trip law of the Key Unwrapper: for any state-file text whose wrapped
/// key field base64-decodes to the five-byte marker followed by a blob that
/// the store unwraps into `key`, the Key Unwrapper yields exactly `key`.
pub proof fn lemma_unwrap_round_trip<S: ProtectedStore>(
    store: &S,
    content: Seq<char>,
    field: Seq<u8>,
    decoded: Seq<u8>,
    key: Seq<u8>,
)
    requires
        json_encrypted_key_of(content) == Some(field),
        b64_decode_of(field) == Some(decoded),
        has_dpapi_marker(decoded),
        store.spec_unwrap(decoded.skip(5)) == Ok::<Seq<u8>, ExtractError>(key),
    ensures
        spec_unwrap_master_key(store, content) == Ok::<Seq<u8>, ExtractError>(key),
{
}

} // verus!
