//! Stream-key generation for the downstream quest runner.

use rand::distributions::Alphanumeric;
use rand::Rng;
use vstd::prelude::*;
use vstd::string::StringExecFns;

verus! {

/// An ASCII letter or digit.
pub open spec fn is_alphanumeric_char(c: char) -> bool {
    ('A' <= c && c <= 'Z') || ('a' <= c && c <= 'z') || ('0' <= c && c <= '9')
}

/// Relies on rand's `thread_rng` and the `Alphanumeric` distribution: every
/// sampled byte is an ASCII letter or digit. Nothing more can be promised of
/// a random result.
#[verifier::external_body]
fn random_alphanumeric(len: usize) -> (r: String)
    ensures
        r@.len() == len,
        forall|i: int| 0 <= i < r@.len() ==> is_alphanumeric_char(r@[i]),
{
    rand::thread_rng().sample_iter(&Alphanumeric).take(len).map(char::from).collect()
}

/// A fresh pseudonymous stream key: the fixed `stream_` prefix followed by 32
/// random alphanumeric characters.
pub fn generate_stream_key() -> (r: String)
    ensures
        r@.len() == 39,
        r@.subrange(0, 7) == "stream_"@,
        forall|i: int| 7 <= i < 39 ==> is_alphanumeric_char(r@[i]),
{
    let mut key = String::from_str("stream_");
    let suffix = random_alphanumeric(32);
    proof {
        reveal_strlit("stream_");
    }
    key.append(suffix.as_str());
    proof {
        assert(key@.subrange(0, 7) =~= "stream_"@);
    }
    key
}

} // verus!
