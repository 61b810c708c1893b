use aes_gcm::aead::{Aead, KeyInit};
use aes_gcm::{Aes256Gcm, Nonce};
use base64::engine::general_purpose::STANDARD;
use base64::Engine;
use token_extractor::aggregator::{extract_tokens, try_extract_from_client, VariantStorage};
use token_extractor::decryptor::{decrypt_token, find_and_decrypt_tokens};
use token_extractor::errors::ExtractError;
use token_extractor::keyunwrap::unwrap_master_key;
use token_extractor::protect::{MockProtectedStore, UnsupportedPlatformStore};

const KEY: [u8; 32] = [7u8; 32];
const OTHER_KEY: [u8; 32] = [9u8; 32];
const NONCE: [u8; 12] = [3u8; 12];
const BLOB: [u8; 6] = [1, 2, 3, 4, 5, 6];

fn mock_store() -> MockProtectedStore {
    MockProtectedStore { wrapped: BLOB.to_vec(), key: KEY.to_vec() }
}

/// `[3-byte version tag] || [12-byte nonce] || [ciphertext || 16-byte tag]`.
fn encrypt_blob(key: &[u8], plaintext: &[u8]) -> Vec<u8> {
    let cipher = Aes256Gcm::new_from_slice(key).unwrap();
    let sealed = cipher.encrypt(Nonce::from_slice(&NONCE), plaintext).unwrap();
    let mut out = b"v10".to_vec();
    out.extend_from_slice(&NONCE);
    out.extend_from_slice(&sealed);
    out
}

/// A log-segment buffer holding one tagged candidate for `plaintext`.
fn segment_with_token(key: &[u8], plaintext: &[u8]) -> Vec<u8> {
    let body = STANDARD.encode(encrypt_blob(key, plaintext));
    let mut seg: Vec<u8> = vec![0x00, 0x1b, 0xff];
    seg.extend_from_slice(format!("dQw4w9WgXcQ:{}", body).as_bytes());
    seg.push(0x00);
    seg
}

/// The state-file text whose wrapped key field is base64 of `DPAPI || blob`.
fn local_state_for(blob: &[u8]) -> String {
    let mut wrapped = b"DPAPI".to_vec();
    wrapped.extend_from_slice(blob);
    let field = STANDARD.encode(wrapped);
    format!("{{\"os_crypt\":{{\"encrypted_key\":\"{}\"}}}}", field)
}

fn storage_with(key: &[u8], plaintexts: &[&str]) -> VariantStorage {
    let segments: Vec<Vec<u8>> =
        plaintexts.iter().map(|p| segment_with_token(key, p.as_bytes())).collect();
    VariantStorage { local_state: Some(local_state_for(&BLOB)), segments: Some(segments) }
}

#[test]
fn test_unwrap_master_key_round_trip() {
    // A valid `[marker || blob]` wrapped key round-trips through the mock
    // store into exactly the mock's declared plaintext key.
    let store = mock_store();
    let state = local_state_for(&BLOB);
    assert_eq!(unwrap_master_key(&store, &state), Ok(KEY.to_vec()));
}

#[test]
fn test_unwrap_master_key_rejects_bad_json() {
    let store = mock_store();
    assert_eq!(unwrap_master_key(&store, "not json at all"), Err(ExtractError::FormatError));
}

#[test]
fn test_unwrap_master_key_rejects_missing_field() {
    let store = mock_store();
    assert_eq!(
        unwrap_master_key(&store, "{\"os_crypt\":{}}"),
        Err(ExtractError::FormatError)
    );
}

#[test]
fn test_unwrap_master_key_rejects_bad_base64() {
    let store = mock_store();
    let state = "{\"os_crypt\":{\"encrypted_key\":\"!!not-base64!!\"}}";
    assert_eq!(unwrap_master_key(&store, state), Err(ExtractError::FormatError));
}

#[test]
fn test_unwrap_master_key_rejects_missing_marker() {
    let store = mock_store();
    let field = STANDARD.encode(b"QQQQQwrongmarker");
    let state = format!("{{\"os_crypt\":{{\"encrypted_key\":\"{}\"}}}}", field);
    assert_eq!(unwrap_master_key(&store, &state), Err(ExtractError::FormatError));
}

#[test]
fn test_unwrap_master_key_rejects_short_blob() {
    let store = mock_store();
    let field = STANDARD.encode(b"DPA");
    let state = format!("{{\"os_crypt\":{{\"encrypted_key\":\"{}\"}}}}", field);
    assert_eq!(unwrap_master_key(&store, &state), Err(ExtractError::FormatError));
}

#[test]
fn test_unwrap_master_key_crypto_error() {
    // The store rejects a blob it never wrapped.
    let store = mock_store();
    let state = local_state_for(&[9, 9, 9]);
    assert_eq!(unwrap_master_key(&store, &state), Err(ExtractError::CryptoError));
}

#[test]
fn test_decrypt_token_round_trip() {
    // Encrypting then decrypting a known plaintext under a known key and
    // nonce yields the original plaintext exactly.
    let enc = encrypt_blob(&KEY, b"my-secret-credential");
    assert_eq!(decrypt_token(&enc, &KEY), Some("my-secret-credential".to_string()));
}

#[test]
fn test_decrypt_token_too_short() {
    let enc = encrypt_blob(&KEY, b"tok");
    assert_eq!(decrypt_token(&enc[..14], &KEY), None);
}

#[test]
fn test_decrypt_token_wrong_key() {
    let enc = encrypt_blob(&KEY, b"tok");
    assert_eq!(decrypt_token(&enc, &OTHER_KEY), None);
}

#[test]
fn test_decrypt_token_wrong_key_size() {
    let enc = encrypt_blob(&KEY, b"tok");
    assert_eq!(decrypt_token(&enc, &KEY[..16]), None);
}

#[test]
fn test_decrypt_token_tampered_ciphertext() {
    // Flipping one ciphertext byte makes authentication fail: the candidate
    // is skipped, nothing propagates past the candidate boundary.
    let mut enc = encrypt_blob(&KEY, b"tamper-me");
    enc[16] ^= 0x01;
    assert_eq!(decrypt_token(&enc, &KEY), None);
}

#[test]
fn test_decrypt_token_tampered_tag() {
    let mut enc = encrypt_blob(&KEY, b"tamper-me");
    let last = enc.len() - 1;
    enc[last] ^= 0x80;
    assert_eq!(decrypt_token(&enc, &KEY), None);
}

#[test]
fn test_find_and_decrypt_skips_garbage_candidate() {
    // One segment with a valid candidate, a tagged-but-garbage candidate and
    // a tagged non-base64 region: only the valid plaintext comes back.
    let mut seg = segment_with_token(&KEY, b"good-token");
    seg.extend_from_slice(b" dQw4w9WgXcQ:Z2FyYmFnZQ== dQw4w9WgXcQ:?");
    let found = find_and_decrypt_tokens(&seg, &KEY);
    assert_eq!(found, vec!["good-token".to_string()]);
}

#[test]
fn test_find_and_decrypt_two_tokens_in_one_segment() {
    let mut seg = segment_with_token(&KEY, b"first");
    seg.extend_from_slice(&segment_with_token(&KEY, b"second"));
    let found = find_and_decrypt_tokens(&seg, &KEY);
    assert_eq!(found, vec!["first".to_string(), "second".to_string()]);
}

#[test]
fn test_try_extract_io_error_on_missing_state() {
    let store = mock_store();
    let storage = VariantStorage { local_state: None, segments: Some(vec![]) };
    assert_eq!(try_extract_from_client(&store, &storage), Err(ExtractError::IoError));
}

#[test]
fn test_try_extract_io_error_on_missing_storage_dir() {
    let store = mock_store();
    let storage = VariantStorage { local_state: Some(local_state_for(&BLOB)), segments: None };
    assert_eq!(try_extract_from_client(&store, &storage), Err(ExtractError::IoError));
}

#[test]
fn test_try_extract_crypto_error_on_wrong_key_size() {
    // A structural error in the key itself propagates, unlike a candidate
    // failure.
    let store = MockProtectedStore { wrapped: BLOB.to_vec(), key: vec![1u8; 16] };
    let storage = VariantStorage {
        local_state: Some(local_state_for(&BLOB)),
        segments: Some(vec![]),
    };
    assert_eq!(try_extract_from_client(&store, &storage), Err(ExtractError::CryptoError));
}

#[test]
fn test_try_extract_unsupported_platform() {
    let store = UnsupportedPlatformStore;
    let storage = VariantStorage {
        local_state: Some(local_state_for(&BLOB)),
        segments: Some(vec![]),
    };
    assert_eq!(
        try_extract_from_client(&store, &storage),
        Err(ExtractError::UnsupportedPlatform)
    );
}

#[test]
fn test_extract_one_variant_fails_other_succeeds() {
    // Variant A's key unwrap fails with a format error; variant B holds one
    // valid and one garbage candidate: the result is exactly B's one
    // credential and the overall call succeeds.
    let store = mock_store();
    let bad = VariantStorage {
        local_state: Some("{\"os_crypt\":{}}".to_string()),
        segments: Some(vec![segment_with_token(&KEY, b"unreachable")]),
    };
    let mut seg = segment_with_token(&KEY, b"the-valid-one");
    seg.extend_from_slice(b"dQw4w9WgXcQ:Z2FyYmFnZQ==");
    let good = VariantStorage {
        local_state: Some(local_state_for(&BLOB)),
        segments: Some(vec![seg]),
    };
    let storages = vec![bad, good];
    assert_eq!(extract_tokens(&store, &storages), Ok(vec!["the-valid-one".to_string()]));
}

#[test]
fn test_extract_tampered_variant_leaves_other_intact() {
    // Variant A's wrapped key blob is corrupted, so its unwrap fails; variant
    // B's correct key still recovers B's credential.
    let store = mock_store();
    let tampered = VariantStorage {
        local_state: Some(local_state_for(&[1, 2, 3, 4, 5, 7])),
        segments: Some(vec![segment_with_token(&KEY, b"unreachable")]),
    };
    let intact = storage_with(&KEY, &["still-here"]);
    let storages = vec![tampered, intact];
    assert_eq!(extract_tokens(&store, &storages), Ok(vec!["still-here".to_string()]));
}

#[test]
fn test_extract_wrong_key_for_one_variant_skips_only_it() {
    // Variant A's master key does not match its data (as after key
    // tampering): all of A's candidates fail authentication and are skipped;
    // variant B's correct key still recovers B's credential.
    let store = mock_store();
    let mismatched = VariantStorage {
        local_state: Some(local_state_for(&BLOB)),
        segments: Some(vec![segment_with_token(&OTHER_KEY, b"hidden")]),
    };
    let intact = storage_with(&KEY, &["visible"]);
    let storages = vec![mismatched, intact];
    assert_eq!(extract_tokens(&store, &storages), Ok(vec!["visible".to_string()]));
}

#[test]
fn test_extract_all_variants_fail() {
    // Every variant fails key unwrap: the call fails with the aggregate
    // error and returns no partial state.
    let store = mock_store();
    let storages = vec![
        VariantStorage { local_state: None, segments: Some(vec![]) },
        VariantStorage { local_state: Some("nonsense".to_string()), segments: Some(vec![]) },
    ];
    assert_eq!(extract_tokens(&store, &storages), Err(ExtractError::NoCredentialsFound));
}

#[test]
fn test_extract_no_candidates_found() {
    // A variant that unwraps its key but holds no candidates contributes
    // nothing, and an empty result set is the aggregate failure.
    let store = mock_store();
    let storages = vec![VariantStorage {
        local_state: Some(local_state_for(&BLOB)),
        segments: Some(vec![b"nothing tagged in here".to_vec()]),
    }];
    assert_eq!(extract_tokens(&store, &storages), Err(ExtractError::NoCredentialsFound));
}

#[test]
fn test_extract_three_files_two_distinct_tokens() {
    // Three segment files, two holding one valid candidate each and one
    // holding none: two distinct plaintexts give a two-element result.
    let store = mock_store();
    let storage = VariantStorage {
        local_state: Some(local_state_for(&BLOB)),
        segments: Some(vec![
            segment_with_token(&KEY, b"first-token"),
            b"no candidates here".to_vec(),
            segment_with_token(&KEY, b"second-token"),
        ]),
    };
    let storages = vec![storage];
    assert_eq!(
        extract_tokens(&store, &storages),
        Ok(vec!["first-token".to_string(), "second-token".to_string()])
    );
}

#[test]
fn test_extract_three_files_identical_tokens_deduplicated() {
    let store = mock_store();
    let storage = VariantStorage {
        local_state: Some(local_state_for(&BLOB)),
        segments: Some(vec![
            segment_with_token(&KEY, b"same-token"),
            b"no candidates here".to_vec(),
            segment_with_token(&KEY, b"same-token"),
        ]),
    };
    let storages = vec![storage];
    assert_eq!(extract_tokens(&store, &storages), Ok(vec!["same-token".to_string()]));
}

#[test]
fn test_extract_deduplicates_across_variants() {
    let store = mock_store();
    let storages = vec![
        storage_with(&KEY, &["shared", "only-a"]),
        storage_with(&KEY, &["shared", "only-b"]),
    ];
    assert_eq!(
        extract_tokens(&store, &storages),
        Ok(vec!["shared".to_string(), "only-a".to_string(), "only-b".to_string()])
    );
}
