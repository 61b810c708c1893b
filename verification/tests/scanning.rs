use token_extractor::scanner::find_candidates;

#[test]
fn test_scanner_empty_buffer() {
    let found = find_candidates(&[]);
    assert_eq!(found, Vec::<Vec<u8>>::new());
}

#[test]
fn test_scanner_no_match() {
    let data = b"some binary \x00\xff junk without any tagged region at all";
    let found = find_candidates(data);
    assert_eq!(found, Vec::<Vec<u8>>::new());
}

#[test]
fn test_scanner_single_match_amid_binary() {
    let mut data: Vec<u8> = vec![0x00, 0xff, 0x17];
    data.extend_from_slice(b"dQw4w9WgXcQ:QUJDRA==");
    data.extend_from_slice(&[0x00, 0x7f]);
    let found = find_candidates(&data);
    assert_eq!(found, vec![b"QUJDRA==".to_vec()]);
}

#[test]
fn test_scanner_multiple_matches() {
    let data = b"x dQw4w9WgXcQ:QQ== y dQw4w9WgXcQ:Ug== z";
    let found = find_candidates(data);
    assert_eq!(found, vec![b"QQ==".to_vec(), b"Ug==".to_vec()]);
}

#[test]
fn test_scanner_overlapping_tags() {
    // The second tag occurrence starts inside the first occurrence's base64
    // body; both occurrences must be reported.
    let data = b"dQw4w9WgXcQ:AAAdQw4w9WgXcQ:BBB";
    let found = find_candidates(data);
    assert_eq!(found, vec![b"AAAdQw4w9WgXcQ".to_vec(), b"BBB".to_vec()]);
}

#[test]
fn test_scanner_adjacent_tags() {
    let data = b"dQw4w9WgXcQ:dQw4w9WgXcQ:Qa";
    let found = find_candidates(data);
    // The first tag is followed by the second tag's leading base64-looking
    // characters, so its body runs up to the second colon; the second tag's
    // own body is `Qa`.
    assert_eq!(found, vec![b"dQw4w9WgXcQ".to_vec(), b"Qa".to_vec()]);
}

#[test]
fn test_scanner_many_candidates() {
    let mut data: Vec<u8> = Vec::new();
    for _ in 0..50 {
        data.extend_from_slice(b"dQw4w9WgXcQ:QUJD ");
    }
    let found = find_candidates(&data);
    assert_eq!(found.len(), 50);
    for body in found {
        assert_eq!(body, b"QUJD".to_vec());
    }
}

#[test]
fn test_scanner_tag_without_body() {
    let data = b"dQw4w9WgXcQ: next";
    let found = find_candidates(data);
    assert_eq!(found, Vec::<Vec<u8>>::new());
}

#[test]
fn test_scanner_body_stops_at_non_base64_byte() {
    let data = b"dQw4w9WgXcQ:abc+/=09AZ\x01more";
    let found = find_candidates(data);
    assert_eq!(found, vec![b"abc+/=09AZ".to_vec()]);
}
